//! Named expressions for the run selections that analyses share.

use vstd::prelude::*;
use crate::float::Float64;
use crate::rcdb::cond::{all, comparison, float_cond, formulas_of, int_cond, lemma_formulas_of, string_cond, Expr, Formula, GroupKind, Test};
use crate::rcdb::models::ValueType;
use crate::text::{same_text, string_views};

verus! {

/// The bit patterns of the numbers that the aliases compare with.
pub open spec fn zero_bits() -> u64 {
    0
}

pub open spec fn one_bits() -> u64 {
    0x3ff0_0000_0000_0000
}

pub open spec fn two_bits() -> u64 {
    0x4000_0000_0000_0000
}

pub open spec fn hundred_bits() -> u64 {
    0x4059_0000_0000_0000
}

/// The built-in aliases.
#[derive(Debug, Clone, Copy, PartialEq, Eq, Structural)]
pub enum AliasKind {
    IsProduction,
    Is2018Production,
    IsPrimexProduction,
    IsDircProduction,
    IsSrcProduction,
    IsCppProduction,
    IsProductionLong,
    IsCosmic,
    IsEmptyTarget,
    IsAmorphRadiator,
    IsCoherentBeam,
    IsFieldOff,
    IsFieldOn,
    StatusCalibration,
    StatusApprovedLong,
    StatusApproved,
    StatusUnchecked,
    StatusReject,
}

/// The run types of production data.
pub open spec fn production_run_types() -> Seq<Seq<char>> {
    seq!["hd_all.tsg"@, "hd_all.tsg_ps"@, "hd_all.bcal_fcal_st.tsg"@]
}

/// Beam on, at least `min_events` events, solenoid on and the collimator
/// not blocking, together with `first`.
pub open spec fn beam_production(first: Formula, min_events: i64) -> Formula {
    Formula::Group {
        kind: GroupKind::And,
        clauses: seq![
            first,
            comparison("beam_current"@, ValueType::Float, Test::FloatGt(two_bits())),
            comparison("event_count"@, ValueType::Int, Test::IntGt(min_events)),
            comparison("solenoid_current"@, ValueType::Float, Test::FloatGt(hundred_bits())),
            comparison("collimator_diameter"@, ValueType::String, Test::StringNotEquals("Blocking"@)),
        ],
    }
}

/// A physics run of the given DAQ configuration.
pub open spec fn daq_run_is(config: Seq<char>) -> Formula {
    comparison("daq_run"@, ValueType::String, Test::StringEquals(config))
}

impl AliasKind {
    /// The name under which the alias is looked up.
    pub open spec fn name_text(self) -> Seq<char> {
        match self {
            AliasKind::IsProduction => "is_production"@,
            AliasKind::Is2018Production => "is_2018production"@,
            AliasKind::IsPrimexProduction => "is_primex_production"@,
            AliasKind::IsDircProduction => "is_dirc_production"@,
            AliasKind::IsSrcProduction => "is_src_production"@,
            AliasKind::IsCppProduction => "is_cpp_production"@,
            AliasKind::IsProductionLong => "is_production_long"@,
            AliasKind::IsCosmic => "is_cosmic"@,
            AliasKind::IsEmptyTarget => "is_empty_target"@,
            AliasKind::IsAmorphRadiator => "is_amorph_radiator"@,
            AliasKind::IsCoherentBeam => "is_coherent_beam"@,
            AliasKind::IsFieldOff => "is_field_off"@,
            AliasKind::IsFieldOn => "is_field_on"@,
            AliasKind::StatusCalibration => "status_calibration"@,
            AliasKind::StatusApprovedLong => "status_approved_long"@,
            AliasKind::StatusApproved => "status_approved"@,
            AliasKind::StatusUnchecked => "status_unchecked"@,
            AliasKind::StatusReject => "status_reject"@,
        }
    }

    /// The predicate that the alias stands for.
    pub open spec fn formula(self) -> Formula {
        match self {
            AliasKind::IsProduction => beam_production(
                comparison("run_type"@, ValueType::String, Test::StringIn(production_run_types())),
                500000,
            ),
            AliasKind::Is2018Production => beam_production(daq_run_is("PHYSICS"@), 10000000),
            AliasKind::IsDircProduction => beam_production(daq_run_is("PHYSICS_DIRC"@), 5000000),
            AliasKind::IsSrcProduction => beam_production(daq_run_is("PHYSICS_SRC"@), 5000000),
            AliasKind::IsCppProduction => beam_production(daq_run_is("PHYSICS_CPP"@), 5000000),
            AliasKind::IsProductionLong => beam_production(daq_run_is("PHYSICS_raw"@), 5000000),
            AliasKind::IsPrimexProduction => Formula::Group {
                kind: GroupKind::And,
                clauses: seq![
                    daq_run_is("PHYSICS_PRIMEX"@),
                    comparison("event_count"@, ValueType::Int, Test::IntGt(1000000)),
                    comparison(
                        "collimator_diameter"@,
                        ValueType::String,
                        Test::StringNotEquals("Blocking"@),
                    ),
                ],
            },
            AliasKind::IsCosmic => Formula::Group {
                kind: GroupKind::And,
                clauses: seq![
                    comparison("run_config"@, ValueType::String, Test::StringContains("cosmic"@)),
                    comparison("beam_current"@, ValueType::Float, Test::FloatLt(one_bits())),
                    comparison("event_count"@, ValueType::Int, Test::IntGt(5000)),
                ],
            },
            AliasKind::IsEmptyTarget => comparison(
                "target_type"@,
                ValueType::String,
                Test::StringEquals("EMPTY & Ready"@),
            ),
            AliasKind::IsAmorphRadiator => comparison(
                "polarization_angle"@,
                ValueType::Float,
                Test::FloatLt(zero_bits()),
            ),
            AliasKind::IsCoherentBeam => comparison(
                "polarization_angle"@,
                ValueType::Float,
                Test::FloatGe(zero_bits()),
            ),
            AliasKind::IsFieldOff => comparison(
                "solenoid_current"@,
                ValueType::Float,
                Test::FloatLt(hundred_bits()),
            ),
            AliasKind::IsFieldOn => comparison(
                "solenoid_current"@,
                ValueType::Float,
                Test::FloatGe(hundred_bits()),
            ),
            AliasKind::StatusCalibration => comparison("status"@, ValueType::Int, Test::IntEquals(3)),
            AliasKind::StatusApprovedLong => comparison("status"@, ValueType::Int, Test::IntEquals(2)),
            AliasKind::StatusApproved => comparison("status"@, ValueType::Int, Test::IntEquals(1)),
            AliasKind::StatusUnchecked => comparison("status"@, ValueType::Int, Test::IntEquals(-1i64)),
            AliasKind::StatusReject => comparison("status"@, ValueType::Int, Test::IntEquals(0)),
        }
    }

    /// The alias that is looked up as `name`, if any.
    pub open spec fn named(name: Seq<char>) -> Option<AliasKind> {
        if name == "is_production"@ {
            Some(AliasKind::IsProduction)
        } else if name == "is_2018production"@ {
            Some(AliasKind::Is2018Production)
        } else if name == "is_primex_production"@ {
            Some(AliasKind::IsPrimexProduction)
        } else if name == "is_dirc_production"@ {
            Some(AliasKind::IsDircProduction)
        } else if name == "is_src_production"@ {
            Some(AliasKind::IsSrcProduction)
        } else if name == "is_cpp_production"@ {
            Some(AliasKind::IsCppProduction)
        } else if name == "is_production_long"@ {
            Some(AliasKind::IsProductionLong)
        } else if name == "is_cosmic"@ {
            Some(AliasKind::IsCosmic)
        } else if name == "is_empty_target"@ {
            Some(AliasKind::IsEmptyTarget)
        } else if name == "is_amorph_radiator"@ {
            Some(AliasKind::IsAmorphRadiator)
        } else if name == "is_coherent_beam"@ {
            Some(AliasKind::IsCoherentBeam)
        } else if name == "is_field_off"@ {
            Some(AliasKind::IsFieldOff)
        } else if name == "is_field_on"@ {
            Some(AliasKind::IsFieldOn)
        } else if name == "status_calibration"@ {
            Some(AliasKind::StatusCalibration)
        } else if name == "status_approved_long"@ {
            Some(AliasKind::StatusApprovedLong)
        } else if name == "status_approved"@ {
            Some(AliasKind::StatusApproved)
        } else if name == "status_unchecked"@ {
            Some(AliasKind::StatusUnchecked)
        } else if name == "status_reject"@ {
            Some(AliasKind::StatusReject)
        } else {
            None
        }
    }

    pub fn name(&self) -> (r: &'static str)
        ensures
            r@ == self.name_text(),
    {
        match self {
            AliasKind::IsProduction => "is_production",
            AliasKind::Is2018Production => "is_2018production",
            AliasKind::IsPrimexProduction => "is_primex_production",
            AliasKind::IsDircProduction => "is_dirc_production",
            AliasKind::IsSrcProduction => "is_src_production",
            AliasKind::IsCppProduction => "is_cpp_production",
            AliasKind::IsProductionLong => "is_production_long",
            AliasKind::IsCosmic => "is_cosmic",
            AliasKind::IsEmptyTarget => "is_empty_target",
            AliasKind::IsAmorphRadiator => "is_amorph_radiator",
            AliasKind::IsCoherentBeam => "is_coherent_beam",
            AliasKind::IsFieldOff => "is_field_off",
            AliasKind::IsFieldOn => "is_field_on",
            AliasKind::StatusCalibration => "status_calibration",
            AliasKind::StatusApprovedLong => "status_approved_long",
            AliasKind::StatusApproved => "status_approved",
            AliasKind::StatusUnchecked => "status_unchecked",
            AliasKind::StatusReject => "status_reject",
        }
    }

    /// A short description of the alias.
    pub open spec fn comment_text(self) -> Seq<char> {
        match self {
            AliasKind::IsProduction => "Is production run"@,
            AliasKind::Is2018Production => "Is production run"@,
            AliasKind::IsPrimexProduction => "Is PrimEx production run"@,
            AliasKind::IsDircProduction => "Is DIRC production run"@,
            AliasKind::IsSrcProduction => "Is SRC production run"@,
            AliasKind::IsCppProduction => "Is CPP production run"@,
            AliasKind::IsProductionLong => "Is production run with long mode data"@,
            AliasKind::IsCosmic => "Is cosmic run"@,
            AliasKind::IsEmptyTarget => "Target is empty"@,
            AliasKind::IsAmorphRadiator => "Amorphous Radiator"@,
            AliasKind::IsCoherentBeam => "Coherent Beam"@,
            AliasKind::IsFieldOff => " Field Off"@,
            AliasKind::IsFieldOn => " Field On"@,
            AliasKind::StatusCalibration => "Run status = calibration"@,
            AliasKind::StatusApprovedLong => "Run status = approved (long)"@,
            AliasKind::StatusApproved => "Run status = approved"@,
            AliasKind::StatusUnchecked => "Run status = unchecked"@,
            AliasKind::StatusReject => "Run status = reject"@,
        }
    }

    /// A short description of the alias.
    pub fn comment(&self) -> (r: &'static str)
        ensures
            r@ == self.comment_text(),
    {
        match self {
            AliasKind::IsProduction => "Is production run",
            AliasKind::Is2018Production => "Is production run",
            AliasKind::IsPrimexProduction => "Is PrimEx production run",
            AliasKind::IsDircProduction => "Is DIRC production run",
            AliasKind::IsSrcProduction => "Is SRC production run",
            AliasKind::IsCppProduction => "Is CPP production run",
            AliasKind::IsProductionLong => "Is production run with long mode data",
            AliasKind::IsCosmic => "Is cosmic run",
            AliasKind::IsEmptyTarget => "Target is empty",
            AliasKind::IsAmorphRadiator => "Amorphous Radiator",
            AliasKind::IsCoherentBeam => "Coherent Beam",
            AliasKind::IsFieldOff => " Field Off",
            AliasKind::IsFieldOn => " Field On",
            AliasKind::StatusCalibration => "Run status = calibration",
            AliasKind::StatusApprovedLong => "Run status = approved (long)",
            AliasKind::StatusApproved => "Run status = approved",
            AliasKind::StatusUnchecked => "Run status = unchecked",
            AliasKind::StatusReject => "Run status = reject",
        }
    }

    /// Builds the expression of the alias.
    pub fn expression(&self) -> (r: Expr)
        ensures
            r@ == self.formula(),
    {
        match self {
            AliasKind::IsProduction => {
                let types: Vec<String> = vec![
                    "hd_all.tsg".to_owned(),
                    "hd_all.tsg_ps".to_owned(),
                    "hd_all.bcal_fcal_st.tsg".to_owned(),
                ];
                assert(string_views(types@) == production_run_types());
                beam_production_of(string_cond("run_type").isin(types), 500000)
            },
            AliasKind::Is2018Production => beam_production_of(string_cond("daq_run").eq("PHYSICS"), 10000000),
            AliasKind::IsDircProduction => beam_production_of(string_cond("daq_run").eq("PHYSICS_DIRC"), 5000000),
            AliasKind::IsSrcProduction => beam_production_of(string_cond("daq_run").eq("PHYSICS_SRC"), 5000000),
            AliasKind::IsCppProduction => beam_production_of(string_cond("daq_run").eq("PHYSICS_CPP"), 5000000),
            AliasKind::IsProductionLong => beam_production_of(string_cond("daq_run").eq("PHYSICS_raw"), 5000000),
            AliasKind::IsPrimexProduction => {
                let clauses: Vec<Expr> = vec![
                    string_cond("daq_run").eq("PHYSICS_PRIMEX"),
                    int_cond("event_count").gt(1000000),
                    string_cond("collimator_diameter").neq("Blocking"),
                ];
                proof {
                    lemma_formulas_of(clauses@, 3);
                    assert(formulas_of(clauses@, 3) == seq![clauses@[0]@, clauses@[1]@, clauses@[2]@]);
                }
                all(clauses)
            },
            AliasKind::IsCosmic => {
                let clauses: Vec<Expr> = vec![
                    string_cond("run_config").contains("cosmic"),
                    float_cond("beam_current").lt(Float64::one()),
                    int_cond("event_count").gt(5000),
                ];
                proof {
                    lemma_formulas_of(clauses@, 3);
                    assert(formulas_of(clauses@, 3) == seq![clauses@[0]@, clauses@[1]@, clauses@[2]@]);
                }
                all(clauses)
            },
            AliasKind::IsEmptyTarget => string_cond("target_type").eq("EMPTY & Ready"),
            AliasKind::IsAmorphRadiator => float_cond("polarization_angle").lt(Float64::zero()),
            AliasKind::IsCoherentBeam => float_cond("polarization_angle").geq(Float64::zero()),
            AliasKind::IsFieldOff => float_cond("solenoid_current").lt(Float64::hundred()),
            AliasKind::IsFieldOn => float_cond("solenoid_current").geq(Float64::hundred()),
            AliasKind::StatusCalibration => int_cond("status").eq(3),
            AliasKind::StatusApprovedLong => int_cond("status").eq(2),
            AliasKind::StatusApproved => int_cond("status").eq(1),
            AliasKind::StatusUnchecked => int_cond("status").eq(-1),
            AliasKind::StatusReject => int_cond("status").eq(0),
        }
    }
}

fn beam_production_of(first: Expr, min_events: i64) -> (r: Expr)
    ensures
        r@ == beam_production(first@, min_events),
{
    let clauses: Vec<Expr> = vec![
        first,
        float_cond("beam_current").gt(Float64::two()),
        int_cond("event_count").gt(min_events),
        float_cond("solenoid_current").gt(Float64::hundred()),
        string_cond("collimator_diameter").neq("Blocking"),
    ];
    proof {
        lemma_formulas_of(clauses@, 5);
        assert(formulas_of(clauses@, 5) == seq![
            clauses@[0]@,
            clauses@[1]@,
            clauses@[2]@,
            clauses@[3]@,
            clauses@[4]@,
        ]);
    }
    all(clauses)
}

/// A named expression.
#[derive(Debug, Clone, Copy)]
pub struct ConditionAlias {
    /// The name under which the alias is looked up.
    pub name: &'static str,
    /// A short description.
    pub comment: &'static str,
    pub kind: AliasKind,
}

impl ConditionAlias {
    /// Builds the expression of the alias.
    pub fn expression(&self) -> (r: Expr)
        ensures
            r@ == self.kind.formula(),
    {
        self.kind.expression()
    }
}

/// The built-in kinds, in the order of the registry.
pub open spec fn default_kinds() -> Seq<AliasKind> {
    seq![
        AliasKind::IsProduction,
        AliasKind::Is2018Production,
        AliasKind::IsPrimexProduction,
        AliasKind::IsDircProduction,
        AliasKind::IsSrcProduction,
        AliasKind::IsCppProduction,
        AliasKind::IsProductionLong,
        AliasKind::IsCosmic,
        AliasKind::IsEmptyTarget,
        AliasKind::IsAmorphRadiator,
        AliasKind::IsCoherentBeam,
        AliasKind::IsFieldOff,
        AliasKind::IsFieldOn,
        AliasKind::StatusCalibration,
        AliasKind::StatusApprovedLong,
        AliasKind::StatusApproved,
        AliasKind::StatusUnchecked,
        AliasKind::StatusReject,
    ]
}

/// The registry of built-in aliases.
pub fn default_aliases() -> (list: Vec<ConditionAlias>)
    ensures
        list@.len() == default_kinds().len(),
        forall|i: int|
            0 <= i < list@.len() ==> (#[trigger] list@[i]).kind == default_kinds()[i] && list@[i].name@
                == default_kinds()[i].name_text() && list@[i].comment@ == default_kinds()[i].comment_text(),
{
    let kinds: Vec<AliasKind> = vec![
        AliasKind::IsProduction,
        AliasKind::Is2018Production,
        AliasKind::IsPrimexProduction,
        AliasKind::IsDircProduction,
        AliasKind::IsSrcProduction,
        AliasKind::IsCppProduction,
        AliasKind::IsProductionLong,
        AliasKind::IsCosmic,
        AliasKind::IsEmptyTarget,
        AliasKind::IsAmorphRadiator,
        AliasKind::IsCoherentBeam,
        AliasKind::IsFieldOff,
        AliasKind::IsFieldOn,
        AliasKind::StatusCalibration,
        AliasKind::StatusApprovedLong,
        AliasKind::StatusApproved,
        AliasKind::StatusUnchecked,
        AliasKind::StatusReject,
    ];
    assert(kinds@ == default_kinds());
    let mut list: Vec<ConditionAlias> = Vec::new();
    let mut i: usize = 0;
    while i < kinds.len()
        invariant
            i <= kinds.len(),
            kinds@ == default_kinds(),
            list@.len() == i,
            forall|k: int|
                0 <= k < i ==> (#[trigger] list@[k]).kind == kinds@[k] && list@[k].name@
                    == kinds@[k].name_text() && list@[k].comment@ == kinds@[k].comment_text(),
        decreases kinds.len() - i,
    {
        let kind = kinds[i];
        list.push(ConditionAlias { name: kind.name(), comment: kind.comment(), kind });
        i += 1;
    }
    list
}

/// The expression of the alias called `name`, if there is one.
pub fn alias(name: &str) -> (r: Option<Expr>)
    ensures
        match AliasKind::named(name@) {
            Some(kind) => r matches Some(e) && e@ == kind.formula(),
            None => r is None,
        },
{
    if same_text(name, "is_production") {
        Some(AliasKind::IsProduction.expression())
    } else if same_text(name, "is_2018production") {
        Some(AliasKind::Is2018Production.expression())
    } else if same_text(name, "is_primex_production") {
        Some(AliasKind::IsPrimexProduction.expression())
    } else if same_text(name, "is_dirc_production") {
        Some(AliasKind::IsDircProduction.expression())
    } else if same_text(name, "is_src_production") {
        Some(AliasKind::IsSrcProduction.expression())
    } else if same_text(name, "is_cpp_production") {
        Some(AliasKind::IsCppProduction.expression())
    } else if same_text(name, "is_production_long") {
        Some(AliasKind::IsProductionLong.expression())
    } else if same_text(name, "is_cosmic") {
        Some(AliasKind::IsCosmic.expression())
    } else if same_text(name, "is_empty_target") {
        Some(AliasKind::IsEmptyTarget.expression())
    } else if same_text(name, "is_amorph_radiator") {
        Some(AliasKind::IsAmorphRadiator.expression())
    } else if same_text(name, "is_coherent_beam") {
        Some(AliasKind::IsCoherentBeam.expression())
    } else if same_text(name, "is_field_off") {
        Some(AliasKind::IsFieldOff.expression())
    } else if same_text(name, "is_field_on") {
        Some(AliasKind::IsFieldOn.expression())
    } else if same_text(name, "status_calibration") {
        Some(AliasKind::StatusCalibration.expression())
    } else if same_text(name, "status_approved_long") {
        Some(AliasKind::StatusApprovedLong.expression())
    } else if same_text(name, "status_approved") {
        Some(AliasKind::StatusApproved.expression())
    } else if same_text(name, "status_unchecked") {
        Some(AliasKind::StatusUnchecked.expression())
    } else if same_text(name, "status_reject") {
        Some(AliasKind::StatusReject.expression())
    } else {
        None
    }
}

} // verus!
