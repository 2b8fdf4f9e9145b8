use gluex::float::Float64;
use gluex::rcdb::aliases::{alias, default_aliases, AliasKind};
use gluex::rcdb::cond::{
    all, any, bool_cond, float_cond, format_time, int_cond, string_cond, time_cond, AliasInfo, Expr,
    IntoExprList, SqlValue,
};
use gluex::rcdb::context::{Context, RunSelection};
use gluex::rcdb::data::Value;
use gluex::rcdb::error::RCDBError;
use gluex::rcdb::models::{ConditionTypeMeta, ValueType};
use gluex::rcdb::query::{
    ensure_schema_version, plan_fetch, plan_fetch_runs, ConditionTypeRow, ConditionTypes, Plan, QueryPlan,
    SelectedColumn, SCHEMA_VERSION,
};
use gluex::rcdb::rows::{decode_row, decode_value, ConditionValues, Stored};
use gluex::timestamp::{parse_timestamp, ParseTimestampError};

fn info(name: &str, alias: &str, value_type: ValueType) -> AliasInfo {
    AliasInfo { name: name.to_string(), alias: alias.to_string(), value_type }
}

fn shown(params: &Vec<SqlValue>) -> Vec<String> {
    params
        .iter()
        .map(|p| match p {
            SqlValue::Integer(v) => format!("i:{}", v),
            SqlValue::Real(v) => format!("r:{}", f64::from_bits(v.to_bits())),
            SqlValue::Text(v) => format!("t:{}", v),
        })
        .collect()
}

fn compile(e: &Expr, table: &Vec<AliasInfo>) -> (Result<String, RCDBError>, Vec<String>) {
    let mut params = Vec::new();
    let r = e.to_sql(table, &mut params);
    (r, shown(&params))
}

fn sql(e: &Expr, table: &Vec<AliasInfo>) -> (String, Vec<String>) {
    let (r, params) = compile(e, table);
    (r.unwrap(), params)
}

fn double(x: f64) -> Float64 {
    Float64::from_bits(x.to_bits())
}

fn table() -> Vec<AliasInfo> {
    vec![
        info("x", "cond_0", ValueType::Int),
        info("status", "cond_1", ValueType::Int),
        info("run_type", "cond_2", ValueType::String),
        info("beam_current", "cond_3", ValueType::Float),
        info("is_valid", "cond_4", ValueType::Bool),
        info("started", "cond_5", ValueType::Time),
        info("notes", "cond_6", ValueType::Json),
    ]
}

#[test]
fn an_integer_comparison_binds_one_value() {
    let (text, params) = sql(&int_cond("x").eq(5), &table());
    assert_eq!(text, "cond_0.int_value = ?");
    assert_eq!(params, vec!["i:5"]);
}

#[test]
fn a_comparison_under_another_type_is_a_mismatch() {
    let against_string = vec![info("x", "cond_0", ValueType::String)];
    let (r, params) = compile(&int_cond("x").eq(5), &against_string);
    match r {
        Err(RCDBError::ConditionTypeMismatch { condition_name, expected, actual }) => {
            assert_eq!(condition_name, "x");
            assert_eq!(expected, ValueType::Int);
            assert_eq!(actual, ValueType::String);
        }
        other => panic!("unexpected: {:?}", other),
    }
    assert!(params.is_empty());
    let (r, _) = compile(&string_cond("notes").eq("a"), &table());
    assert!(matches!(
        r,
        Err(RCDBError::ConditionTypeMismatch { expected: ValueType::String, actual: ValueType::Json, .. })
    ));
}

#[test]
fn a_comparison_of_an_unknown_condition_is_not_found() {
    let (r, _) = compile(&int_cond("y").eq(5), &table());
    assert!(matches!(r, Err(RCDBError::ConditionTypeNotFound(name)) if name == "y"));
    let (r, _) = compile(&int_cond("x").eq(5), &Vec::new());
    assert!(matches!(r, Err(RCDBError::ConditionTypeNotFound(name)) if name == "x"));
}

#[test]
fn two_comparisons_of_one_condition_share_its_alias() {
    let e = any(vec![int_cond("status").eq(1), int_cond("status").eq(2)]);
    let only = vec![info("status", "cond_0", ValueType::Int)];
    let (text, params) = sql(&e, &only);
    assert_eq!(text, "(cond_0.int_value = ? OR cond_0.int_value = ?)");
    assert_eq!(params, vec!["i:1", "i:2"]);
}

#[test]
fn every_integer_operator() {
    let t = table();
    assert_eq!(sql(&int_cond("x").neq(-1), &t), ("cond_0.int_value != ?".to_string(), vec!["i:-1".to_string()]));
    assert_eq!(sql(&int_cond("x").gt(2), &t).0, "cond_0.int_value > ?");
    assert_eq!(sql(&int_cond("x").geq(2), &t).0, "cond_0.int_value >= ?");
    assert_eq!(sql(&int_cond("x").lt(2), &t).0, "cond_0.int_value < ?");
    assert_eq!(sql(&int_cond("x").leq(i64::MIN), &t), ("cond_0.int_value <= ?".to_string(), vec![format!("i:{}", i64::MIN)]));
}

#[test]
fn every_floating_point_operator() {
    let t = table();
    assert_eq!(sql(&float_cond("beam_current").eq(double(2.5)), &t), ("cond_3.float_value = ?".to_string(), vec!["r:2.5".to_string()]));
    assert_eq!(sql(&float_cond("beam_current").gt(double(-0.125)), &t), ("cond_3.float_value > ?".to_string(), vec!["r:-0.125".to_string()]));
    assert_eq!(sql(&float_cond("beam_current").geq(double(1e300)), &t).0, "cond_3.float_value >= ?");
    assert_eq!(sql(&float_cond("beam_current").lt(double(0.0)), &t).0, "cond_3.float_value < ?");
    assert_eq!(sql(&float_cond("beam_current").leq(double(1.0)), &t).0, "cond_3.float_value <= ?");
}

#[test]
fn every_string_operator() {
    let t = table();
    assert_eq!(sql(&string_cond("run_type").eq("a b"), &t), ("cond_2.text_value = ?".to_string(), vec!["t:a b".to_string()]));
    assert_eq!(sql(&string_cond("run_type").neq("x"), &t), ("cond_2.text_value != ?".to_string(), vec!["t:x".to_string()]));
    assert_eq!(
        sql(&string_cond("run_type").isin(vec!["a".to_string(), "b".to_string(), "c".to_string()]), &t),
        ("cond_2.text_value IN (?, ?, ?)".to_string(), vec!["t:a".to_string(), "t:b".to_string(), "t:c".to_string()])
    );
    assert_eq!(
        sql(&string_cond("run_type").isin(vec!["only".to_string()]), &t),
        ("cond_2.text_value IN (?)".to_string(), vec!["t:only".to_string()])
    );
    assert_eq!(sql(&string_cond("run_type").isin(Vec::new()), &t), ("1 = 0".to_string(), Vec::<String>::new()));
    assert_eq!(
        sql(&string_cond("run_type").contains("cosmic"), &t),
        ("INSTR(cond_2.text_value, ?) > 0".to_string(), vec!["t:cosmic".to_string()])
    );
}

#[test]
fn every_boolean_operator() {
    let t = table();
    assert_eq!(sql(&bool_cond("is_valid").is_true(), &t), ("cond_4.bool_value = 1".to_string(), Vec::<String>::new()));
    assert_eq!(sql(&bool_cond("is_valid").is_false(), &t), ("cond_4.bool_value = 0".to_string(), Vec::<String>::new()));
    assert_eq!(sql(&bool_cond("is_valid").is_present(), &t), ("cond_4.bool_value IS NOT NULL".to_string(), Vec::<String>::new()));
}

#[test]
fn every_time_operator() {
    let t = table();
    let at = parse_timestamp("2015-12-08 15:47:20").unwrap();
    assert_eq!(format_time(&at), "2015-12-08 15:47:20");
    assert_eq!(
        sql(&time_cond("started").eq(at), &t),
        ("cond_5.time_value = ?".to_string(), vec!["t:2015-12-08 15:47:20".to_string()])
    );
    assert_eq!(sql(&time_cond("started").gt(at), &t).0, "cond_5.time_value > ?");
    assert_eq!(sql(&time_cond("started").geq(at), &t).0, "cond_5.time_value >= ?");
    assert_eq!(sql(&time_cond("started").lt(at), &t).0, "cond_5.time_value < ?");
    assert_eq!(sql(&time_cond("started").lte(at), &t).0, "cond_5.time_value <= ?");
}

#[test]
fn groups_and_negation() {
    let t = table();
    assert_eq!(sql(&all(Vec::new()), &t), ("1 = 1".to_string(), Vec::<String>::new()));
    assert_eq!(sql(&any(Vec::new()), &t).0, "1 = 1");
    assert_eq!(sql(&all(vec![int_cond("x").eq(1)]), &t).0, "cond_0.int_value = ?");
    let e = all(vec![int_cond("x").gt(1), string_cond("run_type").eq("a"), bool_cond("is_valid").is_true()]);
    let (text, params) = sql(&e, &t);
    assert_eq!(text, "(cond_0.int_value > ? AND cond_2.text_value = ? AND cond_4.bool_value = 1)");
    assert_eq!(params, vec!["i:1", "t:a"]);
    let nested = any(vec![e.clone(), int_cond("status").eq(3).not()]);
    let (text, params) = sql(&nested, &t);
    assert_eq!(
        text,
        "((cond_0.int_value > ? AND cond_2.text_value = ? AND cond_4.bool_value = 1) OR NOT (cond_1.int_value = ?))"
    );
    assert_eq!(params, vec!["i:1", "t:a", "i:3"]);
    assert_eq!(sql(&all(Vec::new()).not(), &t).0, "NOT (1 = 1)");
    assert_eq!(sql(&all(vec![all(Vec::new()), int_cond("x").eq(1)]), &t).0, "(1 = 1 AND cond_0.int_value = ?)");
}

#[test]
fn the_first_fault_of_a_group_is_reported() {
    let t = table();
    let e = all(vec![int_cond("x").eq(1), int_cond("missing").eq(2), string_cond("x").eq("a")]);
    let (r, params) = compile(&e, &t);
    assert!(matches!(r, Err(RCDBError::ConditionTypeNotFound(name)) if name == "missing"));
    assert_eq!(params, vec!["i:1"]);
    let e = all(vec![int_cond("x").eq(1), string_cond("x").eq("a"), int_cond("missing").eq(2)]);
    assert!(matches!(compile(&e, &t).0, Err(RCDBError::ConditionTypeMismatch { .. })));
}

#[test]
fn the_last_entry_of_a_name_is_the_alias() {
    let t = vec![info("x", "cond_0", ValueType::String), info("x", "cond_7", ValueType::Int)];
    assert_eq!(sql(&int_cond("x").eq(1), &t).0, "cond_7.int_value = ?");
}

#[test]
fn referenced_conditions_in_order() {
    let e = all(vec![
        int_cond("a").eq(1),
        any(vec![string_cond("b").eq("x"), int_cond("a").eq(2).not()]),
        all(Vec::new()),
        bool_cond("c").is_true(),
    ]);
    let mut out = vec!["first".to_string()];
    e.referenced_conditions(&mut out);
    assert_eq!(out, vec!["first", "a", "b", "a", "c"]);
}

#[test]
fn lists_of_expressions() {
    assert_eq!(int_cond("x").eq(1).into_list().len(), 1);
    assert_eq!(vec![int_cond("x").eq(1), int_cond("y").eq(1)].into_list().len(), 2);
}

#[test]
fn the_production_alias() {
    let e = alias("is_production").unwrap();
    let t = vec![
        info("run_type", "cond_0", ValueType::String),
        info("beam_current", "cond_1", ValueType::Float),
        info("event_count", "cond_2", ValueType::Int),
        info("solenoid_current", "cond_3", ValueType::Float),
        info("collimator_diameter", "cond_4", ValueType::String),
    ];
    let (text, params) = sql(&e, &t);
    assert_eq!(
        text,
        "(cond_0.text_value IN (?, ?, ?) AND cond_1.float_value > ? AND cond_2.int_value > ? AND \
         cond_3.float_value > ? AND cond_4.text_value != ?)"
    );
    assert_eq!(
        params,
        vec!["t:hd_all.tsg", "t:hd_all.tsg_ps", "t:hd_all.bcal_fcal_st.tsg", "r:2", "i:500000", "r:100", "t:Blocking"]
    );
}

fn alias_sql(name: &str) -> (String, Vec<String>) {
    let t = vec![
        info("daq_run", "d", ValueType::String),
        info("beam_current", "b", ValueType::Float),
        info("event_count", "e", ValueType::Int),
        info("solenoid_current", "s", ValueType::Float),
        info("collimator_diameter", "c", ValueType::String),
        info("run_config", "r", ValueType::String),
        info("target_type", "t", ValueType::String),
        info("polarization_angle", "p", ValueType::Float),
        info("status", "st", ValueType::Int),
    ];
    sql(&alias(name).unwrap(), &t)
}

#[test]
fn every_other_alias() {
    let production = "(d.text_value = ? AND b.float_value > ? AND e.int_value > ? AND s.float_value > ? AND c.text_value != ?)";
    assert_eq!(alias_sql("is_2018production"), (production.to_string(), vec!["t:PHYSICS".to_string(), "r:2".to_string(), "i:10000000".to_string(), "r:100".to_string(), "t:Blocking".to_string()]));
    assert_eq!(alias_sql("is_dirc_production").1, vec!["t:PHYSICS_DIRC", "r:2", "i:5000000", "r:100", "t:Blocking"]);
    assert_eq!(alias_sql("is_src_production").1, vec!["t:PHYSICS_SRC", "r:2", "i:5000000", "r:100", "t:Blocking"]);
    assert_eq!(alias_sql("is_cpp_production").1, vec!["t:PHYSICS_CPP", "r:2", "i:5000000", "r:100", "t:Blocking"]);
    assert_eq!(alias_sql("is_production_long").1, vec!["t:PHYSICS_raw", "r:2", "i:5000000", "r:100", "t:Blocking"]);
    assert_eq!(alias_sql("is_production_long").0, production);
    assert_eq!(
        alias_sql("is_primex_production"),
        ("(d.text_value = ? AND e.int_value > ? AND c.text_value != ?)".to_string(), vec!["t:PHYSICS_PRIMEX".to_string(), "i:1000000".to_string(), "t:Blocking".to_string()])
    );
    assert_eq!(
        alias_sql("is_cosmic"),
        ("(INSTR(r.text_value, ?) > 0 AND b.float_value < ? AND e.int_value > ?)".to_string(), vec!["t:cosmic".to_string(), "r:1".to_string(), "i:5000".to_string()])
    );
    assert_eq!(alias_sql("is_empty_target"), ("t.text_value = ?".to_string(), vec!["t:EMPTY & Ready".to_string()]));
    assert_eq!(alias_sql("is_amorph_radiator"), ("p.float_value < ?".to_string(), vec!["r:0".to_string()]));
    assert_eq!(alias_sql("is_coherent_beam"), ("p.float_value >= ?".to_string(), vec!["r:0".to_string()]));
    assert_eq!(alias_sql("is_field_off"), ("s.float_value < ?".to_string(), vec!["r:100".to_string()]));
    assert_eq!(alias_sql("is_field_on"), ("s.float_value >= ?".to_string(), vec!["r:100".to_string()]));
    assert_eq!(alias_sql("status_calibration"), ("st.int_value = ?".to_string(), vec!["i:3".to_string()]));
    assert_eq!(alias_sql("status_approved_long").1, vec!["i:2"]);
    assert_eq!(alias_sql("status_approved").1, vec!["i:1"]);
    assert_eq!(alias_sql("status_unchecked").1, vec!["i:-1"]);
    assert_eq!(alias_sql("status_reject").1, vec!["i:0"]);
    assert!(alias("is_nothing").is_none());
    assert!(alias("").is_none());
    assert!(alias("IS_PRODUCTION").is_none());
}

#[test]
fn the_registry_of_aliases() {
    let list = default_aliases();
    assert_eq!(list.len(), 18);
    assert_eq!(list[0].name, "is_production");
    assert_eq!(list[0].comment, "Is production run");
    assert_eq!(list[17].name, "status_reject");
    assert_eq!(list[17].comment, "Run status = reject");
    for entry in &list {
        assert!(alias(entry.name).is_some());
        assert_eq!(entry.kind.name(), entry.name);
    }
    assert_eq!(AliasKind::IsFieldOff.comment(), " Field Off");
    let t = vec![info("status", "cond_0", ValueType::Int)];
    assert_eq!(sql(&list[13].expression(), &t).1, vec!["i:3"]);
    assert_eq!(Float64::zero().to_bits(), 0f64.to_bits());
    assert_eq!(Float64::one().to_bits(), 1f64.to_bits());
    assert_eq!(Float64::two().to_bits(), 2f64.to_bits());
    assert_eq!(Float64::hundred().to_bits(), 100f64.to_bits());
}

fn types() -> ConditionTypes {
    let row = |id: i64, name: &str, value_type: &str| ConditionTypeRow {
        id,
        name: name.to_string(),
        value_type: value_type.to_string(),
        created: Some("2015-01-01".to_string()),
        description: None,
    };
    ConditionTypes::load(vec![
        row(1, "event_count", "int"),
        row(2, "run_type", "string"),
        row(3, "beam_current", "float"),
        row(4, "is_valid_run_end", "bool"),
        row(5, "run_start_time", "time"),
        row(6, "daq_setup", "json"),
        row(7, "raw", "blob"),
    ])
    .unwrap()
}

fn query(plan: Result<Plan, RCDBError>) -> QueryPlan {
    match plan.unwrap() {
        Plan::Query(q) => q,
        Plan::Empty => panic!("expected a statement"),
    }
}

fn names(list: &[&str]) -> Vec<String> {
    list.iter().map(|s| s.to_string()).collect()
}

fn columns(q: &QueryPlan) -> Vec<(String, ValueType)> {
    q.columns.iter().map(|c| (c.name.clone(), c.value_type)).collect()
}

#[test]
fn condition_types_are_loaded() {
    let t = types();
    assert_eq!(t.len(), 7);
    let meta = t.get("event_count").unwrap();
    assert_eq!(meta.id(), 1);
    assert_eq!(meta.name(), "event_count");
    assert_eq!(meta.value_type(), ValueType::Int);
    assert_eq!(meta.created(), "2015-01-01");
    assert_eq!(meta.description(), "");
    assert_eq!(t.get("raw").unwrap().value_type(), ValueType::Blob);
    assert!(t.get("missing").is_none());
    assert!(ConditionTypes::new().get("event_count").is_none());
}

#[test]
fn a_later_condition_type_replaces_an_earlier_one() {
    let row = |id: i64, value_type: &str| ConditionTypeRow {
        id,
        name: "x".to_string(),
        value_type: value_type.to_string(),
        created: None,
        description: Some("d".to_string()),
    };
    let t = ConditionTypes::load(vec![row(1, "int"), row(2, "string")]).unwrap();
    assert_eq!(t.get("x").unwrap().id(), 2);
    assert_eq!(t.get("x").unwrap().created(), "");
    assert_eq!(t.get("x").unwrap().description(), "d");
}

#[test]
fn an_unknown_value_type_is_reported() {
    let row = |value_type: &str| ConditionTypeRow {
        id: 1,
        name: "x".to_string(),
        value_type: value_type.to_string(),
        created: None,
        description: None,
    };
    assert!(matches!(
        ConditionTypes::load(vec![row("int"), row("decimal"), row("complex")]),
        Err(RCDBError::UnknownValueType(t)) if t == "decimal"
    ));
}

#[test]
fn a_filtered_fetch_over_a_range_of_runs() {
    let context = Context::default().with_run_range(1, 10).filter(string_cond("run_type").eq("hd_all.tsg"));
    let q = query(plan_fetch(&names(&["event_count"]), &context, &types()));
    assert_eq!(
        q.sql,
        "SELECT runs.number, cond_0.int_value FROM runs \
         LEFT JOIN conditions AS cond_0 ON cond_0.run_number = runs.number AND cond_0.condition_type_id = 1 \
         LEFT JOIN conditions AS cond_1 ON cond_1.run_number = runs.number AND cond_1.condition_type_id = 2  \
          WHERE runs.number BETWEEN ? AND ? AND cond_1.text_value = ? ORDER BY runs.number"
    );
    assert_eq!(shown(&q.params), vec!["i:1", "i:10", "t:hd_all.tsg"]);
    assert_eq!(columns(&q), vec![("event_count".to_string(), ValueType::Int)]);
}

#[test]
fn a_fetch_of_every_run() {
    let q = query(plan_fetch(&names(&["run_start_time", "beam_current"]), &Context::default(), &types()));
    assert_eq!(
        q.sql,
        "SELECT runs.number, cond_0.time_value, cond_1.float_value FROM runs \
         LEFT JOIN conditions AS cond_0 ON cond_0.run_number = runs.number AND cond_0.condition_type_id = 5 \
         LEFT JOIN conditions AS cond_1 ON cond_1.run_number = runs.number AND cond_1.condition_type_id = 3  \
          ORDER BY runs.number"
    );
    assert!(q.params.is_empty());
    assert_eq!(
        columns(&q),
        vec![("run_start_time".to_string(), ValueType::Time), ("beam_current".to_string(), ValueType::Float)]
    );
}

#[test]
fn a_fetch_of_listed_runs() {
    let context = Context::default().with_runs(vec![2, 3, 4]);
    let q = query(plan_fetch(&names(&["is_valid_run_end"]), &context, &types()));
    assert_eq!(
        q.sql,
        "SELECT runs.number, cond_0.bool_value FROM runs \
         LEFT JOIN conditions AS cond_0 ON cond_0.run_number = runs.number AND cond_0.condition_type_id = 4  \
          WHERE runs.number IN (?, ?, ?) ORDER BY runs.number"
    );
    assert_eq!(shown(&q.params), vec!["i:2", "i:3", "i:4"]);
    let one = query(plan_fetch(&names(&["event_count"]), &Context::default().with_run(2), &types()));
    assert!(one.sql.ends_with(" WHERE runs.number IN (?) ORDER BY runs.number"));
    assert_eq!(shown(&one.params), vec!["i:2"]);
}

#[test]
fn names_asked_twice_are_joined_once() {
    let context = Context::default()
        .filter(int_cond("event_count").gt(5))
        .filter(vec![string_cond("run_type").eq("a"), int_cond("event_count").lt(9)]);
    let q = query(plan_fetch(&names(&["run_type", "event_count", "run_type"]), &context, &types()));
    assert_eq!(
        q.sql,
        "SELECT runs.number, cond_0.text_value, cond_1.int_value FROM runs \
         LEFT JOIN conditions AS cond_0 ON cond_0.run_number = runs.number AND cond_0.condition_type_id = 2 \
         LEFT JOIN conditions AS cond_1 ON cond_1.run_number = runs.number AND cond_1.condition_type_id = 1  \
          WHERE cond_1.int_value > ? AND (cond_0.text_value = ? AND cond_1.int_value < ?) ORDER BY runs.number"
    );
    assert_eq!(shown(&q.params), vec!["i:5", "t:a", "i:9"]);
    assert_eq!(columns(&q).len(), 2);
}

#[test]
fn filters_that_always_hold_add_no_clause() {
    let context = Context::default().filter(Vec::<Expr>::new()).filter(all(Vec::new()));
    let q = query(plan_fetch(&names(&["event_count"]), &context, &types()));
    assert!(q.sql.ends_with("condition_type_id = 1  ORDER BY runs.number"));
    assert!(!q.sql.contains("WHERE"));
}

#[test]
fn a_fetch_of_no_condition_is_refused() {
    assert!(matches!(
        plan_fetch(&Vec::new(), &Context::default(), &types()),
        Err(RCDBError::EmptyConditionList)
    ));
    assert!(matches!(
        plan_fetch(&Vec::new(), &Context::default().with_runs(Vec::new()), &types()),
        Err(RCDBError::EmptyConditionList)
    ));
}

#[test]
fn an_empty_list_of_runs_asks_nothing() {
    let context = Context::default().with_runs(Vec::new());
    assert!(matches!(plan_fetch(&names(&["event_count"]), &context, &types()), Ok(Plan::Empty)));
    assert!(matches!(plan_fetch(&names(&["no_such_condition"]), &context, &types()), Ok(Plan::Empty)));
    assert!(matches!(plan_fetch_runs(&context, &types()), Ok(Plan::Empty)));
    let filtered = context.filter(int_cond("no_such_condition").eq(1));
    assert!(matches!(plan_fetch_runs(&filtered, &types()), Ok(Plan::Empty)));
}

#[test]
fn faults_of_a_fetch() {
    assert!(matches!(
        plan_fetch(&names(&["event_count", "nope"]), &Context::default(), &types()),
        Err(RCDBError::ConditionTypeNotFound(n)) if n == "nope"
    ));
    let context = Context::default().filter(int_cond("other").eq(1));
    assert!(matches!(
        plan_fetch(&names(&["event_count"]), &context, &types()),
        Err(RCDBError::ConditionTypeNotFound(n)) if n == "other"
    ));
    let context = Context::default().filter(string_cond("event_count").eq("1"));
    assert!(matches!(
        plan_fetch(&names(&["event_count"]), &context, &types()),
        Err(RCDBError::ConditionTypeMismatch { expected: ValueType::String, actual: ValueType::Int, .. })
    ));
    assert!(matches!(
        plan_fetch_runs(&context, &types()),
        Err(RCDBError::ConditionTypeMismatch { .. })
    ));
}

#[test]
fn a_listing_of_runs() {
    let context = Context::default().with_run_range(5, 7).filter(alias("status_approved").unwrap());
    let row = ConditionTypeRow {
        id: 40,
        name: "status".to_string(),
        value_type: "int".to_string(),
        created: None,
        description: None,
    };
    let t = ConditionTypes::load(vec![row]).unwrap();
    let q = query(plan_fetch_runs(&context, &t));
    assert_eq!(
        q.sql,
        "SELECT DISTINCT runs.number FROM runs \
         LEFT JOIN conditions AS cond_0 ON cond_0.run_number = runs.number AND cond_0.condition_type_id = 40  \
          WHERE runs.number BETWEEN ? AND ? AND cond_0.int_value = ? ORDER BY runs.number"
    );
    assert_eq!(shown(&q.params), vec!["i:5", "i:7", "i:1"]);
    assert!(q.columns.is_empty());
    let every = query(plan_fetch_runs(&Context::default(), &t));
    assert_eq!(every.sql, "SELECT DISTINCT runs.number FROM runs  ORDER BY runs.number");
}

#[test]
fn contexts_of_queries() {
    let c = Context::default();
    assert!(matches!(c.selection(), RunSelection::All));
    assert!(c.filters().is_empty());
    assert!(c.runs().is_none());
    let c = c.with_run(7);
    assert_eq!(c.runs().unwrap(), &vec![7]);
    let c = c.with_runs(vec![1, 2]);
    assert_eq!(c.runs().unwrap(), &vec![1, 2]);
    let c = c.with_run_range(3, 9);
    assert!(matches!(c.selection(), RunSelection::Range { start: 3, end: 9 }));
    assert!(c.runs().is_none());
    let c = c.filter(int_cond("a").eq(1)).filter(vec![int_cond("b").eq(1), int_cond("c").eq(1)]);
    assert_eq!(c.filters().len(), 2);
}

fn selected(name: &str, value_type: ValueType) -> SelectedColumn {
    SelectedColumn { name: name.to_string(), value_type }
}

#[test]
fn stored_values_are_decoded_by_type() {
    let text = |s: &str| Stored::Text(s.to_string());
    let v = decode_value(&selected("n", ValueType::Int), Stored::Integer(2), 1).unwrap().unwrap();
    assert_eq!(v.value_type(), ValueType::Int);
    assert_eq!(v.as_int(), Some(2));
    assert_eq!(v.as_bool(), None);
    let v = decode_value(&selected("b", ValueType::Bool), Stored::Integer(0), 1).unwrap().unwrap();
    assert_eq!(v.as_bool(), Some(false));
    let v = decode_value(&selected("b", ValueType::Bool), Stored::Integer(-3), 1).unwrap().unwrap();
    assert_eq!(v.as_bool(), Some(true));
    assert_eq!(v.value_type(), ValueType::Bool);
    let v = decode_value(&selected("f", ValueType::Float), Stored::Real(double(2.5)), 1).unwrap().unwrap();
    assert_eq!(v.as_float().map(|x| f64::from_bits(x.to_bits())), Some(2.5));
    assert_eq!(v.value_type(), ValueType::Float);
    for t in [ValueType::String, ValueType::Json, ValueType::Blob] {
        let v = decode_value(&selected("s", t), text("{}"), 1).unwrap().unwrap();
        assert_eq!(v.value_type(), t);
        assert_eq!(v.as_string(), Some("{}"));
        assert_eq!(v.as_int(), None);
    }
    let v = decode_value(&selected("t", ValueType::Time), text("2015-12-08 15:47:20"), 2).unwrap().unwrap();
    assert_eq!(v.value_type(), ValueType::Time);
    assert_eq!(v.as_time(), Some(parse_timestamp("2015-12-08 15:47:20").unwrap()));
    assert_eq!(v.as_string(), None);
}

#[test]
fn null_is_no_value() {
    for t in [ValueType::String, ValueType::Int, ValueType::Bool, ValueType::Float, ValueType::Json, ValueType::Blob, ValueType::Time] {
        assert!(decode_value(&selected("x", t), Stored::Null, 1).unwrap().is_none());
    }
}

#[test]
fn values_that_do_not_decode() {
    assert!(matches!(
        decode_value(&selected("t", ValueType::Time), Stored::Text("soon".to_string()), 1),
        Err(RCDBError::ParseTimestampError(ParseTimestampError::NoDigits(t))) if t == "soon"
    ));
    assert!(matches!(
        decode_value(&selected("n", ValueType::Int), Stored::Text("5".to_string()), 12),
        Err(RCDBError::UnexpectedStorage { condition_name, run_number: 12 }) if condition_name == "n"
    ));
    assert!(decode_value(&selected("n", ValueType::Int), Stored::Real(double(1.0)), 1).is_err());
    assert!(decode_value(&selected("f", ValueType::Float), Stored::Integer(1), 1).is_err());
    assert!(decode_value(&selected("f", ValueType::Float), Stored::Text("1".to_string()), 1).is_err());
    assert!(decode_value(&selected("s", ValueType::String), Stored::Integer(1), 1).is_err());
    assert!(decode_value(&selected("t", ValueType::Time), Stored::Integer(1), 1).is_err());
    assert!(decode_value(&selected("b", ValueType::Bool), Stored::Real(double(1.0)), 1).is_err());
    assert!(decode_value(&selected("b", ValueType::Bool), Stored::Text("true".to_string()), 1).is_err());
}

#[test]
fn rows_are_decoded_into_the_values_of_a_run() {
    let cols = vec![
        selected("event_count", ValueType::Int),
        selected("run_type", ValueType::String),
        selected("run_start_time", ValueType::Time),
        selected("beam_current", ValueType::Float),
    ];
    let mut values = ConditionValues::new();
    assert!(values.is_empty());
    decode_row(
        &mut values,
        &cols,
        vec![Stored::Integer(1686), Stored::Null, Stored::Text("2015-12-08 15:47:20".to_string())],
        3,
    )
    .unwrap();
    assert!(!values.is_empty());
    assert_eq!(values.get("event_count").unwrap().as_int(), Some(1686));
    assert!(values.get("run_type").is_none());
    assert!(!values.contains_key("run_type"));
    assert!(values.contains_key("run_start_time"));
    assert!(values.get("beam_current").is_none());
    decode_row(&mut values, &cols, vec![Stored::Integer(7), Stored::Text("x".to_string())], 3).unwrap();
    assert_eq!(values.get("event_count").unwrap().as_int(), Some(7));
    assert_eq!(values.get("run_type").unwrap().as_string(), Some("x"));
    assert!(values.contains_key("run_start_time"));
    let r = decode_row(
        &mut values,
        &cols,
        vec![Stored::Integer(8), Stored::Integer(9), Stored::Text("soon".to_string())],
        3,
    );
    assert!(matches!(r, Err(RCDBError::UnexpectedStorage { condition_name, .. }) if condition_name == "run_type"));
}

#[test]
fn values_by_name() {
    let mut values = ConditionValues::new();
    values.insert("a".to_string(), Value::integer(1));
    values.insert("b".to_string(), Value::bool(true));
    values.insert("a".to_string(), Value::text(ValueType::Json, Some("{}".to_string())));
    assert_eq!(values.get("a").unwrap().as_string(), Some("{}"));
    assert_eq!(values.get("a").unwrap().value_type(), ValueType::Json);
    assert_eq!(values.get("b").unwrap().as_bool(), Some(true));
    assert!(values.get("c").is_none());
    let none = Value::text(ValueType::String, None);
    assert_eq!(none.as_string(), None);
    assert_eq!(none.value_type(), ValueType::String);
    let t = parse_timestamp("2020").unwrap();
    assert_eq!(Value::time(t).as_time(), Some(t));
    assert_eq!(Value::float(double(0.5)).as_float().unwrap().to_bits(), 0.5f64.to_bits());
}

#[test]
fn value_types_by_identifier() {
    let all = [
        (ValueType::String, "string", "text_value", true),
        (ValueType::Int, "int", "int_value", false),
        (ValueType::Bool, "bool", "bool_value", false),
        (ValueType::Float, "float", "float_value", false),
        (ValueType::Json, "json", "text_value", true),
        (ValueType::Blob, "blob", "text_value", true),
        (ValueType::Time, "time", "time_value", false),
    ];
    for (t, identifier, column, textual) in all {
        assert_eq!(t.as_str(), identifier);
        assert_eq!(ValueType::from_identifier(identifier), Some(t));
        assert_eq!(t.column_name(), column);
        assert_eq!(t.is_textual(), textual);
    }
    assert_eq!(ValueType::from_identifier("double"), None);
    assert_eq!(ValueType::from_identifier("Int"), None);
    assert_eq!(ValueType::from_identifier(""), None);
    assert_eq!(ValueType::default(), ValueType::String);
}

#[test]
fn condition_type_records() {
    let meta = ConditionTypeMeta {
        id: 3,
        name: "n".to_string(),
        value_type: ValueType::Time,
        created: "2015".to_string(),
        description: "d".to_string(),
    };
    assert_eq!((meta.id(), meta.name(), meta.value_type()), (3, "n", ValueType::Time));
    assert_eq!(meta.created(), "2015");
    assert_eq!(meta.description(), "d");
}

#[test]
fn the_schema_version_must_be_two() {
    assert_eq!(SCHEMA_VERSION, 2);
    assert!(ensure_schema_version(&vec![2]).is_ok());
    assert!(ensure_schema_version(&vec![1, 2, 3]).is_ok());
    assert!(matches!(ensure_schema_version(&vec![1, 3]), Err(RCDBError::MissingSchemaVersion)));
    assert!(matches!(ensure_schema_version(&Vec::new()), Err(RCDBError::MissingSchemaVersion)));
}
