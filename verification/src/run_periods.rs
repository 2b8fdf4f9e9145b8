//! The run periods of the experiment and what is known of each.

use vstd::prelude::*;
use crate::ccdb::context::run_span;
use crate::numbers::{is_word, word_at};
use crate::text::{chars_of, string_of};
use crate::timestamp::{Civil, Timestamp};
use crate::RunNumber;

verus! {

/// The version number of a reconstruction pass.
pub type RestVersion = usize;

/// A period of data taking.
#[derive(Copy, Clone, Debug, PartialEq, Eq, Structural, Hash, PartialOrd, Ord)]
pub enum RunPeriod {
    /// Commissioning, 10 GeV
    RP2014_10,
    /// Cosmics
    RP2015_01,
    /// Commissioning, 5.5 GeV
    RP2015_03,
    /// Cosmics
    RP2015_06,
    /// Commissioning, 12 GeV, Cosmics
    RP2015_12,
    /// Commisioning, 12 GeV
    RP2016_02,
    /// 12 GeV
    RP2016_10,
    /// GlueX Phase I, 12 GeV
    RP2017_01,
    /// GlueX Phase I, 12 GeV
    RP2018_01,
    /// GlueX Phase I, 12 GeV / PrimEx Commissioning (Low Energy runs 51384-51457)
    RP2018_08,
    /// DIRC Commissioning/PrimEx
    RP2019_01,
    /// DIRC Commissioning/GlueX Phase II
    RP2019_11,
    /// PrimEx
    RP2021_08,
    /// SRC
    RP2021_11,
    /// CPP/NPP
    RP2022_05,
    /// PrimEx
    RP2022_08,
    /// GlueX Phase II
    RP2023_01,
    /// ECAL Commissioning/GlueX Phase II
    RP2025_01,
}

/// Why a run period could not be told.
#[derive(Debug, Clone)]
pub enum RunPeriodError {
    /// The run lies in no known run period.
    UnknownRunPeriodError(RunNumber),
    /// The text names no run period.
    RunPeriodParseError(String),
}

impl RunPeriod {
    /// The first run of the period.
    pub open spec fn first_run(self) -> RunNumber {
        match self {
            RunPeriod::RP2014_10 => 630,
            RunPeriod::RP2015_01 => 2440,
            RunPeriod::RP2015_03 => 2607,
            RunPeriod::RP2015_06 => 3386,
            RunPeriod::RP2015_12 => 3939,
            RunPeriod::RP2016_02 => 10000,
            RunPeriod::RP2016_10 => 20000,
            RunPeriod::RP2017_01 => 30000,
            RunPeriod::RP2018_01 => 40856,
            RunPeriod::RP2018_08 => 50685,
            RunPeriod::RP2019_01 => 60700,
            RunPeriod::RP2019_11 => 72761,
            RunPeriod::RP2021_08 => 81262,
            RunPeriod::RP2021_11 => 90033,
            RunPeriod::RP2022_05 => 100491,
            RunPeriod::RP2022_08 => 110469,
            RunPeriod::RP2023_01 => 120286,
            RunPeriod::RP2025_01 => 131593,
        }
    }

    /// The last run of the period.
    pub open spec fn last_run(self) -> RunNumber {
        match self {
            RunPeriod::RP2014_10 => 2439,
            RunPeriod::RP2015_01 => 2606,
            RunPeriod::RP2015_03 => 3385,
            RunPeriod::RP2015_06 => 3938,
            RunPeriod::RP2015_12 => 4807,
            RunPeriod::RP2016_02 => 12109,
            RunPeriod::RP2016_10 => 29999,
            RunPeriod::RP2017_01 => 49999,
            RunPeriod::RP2018_01 => 42550,
            RunPeriod::RP2018_08 => 51735,
            RunPeriod::RP2019_01 => 60833,
            RunPeriod::RP2019_11 => 73266,
            RunPeriod::RP2021_08 => 81704,
            RunPeriod::RP2021_11 => 90633,
            RunPeriod::RP2022_05 => 101622,
            RunPeriod::RP2022_08 => 112001,
            RunPeriod::RP2023_01 => 121207,
            RunPeriod::RP2025_01 => 133606,
        }
    }

    /// The short name of the period.
    pub open spec fn short_name_text(self) -> Seq<char> {
        match self {
            RunPeriod::RP2014_10 => "F14"@,
            RunPeriod::RP2015_01 => "S15a"@,
            RunPeriod::RP2015_03 => "S15b"@,
            RunPeriod::RP2015_06 => "F15"@,
            RunPeriod::RP2015_12 => "S16a"@,
            RunPeriod::RP2016_02 => "S16b"@,
            RunPeriod::RP2016_10 => "F16"@,
            RunPeriod::RP2017_01 => "S17"@,
            RunPeriod::RP2018_01 => "S18"@,
            RunPeriod::RP2018_08 => "F18"@,
            RunPeriod::RP2019_01 => "S19"@,
            RunPeriod::RP2019_11 => "S20"@,
            RunPeriod::RP2021_08 => "SRC"@,
            RunPeriod::RP2021_11 => "CPP/NPP"@,
            RunPeriod::RP2022_05 => "S22"@,
            RunPeriod::RP2022_08 => "F22"@,
            RunPeriod::RP2023_01 => "S23"@,
            RunPeriod::RP2025_01 => "S25"@,
        }
    }

    /// The period that the text names, whatever the case of its letters.
    pub open spec fn named(s: Seq<char>) -> Option<RunPeriod> {
        if is_word(s, "f14"@, "F14"@) {
            Some(RunPeriod::RP2014_10)
        } else if is_word(s, "s15a"@, "S15A"@) {
            Some(RunPeriod::RP2015_01)
        } else if is_word(s, "s15b"@, "S15B"@) {
            Some(RunPeriod::RP2015_03)
        } else if is_word(s, "f15"@, "F15"@) {
            Some(RunPeriod::RP2015_06)
        } else if is_word(s, "s16a"@, "S16A"@) {
            Some(RunPeriod::RP2015_12)
        } else if is_word(s, "s16b"@, "S16B"@) {
            Some(RunPeriod::RP2016_02)
        } else if is_word(s, "f16"@, "F16"@) {
            Some(RunPeriod::RP2016_10)
        } else if is_word(s, "s17"@, "S17"@) {
            Some(RunPeriod::RP2017_01)
        } else if is_word(s, "s18"@, "S18"@) {
            Some(RunPeriod::RP2018_01)
        } else if is_word(s, "f18"@, "F18"@) {
            Some(RunPeriod::RP2018_08)
        } else if is_word(s, "s19"@, "S19"@) {
            Some(RunPeriod::RP2019_01)
        } else if is_word(s, "s20"@, "S20"@) {
            Some(RunPeriod::RP2019_11)
        } else if is_word(s, "src"@, "SRC"@) {
            Some(RunPeriod::RP2021_08)
        } else if is_word(s, "cpp"@, "CPP"@) || is_word(s, "npp"@, "NPP"@) || is_word(s, "cpp/npp"@, "CPP/NPP"@) {
            Some(RunPeriod::RP2021_11)
        } else if is_word(s, "s22"@, "S22"@) {
            Some(RunPeriod::RP2022_05)
        } else if is_word(s, "f22"@, "F22"@) {
            Some(RunPeriod::RP2022_08)
        } else if is_word(s, "s23"@, "S23"@) {
            Some(RunPeriod::RP2023_01)
        } else if is_word(s, "s25"@, "S25"@) {
            Some(RunPeriod::RP2025_01)
        } else {
            None
        }
    }

    /// The first period, in the order of the periods, that holds `run`.
    pub open spec fn holding(run: RunNumber) -> Option<RunPeriod> {
        holding_among(all_periods_spec(), run, all_periods_spec().len())
    }

    pub fn min_run(&self) -> (r: RunNumber)
        ensures
            r == self.first_run(),
    {
        match self {
            RunPeriod::RP2014_10 => 630,
            RunPeriod::RP2015_01 => 2440,
            RunPeriod::RP2015_03 => 2607,
            RunPeriod::RP2015_06 => 3386,
            RunPeriod::RP2015_12 => 3939,
            RunPeriod::RP2016_02 => 10000,
            RunPeriod::RP2016_10 => 20000,
            RunPeriod::RP2017_01 => 30000,
            RunPeriod::RP2018_01 => 40856,
            RunPeriod::RP2018_08 => 50685,
            RunPeriod::RP2019_01 => 60700,
            RunPeriod::RP2019_11 => 72761,
            RunPeriod::RP2021_08 => 81262,
            RunPeriod::RP2021_11 => 90033,
            RunPeriod::RP2022_05 => 100491,
            RunPeriod::RP2022_08 => 110469,
            RunPeriod::RP2023_01 => 120286,
            RunPeriod::RP2025_01 => 131593,
        }
    }

    pub fn max_run(&self) -> (r: RunNumber)
        ensures
            r == self.last_run(),
    {
        match self {
            RunPeriod::RP2014_10 => 2439,
            RunPeriod::RP2015_01 => 2606,
            RunPeriod::RP2015_03 => 3385,
            RunPeriod::RP2015_06 => 3938,
            RunPeriod::RP2015_12 => 4807,
            RunPeriod::RP2016_02 => 12109,
            RunPeriod::RP2016_10 => 29999,
            RunPeriod::RP2017_01 => 49999,
            RunPeriod::RP2018_01 => 42550,
            RunPeriod::RP2018_08 => 51735,
            RunPeriod::RP2019_01 => 60833,
            RunPeriod::RP2019_11 => 73266,
            RunPeriod::RP2021_08 => 81704,
            RunPeriod::RP2021_11 => 90633,
            RunPeriod::RP2022_05 => 101622,
            RunPeriod::RP2022_08 => 112001,
            RunPeriod::RP2023_01 => 121207,
            RunPeriod::RP2025_01 => 133606,
        }
    }

    pub fn short_name(&self) -> (r: &'static str)
        ensures
            r@ == self.short_name_text(),
    {
        match self {
            RunPeriod::RP2014_10 => "F14",
            RunPeriod::RP2015_01 => "S15a",
            RunPeriod::RP2015_03 => "S15b",
            RunPeriod::RP2015_06 => "F15",
            RunPeriod::RP2015_12 => "S16a",
            RunPeriod::RP2016_02 => "S16b",
            RunPeriod::RP2016_10 => "F16",
            RunPeriod::RP2017_01 => "S17",
            RunPeriod::RP2018_01 => "S18",
            RunPeriod::RP2018_08 => "F18",
            RunPeriod::RP2019_01 => "S19",
            RunPeriod::RP2019_11 => "S20",
            RunPeriod::RP2021_08 => "SRC",
            RunPeriod::RP2021_11 => "CPP/NPP",
            RunPeriod::RP2022_05 => "S22",
            RunPeriod::RP2022_08 => "F22",
            RunPeriod::RP2023_01 => "S23",
            RunPeriod::RP2025_01 => "S25",
        }
    }

    /// The runs of the period, in ascending order.
    pub fn iter_runs(&self) -> (runs: Vec<RunNumber>)
        ensures
            runs@ == run_span(self.first_run() as int, self.last_run() as int),
    {
        let first = self.min_run();
        let last = self.max_run();
        let mut runs: Vec<RunNumber> = Vec::new();
        let mut run: RunNumber = first;
        while run < last
            invariant
                0 <= first <= run <= last <= 200000,
                runs@ == Seq::new((run - first) as nat, |i: int| (first + i) as RunNumber),
            decreases last - run,
        {
            runs.push(run);
            assert(runs@ == Seq::new((run + 1 - first) as nat, |i: int| (first + i) as RunNumber));
            run += 1;
        }
        runs.push(last);
        assert(runs@ == run_span(first as int, last as int));
        runs
    }

    /// The period that `s` names, whatever the case of its letters.
    pub fn from_str(s: &str) -> (r: Result<RunPeriod, RunPeriodError>)
        ensures
            match RunPeriod::named(s@) {
                Some(p) => r == Ok::<RunPeriod, RunPeriodError>(p),
                None => r matches Err(RunPeriodError::RunPeriodParseError(text)) && text@ == s@,
            },
    {
        let chars = chars_of(s);
        proof {
            reveal_strlit("f14");
            reveal_strlit("F14");
            reveal_strlit("s15a");
            reveal_strlit("S15A");
            reveal_strlit("s15b");
            reveal_strlit("S15B");
            reveal_strlit("f15");
            reveal_strlit("F15");
            reveal_strlit("s16a");
            reveal_strlit("S16A");
            reveal_strlit("s16b");
            reveal_strlit("S16B");
            reveal_strlit("f16");
            reveal_strlit("F16");
            reveal_strlit("s17");
            reveal_strlit("S17");
            reveal_strlit("s18");
            reveal_strlit("S18");
            reveal_strlit("f18");
            reveal_strlit("F18");
            reveal_strlit("s19");
            reveal_strlit("S19");
            reveal_strlit("s20");
            reveal_strlit("S20");
            reveal_strlit("src");
            reveal_strlit("SRC");
            reveal_strlit("cpp");
            reveal_strlit("CPP");
            reveal_strlit("npp");
            reveal_strlit("NPP");
            reveal_strlit("cpp/npp");
            reveal_strlit("CPP/NPP");
            reveal_strlit("s22");
            reveal_strlit("S22");
            reveal_strlit("f22");
            reveal_strlit("F22");
            reveal_strlit("s23");
            reveal_strlit("S23");
            reveal_strlit("s25");
            reveal_strlit("S25");
        }
        if word(&chars, "f14", "F14") {
            Ok(RunPeriod::RP2014_10)
        } else if word(&chars, "s15a", "S15A") {
            Ok(RunPeriod::RP2015_01)
        } else if word(&chars, "s15b", "S15B") {
            Ok(RunPeriod::RP2015_03)
        } else if word(&chars, "f15", "F15") {
            Ok(RunPeriod::RP2015_06)
        } else if word(&chars, "s16a", "S16A") {
            Ok(RunPeriod::RP2015_12)
        } else if word(&chars, "s16b", "S16B") {
            Ok(RunPeriod::RP2016_02)
        } else if word(&chars, "f16", "F16") {
            Ok(RunPeriod::RP2016_10)
        } else if word(&chars, "s17", "S17") {
            Ok(RunPeriod::RP2017_01)
        } else if word(&chars, "s18", "S18") {
            Ok(RunPeriod::RP2018_01)
        } else if word(&chars, "f18", "F18") {
            Ok(RunPeriod::RP2018_08)
        } else if word(&chars, "s19", "S19") {
            Ok(RunPeriod::RP2019_01)
        } else if word(&chars, "s20", "S20") {
            Ok(RunPeriod::RP2019_11)
        } else if word(&chars, "src", "SRC") {
            Ok(RunPeriod::RP2021_08)
        } else if word(&chars, "cpp", "CPP") || word(&chars, "npp", "NPP") || word(&chars, "cpp/npp", "CPP/NPP") {
            Ok(RunPeriod::RP2021_11)
        } else if word(&chars, "s22", "S22") {
            Ok(RunPeriod::RP2022_05)
        } else if word(&chars, "f22", "F22") {
            Ok(RunPeriod::RP2022_08)
        } else if word(&chars, "s23", "S23") {
            Ok(RunPeriod::RP2023_01)
        } else if word(&chars, "s25", "S25") {
            Ok(RunPeriod::RP2025_01)
        } else {
            Err(RunPeriodError::RunPeriodParseError(string_of(&chars)))
        }
    }

    /// The first period, in the order of the periods, that holds `value`.
    pub fn try_from(value: RunNumber) -> (r: Result<RunPeriod, RunPeriodError>)
        ensures
            match RunPeriod::holding(value) {
                Some(p) => r == Ok::<RunPeriod, RunPeriodError>(p),
                None => r == Err::<RunPeriod, RunPeriodError>(
                    RunPeriodError::UnknownRunPeriodError(value),
                ),
            },
    {
        let periods = all_periods();
        let mut i: usize = 0;
        while i < periods.len()
            invariant
                i <= periods.len(),
                periods@ == all_periods_spec(),
                holding_among(periods@, value, i as nat) is None,
            decreases periods.len() - i,
        {
            let p = periods[i];
            if value >= p.min_run() && value <= p.max_run() {
                proof {
                    lemma_holding_stays(periods@, value, (i + 1) as nat, periods@.len());
                }
                return Ok(p);
            }
            i += 1;
        }
        Err(RunPeriodError::UnknownRunPeriodError(value))
    }
}

fn word(s: &Vec<char>, lower: &str, upper: &str) -> (r: bool)
    requires
        lower@.len() == upper@.len(),
    ensures
        r == is_word(s@, lower@, upper@),
{
    assert(s@.skip(0) == s@);
    word_at(s, 0, lower, upper)
}

/// Every period, in order.
pub open spec fn all_periods_spec() -> Seq<RunPeriod> {
    seq![
        RunPeriod::RP2014_10,
        RunPeriod::RP2015_01,
        RunPeriod::RP2015_03,
        RunPeriod::RP2015_06,
        RunPeriod::RP2015_12,
        RunPeriod::RP2016_02,
        RunPeriod::RP2016_10,
        RunPeriod::RP2017_01,
        RunPeriod::RP2018_01,
        RunPeriod::RP2018_08,
        RunPeriod::RP2019_01,
        RunPeriod::RP2019_11,
        RunPeriod::RP2021_08,
        RunPeriod::RP2021_11,
        RunPeriod::RP2022_05,
        RunPeriod::RP2022_08,
        RunPeriod::RP2023_01,
        RunPeriod::RP2025_01,
    ]
}

/// Every period, in order.
pub fn all_periods() -> (periods: Vec<RunPeriod>)
    ensures
        periods@ == all_periods_spec(),
{
    let periods: Vec<RunPeriod> = vec![
        RunPeriod::RP2014_10,
        RunPeriod::RP2015_01,
        RunPeriod::RP2015_03,
        RunPeriod::RP2015_06,
        RunPeriod::RP2015_12,
        RunPeriod::RP2016_02,
        RunPeriod::RP2016_10,
        RunPeriod::RP2017_01,
        RunPeriod::RP2018_01,
        RunPeriod::RP2018_08,
        RunPeriod::RP2019_01,
        RunPeriod::RP2019_11,
        RunPeriod::RP2021_08,
        RunPeriod::RP2021_11,
        RunPeriod::RP2022_05,
        RunPeriod::RP2022_08,
        RunPeriod::RP2023_01,
        RunPeriod::RP2025_01,
    ];
    assert(periods@ == all_periods_spec());
    periods
}

/// The first of the first `n` periods that holds `run`.
pub open spec fn holding_among(periods: Seq<RunPeriod>, run: RunNumber, n: nat) -> Option<RunPeriod>
    decreases n,
{
    if n == 0 || n > periods.len() {
        None
    } else {
        match holding_among(periods, run, (n - 1) as nat) {
            Some(p) => Some(p),
            None => if periods[n - 1].first_run() <= run <= periods[n - 1].last_run() {
                Some(periods[n - 1])
            } else {
                None
            },
        }
    }
}

proof fn lemma_holding_stays(periods: Seq<RunPeriod>, run: RunNumber, found: nat, n: nat)
    requires
        holding_among(periods, run, found) is Some,
        found <= n <= periods.len(),
    ensures
        holding_among(periods, run, n) == holding_among(periods, run, found),
    decreases n,
{
    if found < n {
        lemma_holding_stays(periods, run, found, (n - 1) as nat);
    }
}

/// No period ends before it begins.
pub proof fn lemma_periods_are_ranges(p: RunPeriod)
    ensures
        0 <= p.first_run() <= p.last_run(),
{
}

/// The periods of the first phase of the experiment.
pub fn gluex_phase_one() -> (periods: Vec<RunPeriod>)
    ensures
        periods@ == seq![RunPeriod::RP2017_01, RunPeriod::RP2018_01, RunPeriod::RP2018_08],
{
    let periods: Vec<RunPeriod> = vec![RunPeriod::RP2017_01, RunPeriod::RP2018_01, RunPeriod::RP2018_08];
    assert(periods@ == seq![RunPeriod::RP2017_01, RunPeriod::RP2018_01, RunPeriod::RP2018_08]);
    periods
}

/// The periods of the second phase of the experiment.
pub fn gluex_phase_two() -> (periods: Vec<RunPeriod>)
    ensures
        periods@ == seq![RunPeriod::RP2019_11, RunPeriod::RP2023_01, RunPeriod::RP2025_01],
{
    let periods: Vec<RunPeriod> = vec![RunPeriod::RP2019_11, RunPeriod::RP2023_01, RunPeriod::RP2025_01];
    assert(periods@ == seq![RunPeriod::RP2019_11, RunPeriod::RP2023_01, RunPeriod::RP2025_01]);
    periods
}

/// The photon energies of the coherent peak for `run`, from and to, in
/// tenths of a GeV.
pub open spec fn coherent_peak_tenths(run: RunNumber) -> (u32, u32) {
    if run < 2760 {
        (84u32, 90u32)
    } else if run < 4001 {
        (25u32, 30u32)
    } else if run < 30000 {
        (84u32, 90u32)
    } else if run < 70000 {
        (82u32, 88u32)
    } else if run < 100000 {
        (80u32, 86u32)
    } else if run < 110000 {
        (52u32, 57u32)
    } else {
        (80u32, 86u32)
    }
}

/// The photon energies of the coherent peak for `run`, from and to, in
/// tenths of a GeV.
pub fn coherent_peak(run: RunNumber) -> (r: (u32, u32))
    ensures
        r == coherent_peak_tenths(run),
{
    if run < 2760 {
        (84, 90)
    } else if run < 4001 {
        (25, 30)
    } else if run < 30000 {
        (84, 90)
    } else if run < 70000 {
        (82, 88)
    } else if run < 100000 {
        (80, 86)
    } else if run < 110000 {
        (52, 57)
    } else {
        (80, 86)
    }
}

/// The day as of which the reconstruction pass `version` of `period` reads
/// its calibrations, where that is known: year, month and day.
pub open spec fn rest_version_day(period: RunPeriod, version: RestVersion) -> Option<(int, int, int)> {
    if period == RunPeriod::RP2017_01 && version == 52 {
        Some((2018int, 12int, 1int))
    } else if period == RunPeriod::RP2018_01 && version == 19 {
        Some((2019int, 8int, 1int))
    } else if period == RunPeriod::RP2018_08 && version == 19 {
        Some((2019int, 11int, 1int))
    } else if period == RunPeriod::RP2019_11 && version == 4 {
        Some((2022int, 6int, 1int))
    } else {
        None
    }
}

/// The last second of the day.
pub open spec fn end_of_day(day: (int, int, int)) -> Civil {
    Civil { year: day.0, month: day.1, day: day.2, hour: 23, minute: 59, second: 59 }
}

/// The instant as of which the reconstruction pass `version` of `period`
/// reads its calibrations, where that is known: the last second of its
/// day.
pub fn rest_version_timestamp(period: RunPeriod, version: RestVersion) -> (r: Option<Timestamp>)
    ensures
        match rest_version_day(period, version) {
            Some(day) => r matches Some(t) && t@ == end_of_day(day),
            None => r is None,
        },
{
    match period {
        RunPeriod::RP2017_01 => if version == 52 {
            Timestamp::from_parts(2018, 12, 1, 23, 59, 59)
        } else {
            None
        },
        RunPeriod::RP2018_01 => if version == 19 {
            Timestamp::from_parts(2019, 8, 1, 23, 59, 59)
        } else {
            None
        },
        RunPeriod::RP2018_08 => if version == 19 {
            Timestamp::from_parts(2019, 11, 1, 23, 59, 59)
        } else {
            None
        },
        RunPeriod::RP2019_11 => if version == 4 {
            Timestamp::from_parts(2022, 6, 1, 23, 59, 59)
        } else {
            None
        },
        _ => None,
    }
}

} // verus!
