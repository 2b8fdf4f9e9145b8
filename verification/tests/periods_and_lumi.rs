use gluex::lumi::{get_timestamp, parse_run_pair, Converter, ConverterParseError, RunPairError};
use gluex::rcdb::models::{ConditionMeta, RunMeta, RunPeriodMeta};
use gluex::float::Float64;
use gluex::run_periods::{
    all_periods, coherent_peak, gluex_phase_one, gluex_phase_two, rest_version_timestamp, RunPeriod,
    RunPeriodError,
};

#[test]
fn the_runs_of_a_period() {
    assert_eq!(RunPeriod::RP2014_10.min_run(), 630);
    assert_eq!(RunPeriod::RP2014_10.max_run(), 2439);
    assert_eq!(RunPeriod::RP2018_08.min_run(), 50685);
    assert_eq!(RunPeriod::RP2018_08.max_run(), 51735);
    assert_eq!(RunPeriod::RP2025_01.min_run(), 131593);
    assert_eq!(RunPeriod::RP2025_01.max_run(), 133606);
    let runs = RunPeriod::RP2015_01.iter_runs();
    assert_eq!(runs.len(), 167);
    assert_eq!(runs[0], 2440);
    assert_eq!(runs[166], 2606);
    assert!(runs.windows(2).all(|w| w[1] == w[0] + 1));
    for p in all_periods() {
        assert!(p.min_run() <= p.max_run());
        assert_eq!(p.iter_runs().len() as i64, p.max_run() - p.min_run() + 1);
    }
}

#[test]
fn periods_by_name() {
    let names = [
        "F14", "S15a", "S15b", "F15", "S16a", "S16b", "F16", "S17", "S18", "F18", "S19", "S20",
        "SRC", "CPP/NPP", "S22", "F22", "S23", "S25",
    ];
    let all = all_periods();
    assert_eq!(all.len(), 18);
    for (p, name) in all.iter().zip(names) {
        assert_eq!(p.short_name(), name);
        assert_eq!(RunPeriod::from_str(name).unwrap(), *p);
        assert_eq!(RunPeriod::from_str(&name.to_lowercase()).unwrap(), *p);
        assert_eq!(RunPeriod::from_str(&name.to_uppercase()).unwrap(), *p);
    }
    assert_eq!(RunPeriod::from_str("cpp").unwrap(), RunPeriod::RP2021_11);
    assert_eq!(RunPeriod::from_str("NPP").unwrap(), RunPeriod::RP2021_11);
    assert_eq!(RunPeriod::from_str("s15A").unwrap(), RunPeriod::RP2015_01);
    assert!(matches!(
        RunPeriod::from_str("s21"),
        Err(RunPeriodError::RunPeriodParseError(t)) if t == "s21"
    ));
    assert!(RunPeriod::from_str("").is_err());
    assert!(RunPeriod::from_str("f14 ").is_err());
    assert!(RunPeriod::from_str("s15").is_err());
}

#[test]
fn periods_by_run() {
    assert_eq!(RunPeriod::try_from(630).unwrap(), RunPeriod::RP2014_10);
    assert_eq!(RunPeriod::try_from(2439).unwrap(), RunPeriod::RP2014_10);
    assert_eq!(RunPeriod::try_from(2440).unwrap(), RunPeriod::RP2015_01);
    assert_eq!(RunPeriod::try_from(41000).unwrap(), RunPeriod::RP2017_01);
    assert_eq!(RunPeriod::try_from(51000).unwrap(), RunPeriod::RP2018_08);
    assert_eq!(RunPeriod::try_from(133606).unwrap(), RunPeriod::RP2025_01);
    assert!(matches!(RunPeriod::try_from(629), Err(RunPeriodError::UnknownRunPeriodError(629))));
    assert!(matches!(RunPeriod::try_from(5000), Err(RunPeriodError::UnknownRunPeriodError(5000))));
    assert!(matches!(RunPeriod::try_from(133607), Err(RunPeriodError::UnknownRunPeriodError(133607))));
    assert!(matches!(RunPeriod::try_from(-1), Err(RunPeriodError::UnknownRunPeriodError(-1))));
}

#[test]
fn the_phases() {
    assert_eq!(gluex_phase_one(), vec![RunPeriod::RP2017_01, RunPeriod::RP2018_01, RunPeriod::RP2018_08]);
    assert_eq!(gluex_phase_two(), vec![RunPeriod::RP2019_11, RunPeriod::RP2023_01, RunPeriod::RP2025_01]);
}

#[test]
fn the_coherent_peak() {
    assert_eq!(coherent_peak(0), (84, 90));
    assert_eq!(coherent_peak(2759), (84, 90));
    assert_eq!(coherent_peak(2760), (25, 30));
    assert_eq!(coherent_peak(4000), (25, 30));
    assert_eq!(coherent_peak(4001), (84, 90));
    assert_eq!(coherent_peak(29999), (84, 90));
    assert_eq!(coherent_peak(30000), (82, 88));
    assert_eq!(coherent_peak(69999), (82, 88));
    assert_eq!(coherent_peak(70000), (80, 86));
    assert_eq!(coherent_peak(100000), (52, 57));
    assert_eq!(coherent_peak(109999), (52, 57));
    assert_eq!(coherent_peak(110000), (80, 86));
}

#[test]
fn the_instants_of_reconstruction_passes() {
    assert_eq!(rest_version_timestamp(RunPeriod::RP2017_01, 52).unwrap().to_text(), "2018-12-01 23:59:59");
    assert_eq!(rest_version_timestamp(RunPeriod::RP2018_01, 19).unwrap().to_text(), "2019-08-01 23:59:59");
    assert_eq!(rest_version_timestamp(RunPeriod::RP2018_08, 19).unwrap().to_text(), "2019-11-01 23:59:59");
    assert_eq!(rest_version_timestamp(RunPeriod::RP2019_11, 4).unwrap().to_text(), "2022-06-01 23:59:59");
    assert!(rest_version_timestamp(RunPeriod::RP2017_01, 19).is_none());
    assert!(rest_version_timestamp(RunPeriod::RP2025_01, 4).is_none());
    assert_eq!(get_timestamp(RunPeriod::RP2018_01, 19).to_text(), "2019-08-01 23:59:59");
    assert!(get_timestamp(RunPeriod::RP2018_01, 20).year() >= 2024);
}

#[test]
fn converters() {
    assert_eq!(Converter::from_str("Retracted").unwrap(), Converter::Retracted);
    assert_eq!(Converter::from_str("Unknown").unwrap(), Converter::Unknown);
    assert_eq!(Converter::from_str("Be 750um").unwrap(), Converter::Be750um);
    assert_eq!(Converter::from_str("Be 75um").unwrap(), Converter::Be75um);
    assert_eq!(Converter::from_str("Be 50um").unwrap(), Converter::Be50um);
    assert!(matches!(Converter::from_str("Be 5um"), Err(ConverterParseError(t)) if t == "Be 5um"));
    assert!(Converter::from_str("retracted").is_err());
    assert_eq!(Converter::Be750um.thickness(), Some(750));
    assert_eq!(Converter::Be75um.thickness(), Some(75));
    assert_eq!(Converter::Be50um.thickness(), Some(50));
    assert_eq!(Converter::Retracted.thickness(), None);
    assert_eq!(Converter::Unknown.thickness(), None);
    assert_eq!(Converter::Unknown.for_run(10634), Converter::Be75um);
    assert_eq!(Converter::Retracted.for_run(10693), Converter::Be75um);
    assert_eq!(Converter::Retracted.for_run(10633), Converter::Retracted);
    assert_eq!(Converter::Unknown.for_run(10694), Converter::Unknown);
    assert_eq!(Converter::Be50um.for_run(10650), Converter::Be50um);
}

#[test]
fn run_selections() {
    assert_eq!(parse_run_pair("f18").unwrap(), (RunPeriod::RP2018_08, 0));
    assert_eq!(parse_run_pair("s19=2").unwrap(), (RunPeriod::RP2019_01, 2));
    assert_eq!(parse_run_pair("S17=+52").unwrap(), (RunPeriod::RP2017_01, 52));
    assert_eq!(parse_run_pair("cpp/npp=007").unwrap(), (RunPeriod::RP2021_11, 7));
    assert!(matches!(
        parse_run_pair("x99=1"),
        Err(RunPairError::Period(RunPeriodError::RunPeriodParseError(t))) if t == "x99"
    ));
    assert!(matches!(parse_run_pair(""), Err(RunPairError::Period(_))));
    assert!(matches!(parse_run_pair("f18="), Err(RunPairError::Rest(t)) if t.is_empty()));
    assert!(matches!(parse_run_pair("f18=-1"), Err(RunPairError::Rest(t)) if t == "-1"));
    assert!(matches!(parse_run_pair("f18=1=2"), Err(RunPairError::Rest(t)) if t == "1=2"));
    assert!(matches!(parse_run_pair("f18=two"), Err(RunPairError::Rest(t)) if t == "two"));
    assert!(matches!(parse_run_pair("f18=99999999999999999999999"), Err(RunPairError::Rest(_))));
}

#[test]
fn run_records() {
    let c = ConditionMeta {
        id: 1,
        text_value: "t".to_string(),
        int_value: 2,
        float_value: Float64::from_bits(2.5f64.to_bits()),
        bool_value: 1,
        run_number: 30,
        condition_type_id: 4,
        created: "2016-02-03".to_string(),
        time_value: "2016-02-03 04:05:06".to_string(),
    };
    assert_eq!((c.id(), c.text_value(), c.int_value(), c.bool_value()), (1, "t", 2, 1));
    assert_eq!((c.run_number(), c.condition_type_id()), (30, 4));
    assert_eq!(f64::from_bits(c.float_value().to_bits()), 2.5);
    assert_eq!(c.created().unwrap().to_text(), "2016-02-03 23:59:59");
    assert_eq!(c.time_value().unwrap().to_text(), "2016-02-03 04:05:06");
    let p = RunPeriodMeta {
        id: 1,
        name: "n".to_string(),
        description: "d".to_string(),
        run_min: 5,
        run_max: 9,
        start_date: "2016-02".to_string(),
        end_date: "x".to_string(),
    };
    assert_eq!((p.id(), p.name(), p.description(), p.run_min(), p.run_max()), (1, "n", "d", 5, 9));
    assert_eq!(p.start_date().unwrap().to_text(), "2016-02-29 23:59:59");
    assert!(p.end_date().is_err());
    let r = RunMeta { number: 3, started: "2016".to_string(), finished: "2017".to_string() };
    assert_eq!(r.number(), 3);
    assert!(r.finished().unwrap().is_after(&r.started().unwrap()));
}
