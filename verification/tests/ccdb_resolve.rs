use std::collections::BTreeMap;

use gluex::ccdb::context::Context;
use gluex::ccdb::data::CCDBDataError;
use gluex::ccdb::error::CCDBError;
use gluex::ccdb::loader::{decode_payloads, distinct_constant_sets, requested_runs};
use gluex::ccdb::models::{AssignmentMetaLite, ColumnMeta, ColumnType, ConstantSetMeta};
use gluex::ccdb::resolve::{pick, AssignmentRow, Resolution};
use gluex::runmap::{has, look, ordered_entries, put};
use gluex::timestamp::{parse_timestamp, ParseTimestampError, Timestamp};

fn row(id: i64, created: &str, constant_set_id: i64, run_min: i64, run_max: i64) -> AssignmentRow {
    AssignmentRow {
        meta: AssignmentMetaLite { id, created: created.to_string(), constant_set_id },
        run_min,
        run_max,
    }
}

fn now() -> Timestamp {
    parse_timestamp("2030").unwrap()
}

fn resolve(runs: &Vec<i64>, batches: &[Vec<AssignmentRow>], t: &Timestamp) -> BTreeMap<i64, AssignmentMetaLite> {
    let mut state = Resolution::start(runs);
    for rows in batches {
        if state.is_done() {
            break;
        }
        state = state.absorb(rows, t).unwrap();
    }
    state.finish()
}

#[test]
fn a_child_overrides_its_parent_where_it_has_an_assignment() {
    let u = vec![row(1, "2020-01-01 00:00:00", 100, 1, 10)];
    let v = vec![row(2, "2020-01-01 00:00:00", 200, 5, 10)];
    let runs: Vec<i64> = (1..=10).collect();
    let found = resolve(&runs, &[v, u], &now());
    assert_eq!(found.len(), 10);
    for run in 1..=4 {
        assert_eq!(found[&run].id(), 1);
        assert_eq!(found[&run].constant_set_id(), 100);
    }
    for run in 5..=10 {
        assert_eq!(found[&run].id(), 2);
        assert_eq!(found[&run].constant_set_id(), 200);
    }
}

#[test]
fn a_hundred_runs_of_child_and_parent() {
    let parent = vec![row(1, "2019-05-05", 100, 1, 100)];
    let child = vec![row(2, "2019-06-06", 200, 50, 60)];
    let runs: Vec<i64> = (1..=100).collect();
    let found = resolve(&runs, &[child, parent], &now());
    assert_eq!(found.len(), 100);
    for run in 1..=100i64 {
        let expected = if (50..=60).contains(&run) { 2 } else { 1 };
        assert_eq!(found[&run].id(), expected, "run {}", run);
    }
    let keys: Vec<i64> = found.keys().copied().collect();
    assert_eq!(keys, runs);
}

#[test]
fn the_assignment_created_last_wins() {
    let rows = vec![
        row(1, "2020-01-01 00:00:00", 100, 0, 100),
        row(2, "2020-03-01 00:00:00", 200, 0, 100),
        row(3, "2020-02-01 00:00:00", 300, 0, 100),
    ];
    assert_eq!(pick(&rows, 50, &now()).unwrap(), Some(1));
    let found = resolve(&vec![50], &[rows], &now());
    assert_eq!(found[&50].id(), 2);
    let rows = vec![
        row(2, "2020-03-01 00:00:00", 200, 0, 100),
        row(1, "2020-01-01 00:00:00", 100, 0, 100),
    ];
    assert_eq!(pick(&rows, 50, &now()).unwrap(), Some(0));
}

#[test]
fn of_two_assignments_created_together_the_first_is_kept() {
    let rows = vec![
        row(1, "2020-01-01 00:00:00", 100, 0, 100),
        row(2, "2020-01-01 00:00:00", 200, 0, 100),
    ];
    assert_eq!(pick(&rows, 50, &now()).unwrap(), Some(0));
}

#[test]
fn assignments_created_after_the_instant_do_not_count() {
    let rows = vec![
        row(1, "2020-01-01 00:00:00", 100, 0, 100),
        row(2, "2021-01-01 00:00:00", 200, 0, 100),
    ];
    let t = parse_timestamp("2020-06-01 00:00:00").unwrap();
    assert_eq!(pick(&rows, 50, &t).unwrap(), Some(0));
    let exactly = parse_timestamp("2021-01-01 00:00:00").unwrap();
    assert_eq!(pick(&rows, 50, &exactly).unwrap(), Some(1));
    let before = parse_timestamp("2019").unwrap();
    assert_eq!(pick(&rows, 50, &before).unwrap(), None);
    assert!(resolve(&vec![50], &[rows], &before).is_empty());
}

#[test]
fn run_ranges_include_both_ends() {
    let rows = vec![row(1, "2020", 100, 10, 20)];
    assert_eq!(pick(&rows, 10, &now()).unwrap(), Some(0));
    assert_eq!(pick(&rows, 20, &now()).unwrap(), Some(0));
    assert_eq!(pick(&rows, 9, &now()).unwrap(), None);
    assert_eq!(pick(&rows, 21, &now()).unwrap(), None);
    assert_eq!(pick(&Vec::new(), 21, &now()).unwrap(), None);
}

#[test]
fn runs_without_an_assignment_are_left_out() {
    let rows = vec![row(1, "2020", 100, 10, 20)];
    let found = resolve(&vec![5, 15, 25, 15], &[rows], &now());
    let keys: Vec<i64> = found.keys().copied().collect();
    assert_eq!(keys, vec![15]);
    assert!(resolve(&Vec::new(), &[vec![row(1, "2020", 100, 0, 9)]], &now()).is_empty());
}

#[test]
fn a_creation_time_that_cannot_be_read_is_an_error() {
    let rows = vec![row(1, "2020", 100, 10, 20), row(2, "never", 200, 30, 40)];
    assert!(matches!(pick(&rows, 35, &now()), Err(ParseTimestampError::NoDigits(t)) if t == "never"));
    assert_eq!(pick(&rows, 15, &now()).unwrap(), Some(0));
    let state = Resolution::start(&vec![15, 35]);
    assert!(matches!(state.absorb(&rows, &now()), Err(CCDBError::ParseTimestampError(_))));
    let state = Resolution::start(&vec![15]);
    assert!(state.absorb(&rows, &now()).is_ok());
    let settled = Resolution::start(&vec![35]).absorb(&vec![row(9, "2020", 1, 35, 35)], &now()).unwrap();
    assert!(settled.absorb(&rows, &now()).is_ok());
}

#[test]
fn the_state_of_a_resolution() {
    let state = Resolution::start(&vec![7, 3, 9, 3]);
    assert_eq!(state.run_bounds(), Some((3, 9)));
    assert!(!state.is_done());
    let state = state.absorb(&vec![row(1, "2020", 100, 0, 5)], &now()).unwrap();
    assert!(!state.is_done());
    assert_eq!(state.run_bounds(), Some((3, 9)));
    let state = state.absorb(&vec![row(2, "2020", 200, 0, 9)], &now()).unwrap();
    assert!(state.is_done());
    let found = state.finish();
    assert_eq!(found[&3].id(), 1);
    assert_eq!(found[&7].id(), 2);
    assert_eq!(found[&9].id(), 2);
    let empty = Resolution::start(&Vec::new());
    assert_eq!(empty.run_bounds(), None);
    assert!(empty.is_done());
}

#[test]
fn the_runs_of_a_fetch() {
    assert_eq!(requested_runs(&Context::default()), vec![0]);
    assert_eq!(requested_runs(&Context::default().with_runs(Vec::new())), vec![0]);
    assert_eq!(requested_runs(&Context::default().with_runs(vec![4, 2])), vec![4, 2]);
}

fn lite(id: i64, constant_set_id: i64) -> AssignmentMetaLite {
    AssignmentMetaLite { id, created: "2020".to_string(), constant_set_id }
}

fn constant_set(id: i64, vault: &str) -> ConstantSetMeta {
    ConstantSetMeta { id, vault: vault.to_string(), constant_type_id: 1, ..Default::default() }
}

fn two_columns() -> Vec<ColumnMeta> {
    vec![
        ColumnMeta { name: "a".to_string(), column_type: ColumnType::Int, order: 0, ..Default::default() },
        ColumnMeta { name: "b".to_string(), column_type: ColumnType::Double, order: 1, ..Default::default() },
    ]
}

#[test]
fn the_constant_sets_of_assignments() {
    let mut assignments = BTreeMap::new();
    assignments.insert(5, lite(1, 30));
    assignments.insert(1, lite(2, 10));
    assignments.insert(3, lite(3, 30));
    assignments.insert(2, lite(4, 20));
    assignments.insert(9, lite(5, 10));
    assert_eq!(distinct_constant_sets(&assignments), vec![10, 20, 30]);
    assert!(distinct_constant_sets(&BTreeMap::new()).is_empty());
}

#[test]
fn payloads_are_decoded_run_by_run() {
    let mut assignments = BTreeMap::new();
    assignments.insert(50, lite(1, 10));
    assignments.insert(60, lite(2, 20));
    assignments.insert(70, lite(3, 99));
    let sets = vec![constant_set(10, "7|3.5"), constant_set(20, "8|4.5")];
    let payloads = decode_payloads(&assignments, &sets, &two_columns(), 1).unwrap();
    let keys: Vec<i64> = payloads.keys().copied().collect();
    assert_eq!(keys, vec![50, 60]);
    assert_eq!(payloads[&50].get_named_int("a", 0), Some(7));
    assert_eq!(payloads[&50].get_named_double("b", 0), Some("3.5"));
    assert_eq!(payloads[&60].get_named_int("a", 0), Some(8));
    assert!(decode_payloads(&BTreeMap::new(), &sets, &two_columns(), 1).unwrap().is_empty());
}

#[test]
fn the_last_constant_set_of_an_identifier_is_decoded() {
    let mut assignments = BTreeMap::new();
    assignments.insert(1, lite(1, 10));
    let sets = vec![constant_set(10, "1|1.0"), constant_set(10, "2|2.0")];
    let payloads = decode_payloads(&assignments, &sets, &two_columns(), 1).unwrap();
    assert_eq!(payloads[&1].get_int(0, 0), Some(2));
}

#[test]
fn one_payload_that_does_not_decode_fails_the_fetch() {
    let mut assignments = BTreeMap::new();
    assignments.insert(1, lite(1, 10));
    assignments.insert(2, lite(2, 20));
    assignments.insert(3, lite(3, 30));
    let sets = vec![constant_set(10, "1|1.0"), constant_set(20, "1|y|3"), constant_set(30, "x|1")];
    match decode_payloads(&assignments, &sets, &two_columns(), 1) {
        Err(CCDBError::CCDBDataError(CCDBDataError::ParseError { column, row, text, .. })) => {
            assert_eq!((column, row), (1, 0));
            assert_eq!(text, "y");
        }
        _ => panic!("expected the parse error of run 2"),
    }
    let sets = vec![constant_set(10, "1|1.0"), constant_set(20, "1|2.0|3"), constant_set(30, "x|1")];
    assert!(matches!(
        decode_payloads(&assignments, &sets, &two_columns(), 1),
        Err(CCDBError::CCDBDataError(CCDBDataError::ColumnCountMismatch { expected: 2, found: 3 }))
    ));
}

#[test]
fn maps_ordered_by_run() {
    let mut m: BTreeMap<i64, String> = BTreeMap::new();
    put(&mut m, 5, "five".to_string());
    put(&mut m, -1, "minus".to_string());
    put(&mut m, 3, "three".to_string());
    put(&mut m, 5, "FIVE".to_string());
    assert!(has(&m, 3));
    assert!(!has(&m, 4));
    assert_eq!(look(&m, 5), Some(&"FIVE".to_string()));
    assert_eq!(look(&m, 6), None);
    let entries: Vec<(i64, String)> = ordered_entries(&m).iter().map(|(k, v)| (*k, (*v).clone())).collect();
    assert_eq!(
        entries,
        vec![(-1, "minus".to_string()), (3, "three".to_string()), (5, "FIVE".to_string())]
    );
}

#[test]
fn one_assignment_of_the_default_variation() {
    let rows = vec![row(1, "2020-01-01 00:00:00", 10, 0, 100)];
    let context = Context::default().with_run(50);
    let runs = requested_runs(&context);
    let state = Resolution::start(&runs);
    assert_eq!(state.run_bounds(), Some((50, 50)));
    let assignments = state.absorb(&rows, &context.timestamp).unwrap().finish();
    assert_eq!(distinct_constant_sets(&assignments), vec![10]);
    let payloads = decode_payloads(&assignments, &vec![constant_set(10, "7|3.5")], &two_columns(), 1).unwrap();
    assert_eq!(payloads.len(), 1);
    let data = &payloads[&50];
    assert_eq!((data.nrows(), data.ncolumns()), (1, 2));
    assert_eq!(data.get_named_int("a", 0), Some(7));
    assert_eq!(data.get_named_double("b", 0).map(|t| t.parse::<f64>().unwrap()), Some(3.5));
}
