use gluex::ccdb::context::{
    Context, NamePath, NamePathError, ParseRequestError, Request, DEFAULT_RUN_NUMBER, MAX_RUN_NUMBER,
};
use gluex::ccdb::paths::normalize_path;
use gluex::timestamp::{parse_timestamp, ParseTimestampError};

#[test]
fn name_paths_are_absolute_and_plain() {
    assert_eq!(NamePath::from_str("/a/b_c-1").unwrap().full_path(), "/a/b_c-1");
    assert!(matches!(NamePath::from_str("a/b"), Err(NamePathError::NotAbsolutePath(t)) if t == "a/b"));
    assert!(matches!(NamePath::from_str("/a b"), Err(NamePathError::IllegalCharacter(t)) if t == "/a b"));
    assert!(matches!(NamePath::from_str("/a%b"), Err(NamePathError::IllegalCharacter(t)) if t == "/a%b"));
    assert!(matches!(NamePath::from_str(""), Err(NamePathError::NotAbsolutePath(t)) if t.is_empty()));
    assert!(matches!(NamePath::from_str("/é"), Err(NamePathError::IllegalCharacter(_))));
    assert!(matches!(NamePath::from_str("/a:b"), Err(NamePathError::IllegalCharacter(_))));
    assert!(NamePath::from_str("/").is_ok());
    assert!(NamePath::from_str("/AZaz09/_-").is_ok());
    assert!(matches!(NamePath::from_str("/a.b"), Err(NamePathError::IllegalCharacter(_))));
    assert!(matches!(NamePath::from_str("/a{"), Err(NamePathError::IllegalCharacter(_))));
    assert!(matches!(NamePath::from_str("/a@"), Err(NamePathError::IllegalCharacter(_))));
    assert!(matches!(NamePath::from_str("/a["), Err(NamePathError::IllegalCharacter(_))));
    assert!(matches!(NamePath::from_str("/a`"), Err(NamePathError::IllegalCharacter(_))));
}

#[test]
fn names_and_parents() {
    let p = NamePath::from_str("/PHOTON_BEAM/endpoint_energy").unwrap();
    assert_eq!(p.name(), "endpoint_energy");
    assert_eq!(p.parent().unwrap().full_path(), "/PHOTON_BEAM");
    assert!(!p.is_root());
    let q = p.parent().unwrap();
    assert_eq!(q.name(), "PHOTON_BEAM");
    assert_eq!(q.parent().unwrap().full_path(), "/");
    let root = q.parent().unwrap();
    assert!(root.is_root());
    assert!(root.parent().is_none());
    assert_eq!(root.name(), "");
    let deep = NamePath::from_str("/a/b/c/d").unwrap();
    assert_eq!(deep.name(), "d");
    assert_eq!(deep.parent().unwrap().full_path(), "/a/b/c");
    let open = NamePath::from_str("/a/b/").unwrap();
    assert_eq!(open.name(), "");
    assert_eq!(open.parent().unwrap().full_path(), "/a/b");
    let bare = NamePath("plain".to_string());
    assert_eq!(bare.name(), "plain");
    assert_eq!(bare.parent().unwrap().full_path(), "/");
}

#[test]
fn normal_forms() {
    assert_eq!(normalize_path("/x/y", "../z/./q"), "/x/z/q");
    assert_eq!(normalize_path("/x", "/a"), "/a");
    assert_eq!(normalize_path("/", ""), "/");
    assert_eq!(normalize_path("", ""), "/");
    assert_eq!(normalize_path("/", "a"), "/a");
    assert_eq!(normalize_path("/a/b", ".."), "/a");
    assert_eq!(normalize_path("/a/b", "../.."), "/");
    assert_eq!(normalize_path("/a/b", "../../.."), "/");
    assert_eq!(normalize_path("/a/b", "../../../c"), "/c");
    assert_eq!(normalize_path("/a", "//b///c/"), "/b/c");
    assert_eq!(normalize_path("a/b", "c"), "/a/b/c");
    assert_eq!(normalize_path("/a/./b/../c", "d"), "/a/c/d");
    assert_eq!(normalize_path("/a", "/.."), "/");
    assert_eq!(normalize_path("/a", "..."), "/a/...");
    assert_eq!(normalize_path("/a", ".b"), "/a/.b");
    assert_eq!(normalize_path("/base", "/x/../y"), "/y");
}

#[test]
fn the_default_context() {
    let c = Context::default();
    assert_eq!(c.runs, vec![DEFAULT_RUN_NUMBER]);
    assert_eq!(c.runs, vec![0]);
    assert_eq!(c.variation, "default");
    assert!(c.timestamp.year() >= 2024);
    let t = parse_timestamp("2020-05-05").unwrap();
    let c = Context::new(Some(vec![4, 5]), Some("mc".to_string()), Some(t));
    assert_eq!(c.runs, vec![4, 5]);
    assert_eq!(c.variation, "mc");
    assert_eq!(c.timestamp, t);
    let c = Context::new(None, None, None);
    assert_eq!(c.runs, vec![0]);
    assert_eq!(c.variation, "default");
}

#[test]
fn contexts_are_built_step_by_step() {
    let t = parse_timestamp("2021").unwrap();
    let c = Context::default().with_run(50).with_variation("mc").with_timestamp(t);
    assert_eq!(c.runs, vec![50]);
    assert_eq!(c.variation, "mc");
    assert_eq!(c.timestamp, t);
    assert_eq!(Context::default().with_run(-5).runs, vec![0]);
    assert_eq!(Context::default().with_run(MAX_RUN_NUMBER + 1).runs, vec![2147483647]);
    assert_eq!(Context::default().with_runs(vec![3, -1, 9999999999, 7]).runs, vec![3, 0, 2147483647, 7]);
    assert_eq!(Context::default().with_runs(Vec::new()).runs, Vec::<i64>::new());
    assert_eq!(Context::default().with_run_range(Some(2), Some(5)).runs, vec![2, 3, 4, 5]);
    assert_eq!(Context::default().with_run_range(Some(5), Some(5)).runs, vec![5]);
    assert_eq!(Context::default().with_run_range(Some(6), Some(5)).runs, Vec::<i64>::new());
    assert_eq!(Context::default().with_run_range(None, Some(2)).runs, vec![0, 1, 2]);
    assert_eq!(Context::default().with_run_range(Some(-7), Some(1)).runs, vec![0, 1]);
    assert_eq!(
        Context::default().with_run_range(Some(2147483645), None).runs,
        vec![2147483645, 2147483646, 2147483647]
    );
    assert_eq!(
        Context::default().with_run_range(Some(2147483646), Some(i64::MAX)).runs,
        vec![2147483646, 2147483647]
    );
    assert_eq!(Context::default().with_run_range(Some(3), Some(-3)).runs, Vec::<i64>::new());
    let kept = Context::default().with_variation("v").with_run_range(Some(1), Some(2));
    assert_eq!(kept.variation, "v");
}

#[test]
fn requests_with_all_parts() {
    let r = Request::from_str("/test/demo/mytable:50:mc:2020-02").unwrap();
    assert_eq!(r.path.full_path(), "/test/demo/mytable");
    assert_eq!(r.context.runs, vec![50]);
    assert_eq!(r.context.variation, "mc");
    assert_eq!(r.context.timestamp.to_text(), "2020-02-29 23:59:59");
    let r = Request::from_str("/t:1:v:2015-12-08 15:47:20").unwrap();
    assert_eq!(r.context.timestamp.to_text(), "2015-12-08 15:47:20");
}

#[test]
fn requests_with_missing_parts() {
    let r = Request::from_str("/a/b").unwrap();
    assert_eq!(r.path.full_path(), "/a/b");
    assert_eq!(r.context.runs, vec![0]);
    assert_eq!(r.context.variation, "default");
    assert!(r.context.timestamp.year() >= 2024);
    let r = Request::from_str("/a/b:").unwrap();
    assert_eq!(r.context.runs, vec![0]);
    let r = Request::from_str("/a/b::mc").unwrap();
    assert_eq!(r.context.runs, vec![0]);
    assert_eq!(r.context.variation, "mc");
    let r = Request::from_str("/a/b:::2019").unwrap();
    assert_eq!(r.context.variation, "default");
    assert_eq!(r.context.timestamp.to_text(), "2019-12-31 23:59:59");
    let r = Request::from_str("/a/b:7::").unwrap();
    assert_eq!(r.context.runs, vec![7]);
    assert_eq!(r.context.variation, "default");
    let r = Request::from_str("/a/b:+7").unwrap();
    assert_eq!(r.context.runs, vec![7]);
    let r = Request::from_str("/a/b:-7").unwrap();
    assert_eq!(r.context.runs, vec![-7]);
}

#[test]
fn requests_that_are_refused() {
    assert!(matches!(
        Request::from_str("a/b:1"),
        Err(ParseRequestError::NamePathError(NamePathError::NotAbsolutePath(t))) if t == "a/b"
    ));
    assert!(matches!(
        Request::from_str("/a b:1"),
        Err(ParseRequestError::NamePathError(NamePathError::IllegalCharacter(t))) if t == "/a b"
    ));
    assert!(matches!(
        Request::from_str(""),
        Err(ParseRequestError::NamePathError(NamePathError::NotAbsolutePath(_)))
    ));
    assert!(matches!(
        Request::from_str("/a:x1"),
        Err(ParseRequestError::InvalidRunNumberError(t)) if t == "x1"
    ));
    assert!(matches!(
        Request::from_str("/a:9223372036854775808"),
        Err(ParseRequestError::InvalidRunNumberError(_))
    ));
    assert!(matches!(
        Request::from_str("/a:1:v:soon"),
        Err(ParseRequestError::TimestampParseError(ParseTimestampError::NoDigits(t))) if t == "soon"
    ));
    assert!(matches!(
        Request::from_str("/a:1:v:2021-02-30"),
        Err(ParseRequestError::TimestampParseError(ParseTimestampError::ChronoError(_)))
    ));
    assert!(matches!(
        Request::from_str("bad:x:v:soon"),
        Err(ParseRequestError::NamePathError(_))
    ));
    assert!(matches!(
        Request::from_str("/a:x:v:soon"),
        Err(ParseRequestError::InvalidRunNumberError(_))
    ));
}
