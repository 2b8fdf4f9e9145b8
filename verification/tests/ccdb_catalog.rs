use gluex::ccdb::catalog::Catalog;
use gluex::ccdb::error::CCDBError;
use gluex::ccdb::models::{DirectoryMeta, TypeTableMeta, VariationMeta};
use gluex::ccdb::context::{NamePathError, ParseRequestError};
use gluex::ccdb::variations::{found_variation, ChainWalk, VariationCache, MAX_CHAIN_LENGTH};

fn directory(id: i64, name: &str, parent_id: i64) -> DirectoryMeta {
    DirectoryMeta { id, name: name.to_string(), parent_id, ..Default::default() }
}

fn table(id: i64, directory_id: i64, name: &str) -> TypeTableMeta {
    TypeTableMeta { id, directory_id, name: name.to_string(), n_rows: 1, n_columns: 2, ..Default::default() }
}

fn variation(id: i64, name: &str, parent_id: i64) -> VariationMeta {
    VariationMeta { id, name: name.to_string(), parent_id, ..Default::default() }
}

fn catalog() -> Catalog {
    Catalog::load(
        vec![
            directory(3, "demo", 2),
            directory(2, "test", 0),
            directory(5, "PHOTON_BEAM", 0),
            directory(6, "lumi", 5),
            directory(9, "orphan", 77),
        ],
        vec![
            table(10, 3, "mytable"),
            table(11, 5, "endpoint_energy"),
            table(12, 0, "top"),
            table(13, 3, "other"),
            table(14, 42, "lost"),
        ],
    )
}

#[test]
fn directories_by_path() {
    let c = catalog();
    assert_eq!(c.dir("/test").unwrap().id(), 2);
    assert_eq!(c.dir("/test/demo").unwrap().id(), 3);
    assert_eq!(c.dir("test/demo/").unwrap().id(), 3);
    assert_eq!(c.dir("/test/./demo/../demo").unwrap().id(), 3);
    assert_eq!(c.dir("/PHOTON_BEAM/lumi").unwrap().name(), "lumi");
    assert_eq!(c.dir("/orphan").unwrap().id(), 9);
    assert_eq!(c.dir("/").unwrap().id(), 0);
    assert_eq!(c.dir("").unwrap().id(), 0);
    assert_eq!(c.dir("/").unwrap().name(), "");
    assert_eq!(c.root().id(), 0);
}

#[test]
fn directories_that_are_not_there() {
    let c = catalog();
    assert!(matches!(c.dir("/nope"), Err(CCDBError::DirectoryNotFoundError(p)) if p == "/nope"));
    assert!(matches!(c.dir("test/../nope/x"), Err(CCDBError::DirectoryNotFoundError(p)) if p == "/nope/x"));
    assert!(matches!(c.dir("/demo"), Err(CCDBError::DirectoryNotFoundError(p)) if p == "/demo"));
    assert!(matches!(c.dir("/."), Err(CCDBError::DirectoryNotFoundError(p)) if p == "/"));
}

#[test]
fn paths_of_directories() {
    let c = catalog();
    assert_eq!(c.directory_path(c.dir("/test/demo").unwrap()), "/test/demo");
    assert_eq!(c.directory_path(c.dir("/test").unwrap()), "/test");
    assert_eq!(c.directory_path(c.root()), "/");
    assert_eq!(c.directory_path(&directory(9, "orphan", 77)), "/orphan");
    assert_eq!(c.directory_path(&directory(50, "new", 6)), "/PHOTON_BEAM/lumi/new");
}

#[test]
fn a_cycle_of_parents_ends() {
    let c = Catalog::load(
        vec![directory(1, "a", 2), directory(2, "b", 1), directory(3, "c", 3)],
        Vec::new(),
    );
    let path = c.directory_path(&directory(1, "a", 2));
    assert_eq!(path, "/b/a/b/a");
    assert_eq!(c.directory_path(&directory(3, "c", 3)), "/c/c/c/c");
    assert_eq!(c.dir("/b/a/b/a").unwrap().id(), 1);
}

#[test]
fn the_last_directory_of_an_identifier_or_a_path_is_found() {
    let c = Catalog::load(
        vec![directory(1, "a", 0), directory(1, "b", 0), directory(2, "x", 1), directory(3, "b", 0)],
        Vec::new(),
    );
    assert_eq!(c.directory_path(&directory(2, "x", 1)), "/b/x");
    assert_eq!(c.dir("/b").unwrap().id(), 3);
    assert_eq!(c.dir("/a").unwrap().id(), 1);
    assert_eq!(c.parent(&directory(2, "x", 1)).unwrap().name(), "b");
}

#[test]
fn parents_and_children() {
    let c = catalog();
    let demo = c.dir("/test/demo").unwrap();
    assert_eq!(c.parent(demo).unwrap().id(), 2);
    assert!(c.parent(c.dir("/test").unwrap()).is_none());
    assert!(c.parent(c.dir("/orphan").unwrap()).is_none());
    assert!(c.parent(c.root()).is_none());
    let top: Vec<i64> = c.dirs(0).iter().map(|d| d.id()).collect();
    assert_eq!(top, vec![2, 5]);
    let below: Vec<i64> = c.dirs(2).iter().map(|d| d.id()).collect();
    assert_eq!(below, vec![3]);
    assert!(c.dirs(3).is_empty());
    let tables: Vec<i64> = c.tables_in(3).iter().map(|t| t.id()).collect();
    assert_eq!(tables, vec![10, 13]);
    assert!(c.tables_in(2).is_empty());
}

#[test]
fn tables_by_path() {
    let c = catalog();
    assert_eq!(c.table("/test/demo/mytable").unwrap().id(), 10);
    assert_eq!(c.table("test/demo/./other").unwrap().id(), 13);
    assert_eq!(c.table("/PHOTON_BEAM/endpoint_energy").unwrap().id(), 11);
    assert_eq!(c.table("/top").unwrap().id(), 12);
    assert_eq!(c.table_in(c.dir("/test/demo").unwrap(), "mytable").unwrap().id(), 10);
    assert_eq!(c.table_in(c.root(), "top").unwrap().name(), "top");
}

#[test]
fn tables_that_are_not_there() {
    let c = catalog();
    assert!(matches!(c.table("/"), Err(CCDBError::InvalidPathError(p)) if p == "/"));
    assert!(matches!(c.table(""), Err(CCDBError::InvalidPathError(p)) if p == "/"));
    assert!(matches!(c.table("/a/.."), Err(CCDBError::InvalidPathError(p)) if p == "/"));
    assert!(matches!(
        c.table("/nope/mytable"),
        Err(CCDBError::DirectoryNotFoundError(p)) if p == "/nope"
    ));
    assert!(matches!(
        c.table("/test/demo/nope"),
        Err(CCDBError::TableNotFoundError(p)) if p == "/test/demo/nope"
    ));
    assert!(matches!(
        c.table("/test/mytable"),
        Err(CCDBError::TableNotFoundError(p)) if p == "/test/mytable"
    ));
    assert!(matches!(c.table("/nope"), Err(CCDBError::TableNotFoundError(p)) if p == "//nope"));
    assert!(matches!(
        c.table_in(c.dir("/test").unwrap(), "demo"),
        Err(CCDBError::TableNotFoundError(p)) if p == "/test/demo"
    ));
}

#[test]
fn the_last_table_of_a_name_is_found() {
    let c = Catalog::load(
        vec![directory(1, "a", 0)],
        vec![table(10, 1, "t"), table(11, 1, "t"), table(12, 2, "t")],
    );
    assert_eq!(c.table("/a/t").unwrap().id(), 11);
}

#[test]
fn paths_of_tables() {
    let c = catalog();
    assert_eq!(c.table_path(c.table("/test/demo/mytable").unwrap()), "/test/demo/mytable");
    assert_eq!(c.table_path(&table(14, 42, "lost")), "/lost");
    assert_eq!(c.table_path(&table(12, 0, "top")), "/top");
}

#[test]
fn directories_seen_from_a_directory() {
    let c = catalog();
    let demo = c.dir("/test/demo").unwrap();
    assert_eq!(c.dir_from(demo, "..").unwrap().id(), 2);
    assert_eq!(c.dir_from(demo, "../../PHOTON_BEAM/lumi").unwrap().id(), 6);
    assert_eq!(c.dir_from(demo, "/PHOTON_BEAM").unwrap().id(), 5);
    assert_eq!(c.dir_from(demo, ".").unwrap().id(), 3);
    assert_eq!(c.dir_from(demo, "../..").unwrap().id(), 0);
    assert!(matches!(
        c.dir_from(demo, "below"),
        Err(CCDBError::DirectoryNotFoundError(p)) if p == "/test/demo/below"
    ));
}

#[test]
fn an_empty_catalog() {
    let c = Catalog::load(Vec::new(), Vec::new());
    assert_eq!(c.dir("/").unwrap().id(), 0);
    assert!(c.dir("/a").is_err());
    assert!(c.dirs(0).is_empty());
    assert!(matches!(c.table("/t"), Err(CCDBError::TableNotFoundError(_))));
}

#[test]
fn variations_are_remembered() {
    let cache = VariationCache::new();
    assert!(cache.variation("default").is_none());
    assert!(cache.chain(1).is_none());
    let cache = cache.remember_variation(variation(1, "default", 0));
    let cache = cache.remember_variation(variation(2, "mc", 1));
    assert_eq!(cache.variation("default").unwrap().id(), 1);
    assert_eq!(cache.variation("mc").unwrap().parent_id(), 1);
    assert!(cache.variation("MC").is_none());
    let cache = cache.remember_variation(variation(7, "mc", 3));
    assert_eq!(cache.variation("mc").unwrap().id(), 7);
    assert_eq!(cache.variation("default").unwrap().id(), 1);
    let cache = cache.remember_chain(2, vec![variation(2, "mc", 1), variation(1, "default", 0)]);
    let cache = cache.remember_chain(1, vec![variation(1, "default", 0)]);
    let chain: Vec<i64> = cache.chain(2).unwrap().iter().map(|v| v.id()).collect();
    assert_eq!(chain, vec![2, 1]);
    assert_eq!(cache.chain(1).unwrap().len(), 1);
    assert!(cache.chain(3).is_none());
    let cache = cache.remember_chain(2, vec![variation(2, "mc", 0)]);
    assert_eq!(cache.chain(2).unwrap().len(), 1);
    assert_eq!(cache.variation("mc").unwrap().id(), 7);
}

fn walk(all: &[VariationMeta], start: VariationMeta) -> Vec<i64> {
    let mut w = ChainWalk::start(start);
    while let Some(id) = w.next_parent() {
        let found = all.iter().find(|v| v.id() == id).cloned();
        w = w.supply(found);
    }
    w.finish().iter().map(|v| v.id()).collect()
}

#[test]
fn chains_go_up_to_the_root() {
    let all = vec![variation(1, "default", 0), variation(2, "parent", 1), variation(3, "child", 2)];
    assert_eq!(walk(&all, variation(3, "child", 2)), vec![3, 2, 1]);
    assert_eq!(walk(&all, variation(1, "default", 0)), vec![1]);
    assert_eq!(walk(&all, variation(9, "loose", 42)), vec![9]);
    assert_eq!(walk(&all, variation(9, "negative", -1)), vec![9]);
}

#[test]
fn a_walk_that_wants_nothing_changes_nothing() {
    let w = ChainWalk::start(variation(1, "default", 0));
    assert_eq!(w.next_parent(), None);
    let w = w.supply(Some(variation(5, "stray", 0)));
    assert_eq!(w.finish().len(), 1);
    let w = ChainWalk::start(variation(2, "child", 1));
    assert_eq!(w.next_parent(), Some(1));
    let w = w.supply(None);
    assert_eq!(w.next_parent(), None);
    let w = w.supply(Some(variation(1, "late", 0)));
    assert_eq!(w.finish().len(), 1);
}

#[test]
fn a_cycle_of_variations_ends() {
    let all = vec![variation(1, "a", 2), variation(2, "b", 1)];
    let chain = walk(&all, variation(1, "a", 2));
    assert_eq!(chain.len(), MAX_CHAIN_LENGTH);
    assert_eq!(&chain[..4], &[1, 2, 1, 2]);
}

#[test]
fn a_variation_that_was_not_found() {
    assert_eq!(found_variation("mc", Some(variation(2, "mc", 1))).unwrap().id(), 2);
    assert!(matches!(
        found_variation("mc", None),
        Err(CCDBError::VariationNotFoundError(name)) if name == "mc"
    ));
}

#[test]
fn requests_name_a_table_and_a_context() {
    let c = catalog();
    let (table, context) = c.request("/test/demo/mytable:50:mc:2020-02").unwrap();
    assert_eq!(table.id(), 10);
    assert_eq!(context.runs, vec![50]);
    assert_eq!(context.variation, "mc");
    assert_eq!(context.timestamp.to_text(), "2020-02-29 23:59:59");
    let (table, context) = c.request("/top").unwrap();
    assert_eq!(table.id(), 12);
    assert_eq!(context.runs, vec![0]);
    assert_eq!(context.variation, "default");
}

#[test]
fn requests_that_name_nothing() {
    let c = catalog();
    assert!(matches!(
        c.request("test/demo/mytable"),
        Err(CCDBError::ParseRequestError(ParseRequestError::NamePathError(NamePathError::NotAbsolutePath(_))))
    ));
    assert!(matches!(
        c.request("/nope/mytable:x"),
        Err(CCDBError::ParseRequestError(ParseRequestError::InvalidRunNumberError(t))) if t == "x"
    ));
    assert!(matches!(
        c.request("/nope/mytable:1"),
        Err(CCDBError::DirectoryNotFoundError(p)) if p == "/nope"
    ));
    assert!(matches!(
        c.request("/test/demo/nope:1"),
        Err(CCDBError::TableNotFoundError(p)) if p == "/test/demo/nope"
    ));
    assert!(matches!(c.request("/:1"), Err(CCDBError::InvalidPathError(p)) if p == "/"));
}
