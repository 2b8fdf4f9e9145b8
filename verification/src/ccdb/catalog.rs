//! The directories and tables of a calibration database, found by
//! identifier, by path and by name.

use vstd::prelude::*;
use crate::ccdb::context::{is_context_of, is_request_reading, request_fault, request_piece, Context, Request};
use crate::ccdb::error::CCDBError;
use crate::ccdb::index::{get_id, get_text, id_key, index_entries, index_get, index_insert, index_new, put_id, put_text, text_key, Index};
use crate::ccdb::models::{DirectoryMeta, TypeTableMeta};
use crate::ccdb::paths::{find_last_piece, last_piece_start, normalize_path, normalized};
use crate::text::{append_chars, append_str, chars_of, join, join_chars, same_text, string_of, views};
use crate::Id;

verus! {

/// The place of the last of the first `n` directories with identifier
/// `id`, or -1.
pub open spec fn directory_index(dirs: Seq<DirectoryMeta>, id: Id, n: nat) -> int
    decreases n,
{
    if n == 0 || n > dirs.len() {
        -1
    } else if dirs[n - 1].id == id {
        n - 1
    } else {
        directory_index(dirs, id, (n - 1) as nat)
    }
}

/// The names from the topmost known ancestor of `d` down to `d` itself.
/// The walk upwards ends at a directory whose parent is the root or is not
/// known, and after `fuel` steps at the latest.
pub open spec fn ancestry(dirs: Seq<DirectoryMeta>, d: DirectoryMeta, fuel: nat) -> Seq<Seq<char>>
    decreases fuel,
{
    let parent = directory_index(dirs, d.parent_id, dirs.len());
    if d.parent_id == 0 || parent < 0 || fuel == 0 {
        seq![d.name@]
    } else {
        ancestry(dirs, dirs[parent], (fuel - 1) as nat).push(d.name@)
    }
}

/// The path of the directory `d`: `/` for the root, whose identifier is 0;
/// else the names of its ancestry, each behind a `/`. A chain of parents
/// longer than the number of directories is cut.
pub open spec fn directory_path(dirs: Seq<DirectoryMeta>, d: DirectoryMeta) -> Seq<char> {
    if d.id == 0 {
        "/"@
    } else {
        "/"@ + join(ancestry(dirs, d, dirs.len()), "/"@)
    }
}

/// The place of the last of the first `n` directories with path `path`, or
/// -1.
pub open spec fn path_index(dirs: Seq<DirectoryMeta>, path: Seq<char>, n: nat) -> int
    decreases n,
{
    if n == 0 || n > dirs.len() {
        -1
    } else if directory_path(dirs, dirs[n - 1]) == path {
        n - 1
    } else {
        path_index(dirs, path, (n - 1) as nat)
    }
}

/// The place of the last of the first `n` tables called `name` in the
/// directory `dir`, or -1.
pub open spec fn table_index(tables: Seq<TypeTableMeta>, dir: Id, name: Seq<char>, n: nat) -> int
    decreases n,
{
    if n == 0 || n > tables.len() {
        -1
    } else if tables[n - 1].directory_id == dir && tables[n - 1].name@ == name {
        n - 1
    } else {
        table_index(tables, dir, name, (n - 1) as nat)
    }
}

/// The places of those of the first `n` directories whose parent has the
/// identifier `id`, in ascending order.
pub open spec fn child_places(dirs: Seq<DirectoryMeta>, id: Id, n: nat) -> Seq<int>
    decreases n,
{
    if n == 0 || n > dirs.len() {
        Seq::<int>::empty()
    } else if dirs[n - 1].parent_id == id {
        child_places(dirs, id, (n - 1) as nat).push(n - 1)
    } else {
        child_places(dirs, id, (n - 1) as nat)
    }
}

/// The places of those of the first `n` tables that lie in the directory
/// with identifier `id`, in ascending order.
pub open spec fn table_places(tables: Seq<TypeTableMeta>, id: Id, n: nat) -> Seq<int>
    decreases n,
{
    if n == 0 || n > tables.len() {
        Seq::<int>::empty()
    } else if tables[n - 1].directory_id == id {
        table_places(tables, id, (n - 1) as nat).push(n - 1)
    } else {
        table_places(tables, id, (n - 1) as nat)
    }
}

/// What the three searches find is a place of what was looked for.
pub proof fn lemma_indices(dirs: Seq<DirectoryMeta>, tables: Seq<TypeTableMeta>, id: Id, path: Seq<char>, name: Seq<char>, n: nat)
    ensures
        -1 <= directory_index(dirs, id, n) < dirs.len(),
        directory_index(dirs, id, n) >= 0 ==> dirs[directory_index(dirs, id, n)].id == id,
        -1 <= path_index(dirs, path, n) < dirs.len(),
        path_index(dirs, path, n) >= 0 ==> directory_path(dirs, dirs[path_index(dirs, path, n)])
            == path,
        -1 <= table_index(tables, id, name, n) < tables.len(),
        table_index(tables, id, name, n) >= 0 ==> tables[table_index(tables, id, name, n)].directory_id
            == id && tables[table_index(tables, id, name, n)].name@ == name,
    decreases n,
{
    if n > 0 {
        lemma_indices(dirs, tables, id, path, name, (n - 1) as nat);
    }
}

spec fn id_index_matches(m: Index, dirs: Seq<DirectoryMeta>, n: nat) -> bool {
    forall|id: i64|
        (#[trigger] index_entries(m).contains_key(id_key(id)) <==> directory_index(dirs, id, n) >= 0) && (
        index_entries(m).contains_key(id_key(id)) ==> index_entries(m)[id_key(id)] == directory_index(
            dirs,
            id,
            n,
        ))
}

spec fn path_index_matches(m: Index, dirs: Seq<DirectoryMeta>, n: nat) -> bool {
    forall|path: Seq<char>|
        (#[trigger] index_entries(m).contains_key(text_key(path)) <==> path_index(dirs, path, n) >= 0) && (
        index_entries(m).contains_key(text_key(path)) ==> index_entries(m)[text_key(path)] == path_index(
            dirs,
            path,
            n,
        ))
}

spec fn table_index_matches(m: Index, tables: Seq<TypeTableMeta>, n: nat) -> bool {
    forall|key: (i64, Seq<char>)|
        (#[trigger] index_entries(m).contains_key(key) <==> table_index(tables, key.0, key.1, n)
            >= 0) && (index_entries(m).contains_key(key) ==> index_entries(m)[key]
            == table_index(tables, key.0, key.1, n))
}

fn ancestry_of(dirs: &Vec<DirectoryMeta>, by_id: &Index, d: &DirectoryMeta, fuel: usize) -> (names:
    Vec<Vec<char>>)
    requires
        id_index_matches(*by_id, dirs@, dirs@.len()),
    ensures
        views(names@) == ancestry(dirs@, *d, fuel as nat),
    decreases fuel,
{
    let mut names: Vec<Vec<char>> = Vec::new();
    if d.parent_id != 0 && fuel > 0 {
        assert(index_entries(*by_id).contains_key(id_key(d.parent_id)) <==> directory_index(
            dirs@,
            d.parent_id,
            dirs@.len(),
        ) >= 0);
        match get_id(by_id, d.parent_id) {
            Some(parent) => {
                proof {
                    lemma_indices(
                        dirs@,
                        Seq::<TypeTableMeta>::empty(),
                        d.parent_id,
                        Seq::<char>::empty(),
                        Seq::<char>::empty(),
                        dirs@.len(),
                    );
                }
                names = ancestry_of(dirs, by_id, &dirs[parent], fuel - 1);
            },
            None => {},
        }
    }
    let ghost above = views(names@);
    names.push(chars_of(d.name.as_str()));
    assert(views(names@) == above.push(d.name@));
    names
}

fn path_of_directory(dirs: &Vec<DirectoryMeta>, by_id: &Index, d: &DirectoryMeta) -> (path:
    String)
    requires
        id_index_matches(*by_id, dirs@, dirs@.len()),
    ensures
        path@ == directory_path(dirs@, *d),
{
    let mut out = chars_of("/");
    if d.id != 0 {
        let names = ancestry_of(dirs, by_id, d, dirs.len());
        let slash = chars_of("/");
        let joined = join_chars(&names, &slash);
        append_chars(&mut out, &joined);
    }
    string_of(&out)
}

/// Why a path names no table.
pub enum TableFault {
    /// The normal form of the path, which has no last segment.
    InvalidPath(Seq<char>),
    /// The path of the directory that is missing.
    NoDirectory(Seq<char>),
    /// The path of the table that is missing.
    NoTable(Seq<char>),
}

/// Whether the error `e` reports the fault `f`.
pub open spec fn reports_table_fault(e: CCDBError, f: TableFault) -> bool {
    match f {
        TableFault::InvalidPath(path) => e matches CCDBError::InvalidPathError(text) && text@ == path,
        TableFault::NoDirectory(path) => e matches CCDBError::DirectoryNotFoundError(text) && text@
            == path,
        TableFault::NoTable(path) => e matches CCDBError::TableNotFoundError(text) && text@ == path,
    }
}

/// The metadata cache: every directory and table of a database.
pub struct Catalog {
    root: DirectoryMeta,
    directories: Vec<DirectoryMeta>,
    tables: Vec<TypeTableMeta>,
    by_id: Index,
    by_path: Index,
    by_dir_name: Index,
}

impl Catalog {
    #[verifier::type_invariant]
    spec fn indexed(self) -> bool {
        &&& self.root.id == 0
        &&& self.root.parent_id == 0
        &&& self.root.name@.len() == 0
        &&& id_index_matches(self.by_id, self.directories@, self.directories@.len())
        &&& path_index_matches(self.by_path, self.directories@, self.directories@.len())
        &&& table_index_matches(self.by_dir_name, self.tables@, self.tables@.len())
    }

    /// The directories in the order in which they were loaded.
    pub closed spec fn directories(&self) -> Seq<DirectoryMeta> {
        self.directories@
    }

    /// The tables in the order in which they were loaded.
    pub closed spec fn tables(&self) -> Seq<TypeTableMeta> {
        self.tables@
    }

    /// The root directory: a virtual directory with identifier 0 and no
    /// name.
    pub closed spec fn root_meta(&self) -> DirectoryMeta {
        self.root
    }

    /// The directory that `path` names: the root for `/` and for the empty
    /// path, else the last directory whose path is the normal form of
    /// `path`.
    pub open spec fn directory_at(&self, path: Seq<char>) -> Option<DirectoryMeta> {
        if path == "/"@ || path.len() == 0 {
            Some(self.root_meta())
        } else {
            let at = path_index(
                self.directories(),
                normalized("/"@, path),
                self.directories().len(),
            );
            if at >= 0 {
                Some(self.directories()[at])
            } else {
                None
            }
        }
    }

    /// The last table called `name` in the directory `dir`.
    pub open spec fn table_in_directory(&self, dir: Id, name: Seq<char>) -> Option<TypeTableMeta> {
        let at = table_index(self.tables(), dir, name, self.tables().len());
        if at >= 0 {
            Some(self.tables()[at])
        } else {
            None
        }
    }

    /// The table that `path` names: the last segment of its normal form is
    /// the name of the table, what stands before it the path of the
    /// directory.
    pub open spec fn table_of_path(&self, path: Seq<char>) -> Option<TypeTableMeta> {
        let norm = normalized("/"@, path);
        let cut = last_piece_start(norm, '/');
        let name = norm.skip(cut as int);
        if name.len() == 0 {
            None
        } else {
            match self.directory_at(norm.take(cut - 1)) {
                None => None,
                Some(dir) => self.table_in_directory(dir.id, name),
            }
        }
    }

    /// Why `path` names no table, if it names none: its normal form has no
    /// last segment, or no directory has the path in front of the last
    /// segment, or that directory has no table of that name.
    pub open spec fn table_fault(&self, path: Seq<char>) -> Option<TableFault> {
        let norm = normalized("/"@, path);
        let cut = last_piece_start(norm, '/');
        let name = norm.skip(cut as int);
        let front = norm.take(cut - 1);
        if name.len() == 0 {
            Some(TableFault::InvalidPath(norm))
        } else {
            match self.directory_at(front) {
                None => Some(TableFault::NoDirectory(normalized("/"@, front))),
                Some(dir) => match self.table_in_directory(dir.id, name) {
                    Some(_) => None,
                    None => Some(
                        TableFault::NoTable(directory_path(self.directories(), dir) + "/"@ + name),
                    ),
                },
            }
        }
    }

    /// Builds the cache from the rows of the directory and table tables.
    pub fn load(directories: Vec<DirectoryMeta>, tables: Vec<TypeTableMeta>) -> (c: Catalog)
        ensures
            c.directories() == directories@,
            c.tables() == tables@,
            c.root_meta().id == 0,
            c.root_meta().parent_id == 0,
            c.root_meta().name@.len() == 0,
    {
        let mut by_id = index_new();
        let mut i: usize = 0;
        while i < directories.len()
            invariant
                i <= directories.len(),
                id_index_matches(by_id, directories@, i as nat),
            decreases directories.len() - i,
        {
            put_id(&mut by_id, directories[i].id, i);
            i += 1;
        }
        let mut by_path = index_new();
        let mut j: usize = 0;
        while j < directories.len()
            invariant
                j <= directories.len(),
                id_index_matches(by_id, directories@, directories@.len()),
                path_index_matches(by_path, directories@, j as nat),
            decreases directories.len() - j,
        {
            let path = path_of_directory(&directories, &by_id, &directories[j]);
            put_text(&mut by_path, path, j);
            j += 1;
        }
        let mut by_dir_name = index_new();
        let mut k: usize = 0;
        while k < tables.len()
            invariant
                k <= tables.len(),
                table_index_matches(by_dir_name, tables@, k as nat),
            decreases tables.len() - k,
        {
            index_insert(&mut by_dir_name, tables[k].directory_id, tables[k].name.clone(), k);
            k += 1;
        }
        let root = DirectoryMeta {
            id: 0,
            created: String::new(),
            modified: String::new(),
            name: String::new(),
            parent_id: 0,
            author_id: 0,
            comment: String::new(),
            is_deprecated: false,
            deprecated_by_user_id: 0,
            is_locked: false,
            locked_by_user_id: 0,
        };
        Catalog { root, directories, tables, by_id, by_path, by_dir_name }
    }

    /// The root directory.
    pub fn root(&self) -> (d: &DirectoryMeta)
        ensures
            *d == self.root_meta(),
            d.id == 0,
            d.name@.len() == 0,
    {
        proof {
            use_type_invariant(self);
        }
        &self.root
    }

    /// The path of a directory.
    pub fn directory_path(&self, d: &DirectoryMeta) -> (path: String)
        ensures
            path@ == directory_path(self.directories(), *d),
    {
        proof {
            use_type_invariant(self);
        }
        path_of_directory(&self.directories, &self.by_id, d)
    }

    /// The directory that `path` names.
    pub fn dir(&self, path: &str) -> (r: Result<&DirectoryMeta, CCDBError>)
        ensures
            match self.directory_at(path@) {
                Some(d) => r matches Ok(found) && *found == d,
                None => r matches Err(CCDBError::DirectoryNotFoundError(text)) && text@
                    == normalized("/"@, path@),
            },
    {
        proof {
            use_type_invariant(self);
        }
        if same_text(path, "/") || path.is_empty() {
            return Ok(&self.root);
        }
        let norm = normalize_path("/", path);
        assert(index_entries(self.by_path).contains_key(text_key(norm@)) <==> path_index(
            self.directories@,
            norm@,
            self.directories@.len(),
        ) >= 0);
        match get_text(&self.by_path, norm.as_str()) {
            Some(at) => {
                proof {
                    lemma_indices(
                        self.directories@,
                        self.tables@,
                        0,
                        norm@,
                        Seq::<char>::empty(),
                        self.directories@.len(),
                    );
                }
                Ok(&self.directories[at])
            },
            None => Err(CCDBError::DirectoryNotFoundError(norm)),
        }
    }

    /// The directory that `path` names when seen from the directory `from`.
    pub fn dir_from(&self, from: &DirectoryMeta, path: &str) -> (r: Result<&DirectoryMeta, CCDBError>)
        ensures
            ({
                let target = normalized(directory_path(self.directories(), *from), path@);
                match self.directory_at(target) {
                    Some(d) => r matches Ok(found) && *found == d,
                    None => r matches Err(CCDBError::DirectoryNotFoundError(text)) && text@
                        == normalized("/"@, target),
                }
            }),
    {
        let base = self.directory_path(from);
        let target = normalize_path(base.as_str(), path);
        self.dir(target.as_str())
    }

    /// The parent of a directory, where it is known and not the root.
    pub fn parent(&self, d: &DirectoryMeta) -> (r: Option<&DirectoryMeta>)
        ensures
            ({
                let at = directory_index(self.directories(), d.parent_id, self.directories().len());
                if d.parent_id == 0 || at < 0 {
                    r is None
                } else {
                    r matches Some(p) && *p == self.directories()[at]
                }
            }),
    {
        proof {
            use_type_invariant(self);
        }
        if d.parent_id == 0 {
            return None;
        }
        assert(index_entries(self.by_id).contains_key(id_key(d.parent_id)) <==> directory_index(
            self.directories@,
            d.parent_id,
            self.directories@.len(),
        ) >= 0);
        match get_id(&self.by_id, d.parent_id) {
            Some(at) => {
                proof {
                    lemma_indices(
                        self.directories@,
                        self.tables@,
                        d.parent_id,
                        Seq::<char>::empty(),
                        Seq::<char>::empty(),
                        self.directories@.len(),
                    );
                }
                Some(&self.directories[at])
            },
            None => None,
        }
    }

    /// The directories directly below the directory with identifier `id`,
    /// in the order in which they were loaded.
    pub fn dirs(&self, id: Id) -> (r: Vec<&DirectoryMeta>)
        ensures
            r@.len() == child_places(self.directories(), id, self.directories().len()).len(),
            forall|i: int|
                0 <= i < r@.len() ==> *(#[trigger] r@[i]) == self.directories()[child_places(
                    self.directories(),
                    id,
                    self.directories().len(),
                )[i]],
    {
        let mut found: Vec<&DirectoryMeta> = Vec::new();
        let mut k: usize = 0;
        while k < self.directories.len()
            invariant
                k <= self.directories.len(),
                found@.len() == child_places(self.directories@, id, k as nat).len(),
                forall|i: int|
                    0 <= i < found@.len() ==> *(#[trigger] found@[i]) == self.directories@[child_places(
                        self.directories@,
                        id,
                        k as nat,
                    )[i]],
            decreases self.directories.len() - k,
        {
            if self.directories[k].parent_id == id {
                found.push(&self.directories[k]);
            }
            k += 1;
        }
        found
    }

    /// The tables of the directory with identifier `id`, in the order in
    /// which they were loaded.
    pub fn tables_in(&self, id: Id) -> (r: Vec<&TypeTableMeta>)
        ensures
            r@.len() == table_places(self.tables(), id, self.tables().len()).len(),
            forall|i: int|
                0 <= i < r@.len() ==> *(#[trigger] r@[i]) == self.tables()[table_places(
                    self.tables(),
                    id,
                    self.tables().len(),
                )[i]],
    {
        let mut found: Vec<&TypeTableMeta> = Vec::new();
        let mut k: usize = 0;
        while k < self.tables.len()
            invariant
                k <= self.tables.len(),
                found@.len() == table_places(self.tables@, id, k as nat).len(),
                forall|i: int|
                    0 <= i < found@.len() ==> *(#[trigger] found@[i]) == self.tables@[table_places(
                        self.tables@,
                        id,
                        k as nat,
                    )[i]],
            decreases self.tables.len() - k,
        {
            if self.tables[k].directory_id == id {
                found.push(&self.tables[k]);
            }
            k += 1;
        }
        found
    }

    /// The table called `name` in the directory `dir`.
    pub fn table_in(&self, dir: &DirectoryMeta, name: &str) -> (r: Result<&TypeTableMeta, CCDBError>)
        ensures
            match self.table_in_directory(dir.id, name@) {
                Some(t) => r matches Ok(found) && *found == t,
                None => r matches Err(CCDBError::TableNotFoundError(text)) && text@
                    == directory_path(self.directories(), *dir) + "/"@ + name@,
            },
    {
        proof {
            use_type_invariant(self);
        }
        assert(index_entries(self.by_dir_name).contains_key((dir.id, name@)) <==> table_index(
            self.tables@,
            dir.id,
            name@,
            self.tables@.len(),
        ) >= 0);
        match index_get(&self.by_dir_name, dir.id, name.to_owned()) {
            Some(at) => {
                proof {
                    lemma_indices(
                        self.directories@,
                        self.tables@,
                        dir.id,
                        Seq::<char>::empty(),
                        name@,
                        self.tables@.len(),
                    );
                }
                Ok(&self.tables[at])
            },
            None => {
                let mut out = chars_of(self.directory_path(dir).as_str());
                append_str(&mut out, "/");
                append_str(&mut out, name);
                Err(CCDBError::TableNotFoundError(string_of(&out)))
            },
        }
    }

    /// The table that `path` names: its last segment is the name of the
    /// table, what stands before it the path of the directory.
    pub fn table(&self, path: &str) -> (r: Result<&TypeTableMeta, CCDBError>)
        ensures
            match self.table_fault(path@) {
                Some(fault) => r matches Err(e) && reports_table_fault(e, fault),
                None => r matches Ok(found) && Some(*found) == self.table_of_path(path@),
            },
    {
        let norm = normalize_path("/", path);
        let chars = chars_of(norm.as_str());
        let cut = find_last_piece(&chars, '/');
        if cut == chars.len() || cut == 0 {
            proof {
                lemma_normal_form_is_absolute("/"@, path@);
                crate::ccdb::paths::lemma_last_piece_after_slash(chars@, '/');
            }
            return Err(CCDBError::InvalidPathError(norm));
        }
        let name = norm.as_str().substring_char(cut, chars.len());
        let front = norm.as_str().substring_char(0, cut - 1);
        assert(name@ == chars@.skip(cut as int));
        assert(front@ == chars@.take(cut - 1));
        let dir = match self.dir(front) {
            Ok(d) => d,
            Err(e) => {
                return Err(e);
            },
        };
        self.table_in(dir, name)
    }

    /// The table and the context that the request `request` names, of the
    /// form `path[:run[:variation[:timestamp]]]`. A request that cannot be
    /// read is reported before a table that cannot be found.
    pub fn request(&self, request: &str) -> (r: Result<(&TypeTableMeta, Context), CCDBError>)
        ensures
            match request_fault(request@) {
                Some(_) => r matches Err(CCDBError::ParseRequestError(e)) && is_request_reading(
                    Err(e),
                    request@,
                ),
                None => match self.table_fault(request_piece(request@, 0)) {
                    Some(fault) => r matches Err(e) && reports_table_fault(e, fault),
                    None => r matches Ok((table, context)) && Some(*table) == self.table_of_path(
                        request_piece(request@, 0),
                    ) && is_context_of(context, request@),
                },
            },
    {
        let parsed = match Request::from_str(request) {
            Ok(parsed) => parsed,
            Err(e) => {
                return Err(CCDBError::ParseRequestError(e));
            },
        };
        let Request { path, context } = parsed;
        match self.table(path.full_path()) {
            Ok(table) => Ok((table, context)),
            Err(e) => Err(e),
        }
    }

    /// The path of a table: that of its directory, a `/` unless the path
    /// ends with one, and the name of the table. A table whose directory is
    /// not known has the path `/name`.
    pub fn table_path(&self, table: &TypeTableMeta) -> (path: String)
        ensures
            ({
                let at = directory_index(
                    self.directories(),
                    table.directory_id,
                    self.directories().len(),
                );
                if at < 0 {
                    path@ == "/"@ + table.name@
                } else {
                    let dir = directory_path(self.directories(), self.directories()[at]);
                    path@ == (if dir.len() > 0 && dir.last() == '/' {
                        dir
                    } else {
                        dir + "/"@
                    }) + table.name@
                }
            }),
    {
        proof {
            use_type_invariant(self);
        }
        assert(index_entries(self.by_id).contains_key(id_key(table.directory_id)) <==> directory_index(
            self.directories@,
            table.directory_id,
            self.directories@.len(),
        ) >= 0);
        match get_id(&self.by_id, table.directory_id) {
            Some(at) => {
                proof {
                    lemma_indices(
                        self.directories@,
                        self.tables@,
                        table.directory_id,
                        Seq::<char>::empty(),
                        Seq::<char>::empty(),
                        self.directories@.len(),
                    );
                }
                let mut out = chars_of(self.directory_path(&self.directories[at]).as_str());
                if out.len() == 0 || out[out.len() - 1] != '/' {
                    append_str(&mut out, "/");
                }
                append_str(&mut out, table.name.as_str());
                string_of(&out)
            },
            None => {
                let mut out = chars_of("/");
                append_str(&mut out, table.name.as_str());
                string_of(&out)
            },
        }
    }
}

/// A normal form begins with `/`.
pub proof fn lemma_normal_form_is_absolute(base: Seq<char>, path: Seq<char>)
    ensures
        normalized(base, path).len() > 0,
        normalized(base, path)[0] == '/',
{
    reveal_strlit("/");
}

} // verus!
