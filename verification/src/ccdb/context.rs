//! What a request for calibration constants says: the table, the runs, the
//! variation and the instant as of which assignments count.

use vstd::prelude::*;
use crate::ccdb::paths::{find_last_piece, lemma_last_piece};
use crate::numbers::{parse_int_in, read_int};
use crate::text::{chars_of, join, join_chars, same_text, split, split_chars, string_of, views};
use crate::timestamp::{is_reading_of, parse_timestamp, read_timestamp, ParseTimestampError, Reading, Timestamp};
use crate::RunNumber;

verus! {

/// The absolute path of a table, made of ASCII letters, digits, `/`, `_`
/// and `-`.
#[derive(Debug, Clone)]
pub struct NamePath(pub String);

/// Why a text is no table path.
#[derive(Debug, Clone)]
pub enum NamePathError {
    /// The text does not begin with `/`.
    NotAbsolutePath(String),
    /// The text holds a character that a path may not hold.
    IllegalCharacter(String),
}

/// Whether a path may hold `c`.
pub open spec fn is_path_char(c: char) -> bool {
    ('a' <= c && c <= 'z') || ('A' <= c && c <= 'Z') || ('0' <= c && c <= '9') || c == '/' || c
        == '_' || c == '-'
}

/// Whether `s` is a table path: it begins with `/` and holds only
/// characters that a path may hold.
pub open spec fn is_name_path(s: Seq<char>) -> bool {
    s.len() > 0 && s[0] == '/' && forall|i: int| 0 <= i < s.len() ==> is_path_char(#[trigger] s[i])
}

/// Whether `r` is what reading `s` as a table path must return.
pub open spec fn is_path_reading(r: Result<NamePath, NamePathError>, s: Seq<char>) -> bool {
    if s.len() == 0 || s[0] != '/' {
        r matches Err(NamePathError::NotAbsolutePath(text)) && text@ == s
    } else if !is_name_path(s) {
        r matches Err(NamePathError::IllegalCharacter(text)) && text@ == s
    } else {
        r matches Ok(path) && path.0@ == s
    }
}

/// The text of `s` in front of the `/` before its last segment, or `/`
/// where nothing stands there.
pub open spec fn parent_text(s: Seq<char>) -> Seq<char> {
    let front = join(split(s, '/').drop_last(), "/"@);
    if front.len() == 0 {
        "/"@
    } else {
        front
    }
}

fn path_char(c: char) -> (r: bool)
    ensures
        r == is_path_char(c),
{
    (c >= 'a' && c <= 'z') || (c >= 'A' && c <= 'Z') || (c >= '0' && c <= '9') || c == '/' || c
        == '_' || c == '-'
}

impl NamePath {
    /// Reads a table path.
    pub fn from_str(s: &str) -> (r: Result<NamePath, NamePathError>)
        ensures
            is_path_reading(r, s@),
    {
        let chars = chars_of(s);
        if chars.len() == 0 || chars[0] != '/' {
            return Err(NamePathError::NotAbsolutePath(string_of(&chars)));
        }
        let mut i: usize = 0;
        while i < chars.len()
            invariant
                i <= chars.len(),
                chars@ == s@,
                chars@.len() > 0 && chars@[0] == '/',
                forall|k: int| 0 <= k < i ==> is_path_char(#[trigger] chars@[k]),
            decreases chars.len() - i,
        {
            if !path_char(chars[i]) {
                assert(!is_path_char(s@[i as int]));
                return Err(NamePathError::IllegalCharacter(string_of(&chars)));
            }
            i += 1;
        }
        Ok(NamePath(string_of(&chars)))
    }

    pub fn full_path(&self) -> (r: &str)
        ensures
            r@ == self.0@,
    {
        self.0.as_str()
    }

    /// The last segment of the path.
    pub fn name(&self) -> (r: &str)
        ensures
            r@ == split(self.0@, '/').last(),
    {
        let chars = chars_of(self.0.as_str());
        let start = find_last_piece(&chars, '/');
        proof {
            lemma_last_piece(chars@, '/');
        }
        self.0.as_str().substring_char(start, chars.len())
    }

    /// The path without its last segment; the root has no parent.
    pub fn parent(&self) -> (r: Option<NamePath>)
        ensures
            match r {
                None => self.0@ == "/"@,
                Some(p) => self.0@ != "/"@ && p.0@ == parent_text(self.0@),
            },
    {
        if self.is_root() {
            return None;
        }
        let chars = chars_of(self.0.as_str());
        let start = find_last_piece(&chars, '/');
        proof {
            lemma_last_piece(chars@, '/');
            reveal_strlit("/");
            assert("/"@ == seq!['/']);
            if start == 0 {
                assert(split(chars@, '/').drop_last().len() == 0);
            }
        }
        if start <= 1 {
            assert(parent_text(self.0@) == "/"@) by {
                if start == 1 {
                    assert(chars@.take(0).len() == 0);
                }
            }
            return Some(NamePath("/".to_owned()));
        }
        let front = self.0.as_str().substring_char(0, start - 1);
        assert(front@ == chars@.take(start - 1));
        Some(NamePath(front.to_owned()))
    }

    pub fn is_root(&self) -> (r: bool)
        ensures
            r == (self.0@ == "/"@),
    {
        same_text(self.0.as_str(), "/")
    }
}

/// The run that a request means where it names none.
pub const DEFAULT_RUN_NUMBER: RunNumber = 0;

/// The largest run number.
pub const MAX_RUN_NUMBER: RunNumber = 2_147_483_647;

/// `run`, brought between 0 and the largest run number.
pub open spec fn clamped(run: RunNumber) -> RunNumber {
    if run < 0 {
        0
    } else if run > MAX_RUN_NUMBER {
        MAX_RUN_NUMBER
    } else {
        run
    }
}

/// The runs from `first` to `last`, both included; none where `first` is
/// the larger.
pub open spec fn run_span(first: int, last: int) -> Seq<RunNumber> {
    if first > last {
        Seq::<RunNumber>::empty()
    } else {
        Seq::new((last - first + 1) as nat, |i: int| (first + i) as RunNumber)
    }
}

/// The runs, the variation and the instant of a request.
#[derive(Debug, Clone)]
pub struct Context {
    pub runs: Vec<RunNumber>,
    pub variation: String,
    pub timestamp: Timestamp,
}

fn clamp_run(run: RunNumber) -> (r: RunNumber)
    ensures
        r == clamped(run),
{
    if run < 0 {
        0
    } else if run > MAX_RUN_NUMBER {
        MAX_RUN_NUMBER
    } else {
        run
    }
}

impl Default for Context {
    /// Run 0, the variation `default`, as of now.
    fn default() -> (c: Self)
        ensures
            c.runs@ == seq![DEFAULT_RUN_NUMBER],
            c.variation@ == "default"@,
            c.timestamp@.on_calendar(),
    {
        let mut runs: Vec<RunNumber> = Vec::new();
        runs.push(DEFAULT_RUN_NUMBER);
        Context { runs, variation: "default".to_owned(), timestamp: Timestamp::now() }
    }
}

impl Context {
    /// The context with the given parts; a missing one is that of the
    /// default context.
    pub fn new(runs: Option<Vec<RunNumber>>, variation: Option<String>, timestamp: Option<Timestamp>) -> (c:
        Context)
        ensures
            c.runs@ == match runs {
                Some(list) => list@,
                None => seq![DEFAULT_RUN_NUMBER],
            },
            c.variation@ == match variation {
                Some(name) => name@,
                None => "default"@,
            },
            timestamp matches Some(t) ==> c.timestamp == t,
            c.timestamp@.on_calendar(),
    {
        let mut context = Context::default();
        if let Some(list) = runs {
            context.runs = list;
        }
        if let Some(name) = variation {
            context.variation = name;
        }
        if let Some(t) = timestamp {
            t.on_calendar_witness();
            context.timestamp = t;
        }
        context
    }

    /// The context for one run, brought into the range of run numbers.
    pub fn with_run(self, run: RunNumber) -> (c: Context)
        ensures
            c.runs@ == seq![clamped(run)],
            c.variation == self.variation,
            c.timestamp == self.timestamp,
    {
        let mut runs: Vec<RunNumber> = Vec::new();
        runs.push(clamp_run(run));
        Context { runs, variation: self.variation, timestamp: self.timestamp }
    }

    /// The context for the listed runs, each brought into the range of run
    /// numbers.
    pub fn with_runs(self, runs: Vec<RunNumber>) -> (c: Context)
        ensures
            c.runs@.len() == runs@.len(),
            forall|i: int| 0 <= i < runs@.len() ==> c.runs@[i] == clamped(#[trigger] runs@[i]),
            c.variation == self.variation,
            c.timestamp == self.timestamp,
    {
        let mut clamped_runs: Vec<RunNumber> = Vec::new();
        let mut i: usize = 0;
        while i < runs.len()
            invariant
                i <= runs.len(),
                clamped_runs@.len() == i,
                forall|k: int| 0 <= k < i ==> clamped_runs@[k] == clamped(#[trigger] runs@[k]),
            decreases runs.len() - i,
        {
            clamped_runs.push(clamp_run(runs[i]));
            i += 1;
        }
        Context { runs: clamped_runs, variation: self.variation, timestamp: self.timestamp }
    }

    /// The context for the runs from `start` to `end`, both included. A
    /// missing bound is 0 or the largest run number; a given one is brought
    /// to at least 0 or at most the largest run number.
    pub fn with_run_range(self, start: Option<RunNumber>, end: Option<RunNumber>) -> (c: Context)
        ensures
            c.runs@ == run_span(
                match start {
                    Some(s) => if s < 0 {
                        0
                    } else {
                        s as int
                    },
                    None => 0,
                },
                match end {
                    Some(e) => if e > MAX_RUN_NUMBER {
                        MAX_RUN_NUMBER as int
                    } else {
                        e as int
                    },
                    None => MAX_RUN_NUMBER as int,
                },
            ),
            c.variation == self.variation,
            c.timestamp == self.timestamp,
    {
        let first: RunNumber = match start {
            Some(s) => if s < 0 {
                0
            } else {
                s
            },
            None => 0,
        };
        let last: RunNumber = match end {
            Some(e) => if e > MAX_RUN_NUMBER {
                MAX_RUN_NUMBER
            } else {
                e
            },
            None => MAX_RUN_NUMBER,
        };
        let mut runs: Vec<RunNumber> = Vec::new();
        if first <= last {
            let mut run: RunNumber = first;
            while run < last
                invariant
                    0 <= first <= run <= last <= MAX_RUN_NUMBER,
                    runs@ == Seq::new((run - first) as nat, |i: int| (first + i) as RunNumber),
                decreases last - run,
            {
                runs.push(run);
                assert(runs@ == Seq::new((run + 1 - first) as nat, |i: int| (first + i) as RunNumber));
                run += 1;
            }
            runs.push(last);
            assert(runs@ == run_span(first as int, last as int));
        }
        Context { runs, variation: self.variation, timestamp: self.timestamp }
    }

    /// The context for another variation.
    pub fn with_variation(self, variation: &str) -> (c: Context)
        ensures
            c.variation@ == variation@,
            c.runs == self.runs,
            c.timestamp == self.timestamp,
    {
        Context { runs: self.runs, variation: variation.to_owned(), timestamp: self.timestamp }
    }

    /// The context as of another instant.
    pub fn with_timestamp(self, timestamp: Timestamp) -> (c: Context)
        ensures
            c.timestamp == timestamp,
            c.runs == self.runs,
            c.variation == self.variation,
    {
        Context { runs: self.runs, variation: self.variation, timestamp }
    }
}

/// Why a text is no request.
#[derive(Debug, Clone)]
pub enum ParseRequestError {
    NamePathError(NamePathError),
    TimestampParseError(ParseTimestampError),
    /// The text that should be a run number.
    InvalidRunNumberError(String),
}

/// A request: the table and the context.
#[derive(Debug, Clone)]
pub struct Request {
    pub path: NamePath,
    pub context: Context,
}

/// Piece `at` of the request text cut at every `:`; empty where the text
/// has fewer pieces.
pub open spec fn request_piece(s: Seq<char>, at: int) -> Seq<char> {
    if at < split(s, ':').len() {
        split(s, ':')[at]
    } else {
        Seq::<char>::empty()
    }
}

/// The timestamp part of a request: all that follows the third `:`.
pub open spec fn request_time_text(s: Seq<char>) -> Seq<char> {
    if split(s, ':').len() > 3 {
        join(split(s, ':').skip(3), ":"@)
    } else {
        Seq::<char>::empty()
    }
}

/// The part of a request that is refused.
pub enum RequestFault {
    Path,
    Run,
    Time,
}

/// The part of the request `s` that is refused, if one is. The path is
/// checked first, then the run, then the timestamp; an empty run or
/// timestamp is never refused.
pub open spec fn request_fault(s: Seq<char>) -> Option<RequestFault> {
    let run = request_piece(s, 1);
    let time = request_time_text(s);
    if !is_name_path(request_piece(s, 0)) {
        Some(RequestFault::Path)
    } else if run.len() > 0 && parse_int_in(run, i64::MIN as int, i64::MAX as int) is None {
        Some(RequestFault::Run)
    } else if time.len() > 0 && !(read_timestamp(time) is Instant) {
        Some(RequestFault::Time)
    } else {
        None
    }
}

/// Whether `context` is the context that the request `s` names: each part
/// that the request gives, and the default for each part that it leaves
/// empty. The default instant is that of the system clock, of which nothing
/// is said.
pub open spec fn is_context_of(context: Context, s: Seq<char>) -> bool {
    let run = request_piece(s, 1);
    let variation = request_piece(s, 2);
    let time = request_time_text(s);
    &&& context.runs@ == (if run.len() > 0 {
        seq![parse_int_in(run, i64::MIN as int, i64::MAX as int)->Some_0 as RunNumber]
    } else {
        seq![DEFAULT_RUN_NUMBER]
    })
    &&& context.variation@ == (if variation.len() > 0 {
        variation
    } else {
        "default"@
    })
    &&& context.timestamp@.on_calendar()
    &&& time.len() > 0 ==> Reading::Instant(context.timestamp@) == read_timestamp(time)
}

/// Whether `r` is what reading the request `s` must return.
///
/// The text has the form `path[:run[:variation[:timestamp]]]`.
pub open spec fn is_request_reading(r: Result<Request, ParseRequestError>, s: Seq<char>) -> bool {
    match request_fault(s) {
        Some(RequestFault::Path) => r matches Err(ParseRequestError::NamePathError(e))
            && is_path_reading(Err(e), request_piece(s, 0)),
        Some(RequestFault::Run) => r matches Err(ParseRequestError::InvalidRunNumberError(text))
            && text@ == request_piece(s, 1),
        Some(RequestFault::Time) => r matches Err(ParseRequestError::TimestampParseError(e))
            && is_reading_of(Err(e), request_time_text(s)),
        None => r matches Ok(request) && request.path.0@ == request_piece(s, 0) && is_context_of(
            request.context,
            s,
        ),
    }
}

impl Request {
    /// Reads a request of the form `path[:run[:variation[:timestamp]]]`.
    pub fn from_str(s: &str) -> (r: Result<Request, ParseRequestError>)
        ensures
            is_request_reading(r, s@),
    {
        let chars = chars_of(s);
        let pieces = split_chars(&chars, ':');
        let ghost all = split(s@, ':');
        assert(all[0] == pieces@[0]@);
        let path = match NamePath::from_str(string_of(&pieces[0]).as_str()) {
            Ok(path) => path,
            Err(e) => {
                return Err(ParseRequestError::NamePathError(e));
            },
        };
        let mut run: Option<Vec<RunNumber>> = None;
        let mut variation: Option<String> = None;
        let mut timestamp: Option<Timestamp> = None;
        if pieces.len() > 1 && pieces[1].len() > 0 {
            assert(all[1] == pieces@[1]@);
            match read_int(&pieces[1], -0x8000_0000_0000_0000, 0x7fff_ffff_ffff_ffff) {
                Some(number) => {
                    let mut list: Vec<RunNumber> = Vec::new();
                    list.push(number as RunNumber);
                    run = Some(list);
                },
                None => {
                    return Err(ParseRequestError::InvalidRunNumberError(string_of(&pieces[1])));
                },
            }
        }
        if pieces.len() > 2 && pieces[2].len() > 0 {
            assert(all[2] == pieces@[2]@);
            variation = Some(string_of(&pieces[2]));
        }
        let mut rest: Vec<Vec<char>> = Vec::new();
        let mut i: usize = 3;
        assert(views(rest@) == all.skip(3).take(0));
        while i < pieces.len()
            invariant
                3 <= i,
                views(pieces@) == all,
                all.len() == pieces@.len(),
                i <= pieces.len() || pieces.len() < 3,
                pieces.len() >= 3 ==> views(rest@) == all.skip(3).take(i - 3),
                pieces.len() < 3 ==> rest@.len() == 0,
            decreases pieces.len() - i,
        {
            let ghost before = views(rest@);
            let mut copy: Vec<char> = Vec::new();
            crate::text::append_chars(&mut copy, &pieces[i]);
            assert(copy@ == pieces@[i as int]@) by {
                assert(Seq::<char>::empty() + pieces@[i as int]@ == pieces@[i as int]@);
            }
            rest.push(copy);
            assert(views(rest@) == before.push(pieces@[i as int]@));
            assert(all.skip(3).take(i + 1 - 3) == all.skip(3).take(i - 3).push(all[i as int]));
            i += 1;
        }
        proof {
            if pieces.len() >= 3 {
                assert(all.skip(3).take(pieces.len() - 3) == all.skip(3));
            }
            if pieces.len() <= 3 {
                assert(views(rest@).len() == 0);
            }
        }
        let colon = chars_of(":");
        let time_text = join_chars(&rest, &colon);
        if time_text.len() > 0 {
            match parse_timestamp(string_of(&time_text).as_str()) {
                Ok(t) => {
                    timestamp = Some(t);
                },
                Err(e) => {
                    return Err(ParseRequestError::TimestampParseError(e));
                },
            }
        }
        Ok(Request { path, context: Context::new(run, variation, timestamp) })
    }
}

} // verus!
