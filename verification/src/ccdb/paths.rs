//! Paths of the calibration tree: their segments and their normal form.

use vstd::prelude::*;
use crate::text::{append_chars, chars_of, join, join_chars, lemma_split_join, same_chars, split, split_chars, string_of, views};

verus! {

/// The stack of path segments after the first `n` of `parts` were applied
/// to `stack`: an empty part and `.` change nothing, `..` drops the last
/// segment if there is one, any other part is added.
pub open spec fn apply_segments(stack: Seq<Seq<char>>, parts: Seq<Seq<char>>, n: nat) -> Seq<
    Seq<char>,
>
    decreases n,
{
    if n == 0 || n > parts.len() {
        stack
    } else {
        let before = apply_segments(stack, parts, (n - 1) as nat);
        let part = parts[n - 1];
        if part.len() == 0 || part == "."@ {
            before
        } else if part == ".."@ {
            if before.len() > 0 {
                before.drop_last()
            } else {
                before
            }
        } else {
            before.push(part)
        }
    }
}

/// Whether `path` begins at the root.
pub open spec fn is_absolute(path: Seq<char>) -> bool {
    path.len() > 0 && path[0] == '/'
}

/// The segments of `path` seen from `base`; an absolute path ignores the
/// base.
pub open spec fn normal_segments(base: Seq<char>, path: Seq<char>) -> Seq<Seq<char>> {
    let start = if is_absolute(path) {
        Seq::<Seq<char>>::empty()
    } else {
        apply_segments(Seq::<Seq<char>>::empty(), split(base, '/'), split(base, '/').len())
    };
    apply_segments(start, split(path, '/'), split(path, '/').len())
}

/// The path of the given segments: `/` for none, else each segment behind
/// a `/`.
pub open spec fn path_of(segments: Seq<Seq<char>>) -> Seq<char> {
    if segments.len() == 0 {
        "/"@
    } else {
        "/"@ + join(segments, "/"@)
    }
}

/// The normal form of `path` seen from `base`.
pub open spec fn normalized(base: Seq<char>, path: Seq<char>) -> Seq<char> {
    path_of(normal_segments(base, path))
}

fn push_parts(segments: &mut Vec<Vec<char>>, value: &Vec<char>)
    ensures
        views(final(segments)@) == apply_segments(
            views(old(segments)@),
            split(value@, '/'),
            split(value@, '/').len(),
        ),
{
    let parts = split_chars(value, '/');
    let dot = chars_of(".");
    let dots = chars_of("..");
    let ghost all = split(value@, '/');
    let ghost start = views(segments@);
    let mut i: usize = 0;
    while i < parts.len()
        invariant
            i <= parts.len(),
            views(parts@) == all,
            all.len() == parts@.len(),
            dot@ == "."@,
            dots@ == ".."@,
            views(segments@) == apply_segments(start, all, i as nat),
        decreases parts.len() - i,
    {
        let part = &parts[i];
        let ghost before = views(segments@);
        assert(all[i as int] == part@);
        if part.len() == 0 || same_chars(part, &dot) {
        } else if same_chars(part, &dots) {
            if segments.len() > 0 {
                segments.pop();
                assert(views(segments@) == before.drop_last());
            }
        } else {
            segments.push(string_copy(part));
            assert(views(segments@) == before.push(part@));
        }
        i += 1;
    }
}

fn string_copy(s: &Vec<char>) -> (r: Vec<char>)
    ensures
        r@ == s@,
{
    let mut r: Vec<char> = Vec::new();
    append_chars(&mut r, s);
    assert(Seq::<char>::empty() + s@ == s@);
    r
}

/// Brings `path`, seen from `base`, into normal form: absolute, without
/// empty segments, `.` or `..`.
pub fn normalize_path(base: &str, path: &str) -> (r: String)
    ensures
        r@ == normalized(base@, path@),
{
    let base_chars = chars_of(base);
    let path_chars = chars_of(path);
    let mut segments: Vec<Vec<char>> = Vec::new();
    assert(views(segments@) == Seq::<Seq<char>>::empty());
    if path_chars.len() > 0 && path_chars[0] == '/' {
        push_parts(&mut segments, &path_chars);
    } else {
        push_parts(&mut segments, &base_chars);
        push_parts(&mut segments, &path_chars);
    }
    let mut out = chars_of("/");
    if segments.len() > 0 {
        let slash = chars_of("/");
        let joined = join_chars(&segments, &slash);
        append_chars(&mut out, &joined);
    }
    string_of(&out)
}

/// Where the last piece of `s` begins when `s` is cut at every `sep`.
pub open spec fn last_piece_start(s: Seq<char>, sep: char) -> nat
    decreases s.len(),
{
    if s.len() == 0 {
        0
    } else if s.last() == sep {
        s.len()
    } else {
        last_piece_start(s.drop_last(), sep)
    }
}

/// The last piece is the text from where it begins; the pieces before it,
/// joined again, are the text up to the separator in front of it.
pub proof fn lemma_last_piece(s: Seq<char>, sep: char)
    ensures
        last_piece_start(s, sep) <= s.len(),
        split(s, sep).last() == s.skip(last_piece_start(s, sep) as int),
        last_piece_start(s, sep) == 0 ==> split(s, sep).len() == 1,
        last_piece_start(s, sep) > 0 ==> join(split(s, sep).drop_last(), seq![sep]) == s.take(
            last_piece_start(s, sep) - 1,
        ),
    decreases s.len(),
{
    lemma_split_join(s, sep);
    if s.len() > 0 {
        let shorter = s.drop_last();
        lemma_last_piece(shorter, sep);
        lemma_split_join(shorter, sep);
        let head = split(shorter, sep);
        if s.last() == sep {
            assert(split(s, sep).drop_last() == head);
            assert(s.skip(s.len() as int) == Seq::<char>::empty());
            assert(s.take(s.len() - 1) == shorter);
        } else {
            let k = last_piece_start(shorter, sep) as int;
            assert(shorter.skip(k).push(s.last()) == s.skip(k));
            assert(split(s, sep).drop_last() == head.drop_last());
            if k > 0 {
                assert(shorter.take(k - 1) == s.take(k - 1));
            }
        }
    } else {
        assert(s.skip(0) == s);
    }
}

/// Finds where the last piece of `s` begins.
pub fn find_last_piece(s: &Vec<char>, sep: char) -> (start: usize)
    ensures
        start == last_piece_start(s@, sep),
        start <= s@.len(),
{
    let mut start: usize = 0;
    let mut i: usize = 0;
    while i < s.len()
        invariant
            i <= s.len(),
            start <= i,
            start == last_piece_start(s@.take(i as int), sep),
        decreases s.len() - i,
    {
        proof {
            assert(s@.take(i + 1).drop_last() == s@.take(i as int));
            assert(s@.take(i + 1).last() == s@[i as int]);
        }
        if s[i] == sep {
            start = i + 1;
        }
        i += 1;
    }
    assert(s@.take(s.len() as int) == s@);
    start
}


/// A text that begins with the separator has its last piece begin behind
/// a separator.
pub proof fn lemma_last_piece_after_slash(s: Seq<char>, sep: char)
    requires
        s.len() > 0,
        s[0] == sep,
    ensures
        last_piece_start(s, sep) >= 1,
    decreases s.len(),
{
    if s.len() > 1 && s.last() != sep {
        lemma_last_piece_after_slash(s.drop_last(), sep);
    }
}

} // verus!
