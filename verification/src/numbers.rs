//! Numbers as text: reading and writing decimal integers, and recognizing
//! floating-point literals.

use vstd::prelude::*;

verus! {

/// Whether `c` is one of the ten ASCII digits.
pub open spec fn is_digit(c: char) -> bool {
    '0' <= c && c <= '9'
}

/// The number that the ASCII digit `c` stands for.
pub open spec fn digit_value(c: char) -> int {
    c as int - '0' as int
}

/// Whether every character of `s` is an ASCII digit.
pub open spec fn all_digits(s: Seq<char>) -> bool {
    forall|i: int| 0 <= i < s.len() ==> is_digit(#[trigger] s[i])
}

/// The number written by the digits of `s` in base ten; 0 for no digits.
pub open spec fn digits_value(s: Seq<char>) -> int
    decreases s.len(),
{
    if s.len() == 0 {
        0
    } else {
        digits_value(s.drop_last()) * 10 + digit_value(s.last())
    }
}

/// The integer that `s` writes: an optional sign, then at least one digit.
/// A minus sign is understood only where `signed` is set; a plus sign
/// always.
pub open spec fn parse_int(s: Seq<char>, signed: bool) -> Option<int> {
    let negative = signed && s.len() > 0 && s[0] == '-';
    let body = if s.len() > 0 && (s[0] == '+' || negative) {
        s.skip(1)
    } else {
        s
    };
    if body.len() == 0 || !all_digits(body) {
        None
    } else if negative {
        Some(-digits_value(body))
    } else {
        Some(digits_value(body))
    }
}

/// [`parse_int`] restricted to the integers from `lo` to `hi`; the minus
/// sign is understood where `lo` is negative.
pub open spec fn parse_int_in(s: Seq<char>, lo: int, hi: int) -> Option<int> {
    match parse_int(s, lo < 0) {
        Some(v) => if lo <= v <= hi {
            Some(v)
        } else {
            None
        },
        None => None,
    }
}

/// The value of a run of digits is never negative, and reading more digits
/// never makes it smaller.
pub proof fn lemma_digits_value_grows(s: Seq<char>, k: int)
    requires
        all_digits(s),
        0 <= k <= s.len(),
    ensures
        0 <= digits_value(s.take(k)) <= digits_value(s),
    decreases s.len() - k,
{
    lemma_digits_value_nonneg(s.take(k));
    if k < s.len() {
        lemma_digits_value_grows(s, k + 1);
        assert(s.take(k + 1).drop_last() == s.take(k));
        assert(is_digit(s[k]));
        assert(s.take(k + 1).last() == s[k]);
    } else {
        assert(s.take(k) == s);
    }
}

/// The value of a run of digits is never negative.
pub proof fn lemma_digits_value_nonneg(s: Seq<char>)
    requires
        all_digits(s),
    ensures
        0 <= digits_value(s),
    decreases s.len(),
{
    if s.len() > 0 {
        assert(is_digit(s.last()));
        lemma_digits_value_nonneg(s.drop_last());
    }
}

/// The digit as a number, or `None` for any other character.
pub fn digit_of(c: char) -> (r: Option<u8>)
    ensures
        r is Some <==> is_digit(c),
        r matches Some(d) ==> d == digit_value(c) && d <= 9,
{
    if c >= '0' && c <= '9' {
        Some(((c as u32) - ('0' as u32)) as u8)
    } else {
        None
    }
}

/// Reads the integer that `s` writes, if it lies between `lo` and `hi`.
#[verifier::loop_isolation(false)]
pub fn read_int(s: &Vec<char>, lo: i128, hi: i128) -> (r: Option<i128>)
    requires
        -0x1_0000_0000_0000_0000 <= lo <= 0,
        0 <= hi <= 0x1_0000_0000_0000_0000,
    ensures
        r == match parse_int_in(s@, lo as int, hi as int) {
            Some(v) => Some(v as i128),
            None => None,
        },
        r matches Some(v) ==> lo <= v <= hi,
{
    let n = s.len();
    if n == 0 {
        return None;
    }
    let negative = lo < 0 && s[0] == '-';
    let start: usize = if s[0] == '+' || negative {
        1
    } else {
        0
    };
    let ghost body = s@.skip(start as int);
    assert(s@.skip(0) == s@);
    if start == n {
        return None;
    }
    let limit: i128 = if negative {
        -lo
    } else {
        hi
    };
    let mut acc: i128 = 0;
    let mut i: usize = start;
    while i < n
        invariant
            start <= i <= n,
            n == s.len(),
            body == s@.skip(start as int),
            all_digits(body.take(i - start)),
            acc == digits_value(body.take(i - start)),
            0 <= acc <= limit <= 0x1_0000_0000_0000_0000,
        decreases n - i,
    {
        let ghost seen = body.take(i - start);
        let ghost next = body.take(i - start + 1);
        proof {
            assert(next.drop_last() == seen);
            assert(next.last() == s@[i as int]);
        }
        match digit_of(s[i]) {
            None => {
                assert(!is_digit(body[i - start]));
                return None;
            },
            Some(d) => {
                assert forall|k: int| 0 <= k < next.len() implies is_digit(#[trigger] next[k]) by {
                    if k < seen.len() {
                        assert(next[k] == seen[k]);
                    }
                }
                let grown: i128 = acc * 10 + d as i128;
                if grown > limit {
                    proof {
                        if all_digits(body) {
                            lemma_digits_value_grows(body, i - start + 1);
                        }
                    }
                    return None;
                }
                acc = grown;
            },
        }
        i += 1;
    }
    assert(body.take(n - start) == body);
    if negative {
        Some(-acc)
    } else {
        Some(acc)
    }
}

/// The ASCII digit for a number below ten.
pub open spec fn digit_char(d: int) -> char {
    if d == 0 {
        '0'
    } else if d == 1 {
        '1'
    } else if d == 2 {
        '2'
    } else if d == 3 {
        '3'
    } else if d == 4 {
        '4'
    } else if d == 5 {
        '5'
    } else if d == 6 {
        '6'
    } else if d == 7 {
        '7'
    } else if d == 8 {
        '8'
    } else {
        '9'
    }
}

/// The shortest decimal numeral of the natural number `n`.
pub open spec fn decimal(n: nat) -> Seq<char>
    decreases n,
{
    if n < 10 {
        seq![digit_char(n as int)]
    } else {
        decimal(n / 10).push(digit_char((n % 10) as int))
    }
}

/// The decimal numeral of an integer, with a leading minus sign for a
/// negative one.
pub open spec fn decimal_int(n: int) -> Seq<char> {
    if n < 0 {
        seq!['-'] + decimal((-n) as nat)
    } else {
        decimal(n as nat)
    }
}

/// A numeral consists of digits, has no superfluous leading zero, and is
/// read back as the number it was written for.
pub proof fn lemma_decimal_reads_back(n: nat)
    ensures
        decimal(n).len() >= 1,
        all_digits(decimal(n)),
        digits_value(decimal(n)) == n,
        parse_int(decimal(n), false) == Some(n as int),
    decreases n,
{
    if n < 10 {
        let one = decimal(n);
        assert(one.drop_last() == Seq::<char>::empty());
        assert(digits_value(one.drop_last()) == 0);
    } else {
        lemma_decimal_reads_back(n / 10);
        let all = decimal(n);
        assert(all.drop_last() == decimal(n / 10));
        assert forall|i: int| 0 <= i < all.len() implies is_digit(#[trigger] all[i]) by {
            if i < all.len() - 1 {
                assert(all[i] == decimal(n / 10)[i]);
            }
        }
    }
    assert(decimal(n)[0] != '+') by {
        assert(is_digit(decimal(n)[0]));
    }
}

fn digit_to_char(d: u8) -> (c: char)
    requires
        d <= 9,
    ensures
        c == digit_char(d as int),
{
    if d == 0 {
        '0'
    } else if d == 1 {
        '1'
    } else if d == 2 {
        '2'
    } else if d == 3 {
        '3'
    } else if d == 4 {
        '4'
    } else if d == 5 {
        '5'
    } else if d == 6 {
        '6'
    } else if d == 7 {
        '7'
    } else if d == 8 {
        '8'
    } else {
        '9'
    }
}

/// Appends the decimal numeral of `n` to `out`.
pub fn push_decimal(out: &mut Vec<char>, n: u64)
    ensures
        final(out)@ == old(out)@ + decimal(n as nat),
    decreases n,
{
    if n >= 10 {
        push_decimal(out, n / 10);
        out.push(digit_to_char((n % 10) as u8));
        assert(old(out)@ + decimal(n as nat) == (old(out)@ + decimal((n / 10) as nat)).push(
            digit_char((n % 10) as int),
        ));
    } else {
        out.push(digit_to_char(n as u8));
        assert(old(out)@ + decimal(n as nat) == old(out)@.push(digit_char(n as int)));
    }
}

/// Appends the decimal numeral of the signed integer `n` to `out`.
pub fn push_decimal_int(out: &mut Vec<char>, n: i64)
    ensures
        final(out)@ == old(out)@ + decimal_int(n as int),
{
    if n < 0 {
        out.push('-');
        let magnitude: u64 = (-(n as i128)) as u64;
        push_decimal(out, magnitude);
        assert(old(out)@ + decimal_int(n as int) == old(out)@.push('-') + decimal((-n) as nat));
    } else {
        push_decimal(out, n as u64);
    }
}

/// The decimal numeral of `n` as a fresh vector.
pub fn decimal_chars(n: u64) -> (out: Vec<char>)
    ensures
        out@ == decimal(n as nat),
{
    let mut out: Vec<char> = Vec::new();
    push_decimal(&mut out, n);
    assert(Seq::<char>::empty() + decimal(n as nat) == decimal(n as nat));
    out
}

/// How many digits `s` begins with.
pub open spec fn digit_prefix_len(s: Seq<char>) -> nat
    decreases s.len(),
{
    if s.len() == 0 || !is_digit(s[0]) {
        0
    } else {
        1 + digit_prefix_len(s.skip(1))
    }
}

/// Counts the digits that `s` continues with from position `from`.
pub fn count_digits(s: &Vec<char>, from: usize) -> (n: usize)
    requires
        from <= s.len(),
    ensures
        n == digit_prefix_len(s@.skip(from as int)),
        from + n <= s.len(),
{
    let mut i: usize = from;
    while i < s.len() && s[i] >= '0' && s[i] <= '9'
        invariant
            from <= i <= s.len(),
            digit_prefix_len(s@.skip(from as int)) == (i - from) + digit_prefix_len(
                s@.skip(i as int),
            ),
        decreases s.len() - i,
    {
        assert(s@.skip(i as int).skip(1) == s@.skip(i + 1));
        assert(s@.skip(i as int)[0] == s@[i as int]);
        i += 1;
    }
    proof {
        if i < s.len() {
            assert(s@.skip(i as int)[0] == s@[i as int]);
        }
    }
    i - from
}

/// Whether `s` is `lower` up to the case of its letters, `upper` being
/// `lower` in capitals.
pub open spec fn is_word(s: Seq<char>, lower: Seq<char>, upper: Seq<char>) -> bool {
    s.len() == lower.len() && forall|i: int|
        0 <= i < s.len() ==> #[trigger] s[i] == lower[i] || s[i] == upper[i]
}

/// An exponent: the letter `e` in either case, an optional sign, and at
/// least one digit up to the end.
pub open spec fn is_exponent_text(t: Seq<char>) -> bool {
    let digits = if t.len() > 1 && (t[1] == '+' || t[1] == '-') {
        t.skip(2)
    } else {
        t.skip(1)
    };
    &&& t.len() >= 1
    &&& (t[0] == 'e' || t[0] == 'E')
    &&& digits.len() >= 1
    &&& digit_prefix_len(digits) == digits.len()
}

/// An unsigned decimal number: digits with an optional point among them,
/// at least one digit in all, and an optional exponent.
pub open spec fn is_number_text(b: Seq<char>) -> bool {
    let whole = digit_prefix_len(b);
    let after_whole = b.skip(whole as int);
    let dotted = after_whole.len() > 0 && after_whole[0] == '.';
    let frac: nat = if dotted {
        digit_prefix_len(after_whole.skip(1))
    } else {
        0
    };
    let tail = if dotted {
        after_whole.skip(1 + frac as int)
    } else {
        after_whole
    };
    whole + frac >= 1 && (tail.len() == 0 || is_exponent_text(tail))
}

/// One of the words for a value that is no number: `inf`, `infinity`,
/// `nan`, in any case.
pub open spec fn is_special_text(b: Seq<char>) -> bool {
    ||| is_word(b, "inf"@, "INF"@)
    ||| is_word(b, "infinity"@, "INFINITY"@)
    ||| is_word(b, "nan"@, "NAN"@)
}

/// Whether `s` is written as a floating-point literal: an optional sign
/// followed by a decimal number or by one of the special words.
pub open spec fn is_float_text(s: Seq<char>) -> bool {
    let body = if s.len() > 0 && (s[0] == '+' || s[0] == '-') {
        s.skip(1)
    } else {
        s
    };
    is_number_text(body) || is_special_text(body)
}

/// Decides [`is_word`] for the text that `s` holds from position `from`.
pub fn word_at(s: &Vec<char>, from: usize, lower: &str, upper: &str) -> (r: bool)
    requires
        from <= s.len(),
        lower@.len() == upper@.len(),
    ensures
        r == is_word(s@.skip(from as int), lower@, upper@),
{
    let low = crate::text::chars_of(lower);
    let up = crate::text::chars_of(upper);
    if s.len() - from != low.len() {
        return false;
    }
    let ghost rest = s@.skip(from as int);
    let mut i: usize = 0;
    while i < low.len()
        invariant
            i <= low.len(),
            low.len() == up.len(),
            low@ == lower@,
            up@ == upper@,
            from + low.len() == s.len(),
            rest == s@.skip(from as int),
            forall|k: int| 0 <= k < i ==> #[trigger] rest[k] == low@[k] || rest[k] == up@[k],
        decreases low.len() - i,
    {
        let c = s[from + i];
        assert(rest[i as int] == c);
        if c != low[i] && c != up[i] {
            return false;
        }
        i += 1;
    }
    true
}

fn exponent_at(s: &Vec<char>, from: usize) -> (r: bool)
    requires
        from < s.len(),
    ensures
        r == is_exponent_text(s@.skip(from as int)),
{
    let ghost t = s@.skip(from as int);
    assert(t[0] == s@[from as int]);
    if s[from] != 'e' && s[from] != 'E' {
        return false;
    }
    let signed = from + 1 < s.len() && (s[from + 1] == '+' || s[from + 1] == '-');
    proof {
        if t.len() > 1 {
            assert(t[1] == s@[from + 1]);
        }
    }
    let start: usize = if signed {
        from + 2
    } else {
        from + 1
    };
    assert(t.skip(start - from) == s@.skip(start as int));
    let n = count_digits(s, start);
    n >= 1 && start + n == s.len()
}

/// Decides [`is_float_text`].
pub fn is_float_literal(s: &Vec<char>) -> (r: bool)
    ensures
        r == is_float_text(s@),
{
    let start: usize = if s.len() > 0 && (s[0] == '+' || s[0] == '-') {
        1
    } else {
        0
    };
    let ghost body = s@.skip(start as int);
    assert(s@.skip(0) == s@);
    proof {
        reveal_strlit("inf");
        reveal_strlit("INF");
        reveal_strlit("infinity");
        reveal_strlit("INFINITY");
        reveal_strlit("nan");
        reveal_strlit("NAN");
    }
    if word_at(s, start, "inf", "INF") || word_at(s, start, "infinity", "INFINITY") || word_at(
        s,
        start,
        "nan",
        "NAN",
    ) {
        return true;
    }
    let whole = count_digits(s, start);
    let dot_at: usize = start + whole;
    assert(body.skip(whole as int) == s@.skip(dot_at as int));
    let dotted = dot_at < s.len() && s[dot_at] == '.';
    proof {
        if dot_at < s.len() {
            assert(s@.skip(dot_at as int)[0] == s@[dot_at as int]);
        }
    }
    let mut frac: usize = 0;
    let mut tail_at: usize = dot_at;
    if dotted {
        assert(s@.skip(dot_at as int).skip(1) == s@.skip(dot_at + 1));
        frac = count_digits(s, dot_at + 1);
        tail_at = dot_at + 1 + frac;
        assert(s@.skip(dot_at as int).skip(1 + frac) == s@.skip(tail_at as int));
    }
    if whole + frac < 1 {
        return false;
    }
    if tail_at == s.len() {
        return true;
    }
    exponent_at(s, tail_at)
}

} // verus!
