use gluex::numbers::{count_digits, decimal_chars, digit_of, is_float_literal, push_decimal_int, read_int};
use gluex::sorting::{insert_distinct, ordered_indices};
use gluex::text::{
    append_chars, append_str, chars_of, has_at, join_chars, replace_chars, same_chars, same_text,
    split_chars, string_of,
};

fn chars(s: &str) -> Vec<char> {
    s.chars().collect()
}

fn text(v: &Vec<char>) -> String {
    v.iter().collect()
}

fn split(s: &str, sep: char) -> Vec<String> {
    split_chars(&chars(s), sep).iter().map(text).collect()
}

#[test]
fn characters_and_strings() {
    assert_eq!(chars_of("a|é"), vec!['a', '|', 'é']);
    assert_eq!(string_of(&vec!['x', 'ÿ', 'z']), "xÿz");
    assert_eq!(string_of(&Vec::new()), "");
    let mut out = chars("ab");
    append_chars(&mut out, &chars("cd"));
    append_str(&mut out, "ef");
    assert_eq!(text(&out), "abcdef");
    assert!(same_chars(&chars("abc"), &chars("abc")));
    assert!(!same_chars(&chars("abc"), &chars("abd")));
    assert!(!same_chars(&chars("abc"), &chars("ab")));
    assert!(same_text("", ""));
    assert!(!same_text("a", "A"));
    assert!(has_at(&chars("hello"), &chars("ll"), 2));
    assert!(!has_at(&chars("hello"), &chars("ll"), 3));
    assert!(!has_at(&chars("hello"), &chars("lo!"), 3));
    assert!(has_at(&chars("hello"), &chars(""), 5));
    assert!(!has_at(&chars("hello"), &chars(""), 6));
}

#[test]
fn splitting_agrees_with_the_standard_library() {
    for s in ["", "|", "a", "a|b", "|a|", "a||b", "||", "1|2|3", "x|"] {
        let expected: Vec<String> = s.split('|').map(|p| p.to_string()).collect();
        assert_eq!(split(s, '|'), expected, "{:?}", s);
    }
}

#[test]
fn joining_undoes_splitting() {
    for s in ["", "/", "/a/b", "a//b/", "no separator"] {
        let parts = split_chars(&chars(s), '/');
        assert_eq!(text(&join_chars(&parts, &chars("/"))), s);
        for part in &parts {
            assert!(!part.contains(&'/'));
        }
    }
    let parts = vec![chars("a"), chars("b"), chars("c")];
    assert_eq!(text(&join_chars(&parts, &chars(" AND "))), "a AND b AND c");
    assert_eq!(text(&join_chars(&Vec::new(), &chars(", "))), "");
    assert_eq!(text(&join_chars(&vec![chars("x")], &chars(", "))), "x");
}

#[test]
fn replacing_agrees_with_the_standard_library() {
    let cases = [
        ("a&delimeterb", "&delimeter", "|"),
        ("&delimeter&delimeter", "&delimeter", "|"),
        ("&delimete", "&delimeter", "|"),
        ("aaa", "aa", "b"),
        ("aaaa", "aa", "b"),
        ("abcabc", "bc", ""),
        ("abc", "x", "y"),
        ("", "x", "y"),
        ("xyz", "xyz", "xyzxyz"),
    ];
    assert_eq!(text(&replace_chars(&chars("abc"), &chars(""), &chars("-"))), "abc");
    for (s, pat, with) in cases {
        let got = replace_chars(&chars(s), &chars(pat), &chars(with));
        assert_eq!(text(&got), s.replace(pat, with), "{:?}", (s, pat, with));
    }
}

#[test]
fn reading_integers_agrees_with_the_standard_library() {
    let inputs = [
        "0", "7", "-7", "+7", "007", "-0", "+0", "", "+", "-", "1a", "a1", " 1", "1 ", "--1", "+-1",
        "2147483647", "2147483648", "-2147483648", "-2147483649", "4294967295", "4294967296",
        "9223372036854775807", "9223372036854775808", "-9223372036854775808",
        "-9223372036854775809", "18446744073709551615", "18446744073709551616",
        "000000000000000000000000000000000000001", "99999999999999999999999999999999999999999",
        "1_000", "٣", "1.0", "0x10",
    ];
    for s in inputs {
        let c = chars(s);
        assert_eq!(
            read_int(&c, i32::MIN as i128, i32::MAX as i128),
            s.parse::<i32>().ok().map(|v| v as i128),
            "i32 {:?}",
            s
        );
        assert_eq!(
            read_int(&c, 0, u32::MAX as i128),
            s.parse::<u32>().ok().map(|v| v as i128),
            "u32 {:?}",
            s
        );
        assert_eq!(
            read_int(&c, i64::MIN as i128, i64::MAX as i128),
            s.parse::<i64>().ok().map(|v| v as i128),
            "i64 {:?}",
            s
        );
        assert_eq!(
            read_int(&c, 0, u64::MAX as i128),
            s.parse::<u64>().ok().map(|v| v as i128),
            "u64 {:?}",
            s
        );
    }
}

#[test]
fn digits() {
    assert_eq!(digit_of('0'), Some(0));
    assert_eq!(digit_of('9'), Some(9));
    assert_eq!(digit_of('a'), None);
    assert_eq!(digit_of('/'), None);
    assert_eq!(digit_of(':'), None);
    assert_eq!(count_digits(&chars("123abc"), 0), 3);
    assert_eq!(count_digits(&chars("123abc"), 1), 2);
    assert_eq!(count_digits(&chars("123abc"), 3), 0);
    assert_eq!(count_digits(&chars("123"), 3), 0);
}

#[test]
fn writing_integers_agrees_with_the_standard_library() {
    for n in [0u64, 1, 9, 10, 11, 99, 100, 101, 12345, 4294967295, u64::MAX] {
        assert_eq!(text(&decimal_chars(n)), n.to_string());
    }
    for n in [0i64, 1, -1, 10, -10, 2147483647, -2147483648, i64::MAX, i64::MIN] {
        let mut out = chars("id=");
        push_decimal_int(&mut out, n);
        assert_eq!(text(&out), format!("id={}", n));
    }
}

#[test]
fn floating_point_literals_agree_with_the_standard_library() {
    let inputs = [
        "1", "1.", ".5", "1.5", "1.5e10", "1e", "e5", "+.5e-3", "-.0e-0", "inf", "-inf", "+inf",
        "Infinity", "-Infinity", "INFINITY", "iNf", "NaN", "nan", "NAN", "-nan", "infinit",
        "infinityy", "in", "na", ".", "", "+", "-", "+.", "1_000", " 1", "1 ", "0x10", "1e+",
        "1e-", "1E5", "1e+5", "1E-5", "1.2.3", "--1", "+-1", "٣", "1e5.5", "1d", "1f64", ".e5",
        "5.e5", "00012", "-0", "3.5", "7", "1e5e5", "e", "E", "1ee5", "1.e", "123456789012345678901234567890",
        "0.000000000000000000000000000001", "1e400", "1e-400", "..", "+inf.", "nane", "1,5",
    ];
    for s in inputs {
        assert_eq!(is_float_literal(&chars(s)), s.parse::<f64>().is_ok(), "{:?}", s);
    }
}

#[test]
fn ordering_indices_by_key() {
    assert_eq!(ordered_indices(&vec![3, 1, 2]), vec![1, 2, 0]);
    assert_eq!(ordered_indices(&vec![1, 1, 0, 1]), vec![2, 0, 1, 3]);
    assert_eq!(ordered_indices(&Vec::new()), Vec::<usize>::new());
    assert_eq!(ordered_indices(&vec![5]), vec![0]);
    assert_eq!(ordered_indices(&vec![i64::MAX, i64::MIN, 0]), vec![1, 2, 0]);
}

#[test]
fn collecting_distinct_integers() {
    let mut v: Vec<i64> = Vec::new();
    for x in [5, 3, 5, 9, 3, 1, 9, 9] {
        insert_distinct(&mut v, x);
    }
    assert_eq!(v, vec![1, 3, 5, 9]);
}
