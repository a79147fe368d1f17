use k3dev::approx::{of_integer, percent, product, round, Approx};
use k3dev::natural::Natural;
use k3dev::number::{i64_text, parse_i64, parse_u64, parse_upto, u128_text, u64_text};
use k3dev::order::sort_texts;
use k3dev::text::{
    add_once, comes_before, contains, ends_with, find_from, join, lower, pad, pad_left, repeat,
    replace, split, split_lines, split_words, starts_with, strip_end, strip_prefix, strip_start,
    take_bytes, trim,
};
use k3dev::textmap::TextMap;

fn number(x: Approx) -> f64 {
    x.bits as f64 * 2f64.powi(x.exponent)
}

fn strings(v: &[&str]) -> Vec<String> {
    v.iter().map(|s| s.to_string()).collect()
}

#[test]
fn decimals_read_back() {
    for n in [0u64, 7, 10, 4294967296, u64::MAX] {
        assert_eq!(u64_text(n), n.to_string());
        assert_eq!(parse_u64(&u64_text(n)), Some(n));
    }
    assert_eq!(u128_text(u128::MAX), u128::MAX.to_string());
    for n in [0i64, -1, i64::MIN, i64::MAX] {
        assert_eq!(i64_text(n), n.to_string());
        assert_eq!(parse_i64(&i64_text(n)), Some(n));
    }
}

#[test]
fn numbers_are_read_as_the_standard_library_reads_them() {
    for s in ["", "+", "-", "+5", "-5", "05", "1 ", "18446744073709551615", "18446744073709551616", "٣"] {
        assert_eq!(parse_u64(s), s.parse::<u64>().ok(), "{:?}", s);
        assert_eq!(parse_i64(s), s.parse::<i64>().ok(), "{:?}", s);
        assert_eq!(parse_upto(s, 65535), s.parse::<u16>().ok().map(|n| n as u64), "{:?}", s);
    }
}

#[test]
fn texts_are_split_as_the_standard_library_splits_them() {
    for s in ["", "\n", "a", "a\nb", "a\r\nb\r\n", "\n\na", "a\r", "  x \t y\u{a0}z "] {
        let lines: Vec<String> = s.lines().map(|l| l.to_string()).collect();
        assert_eq!(split_lines(s), lines, "{:?}", s);
        let words: Vec<String> = s.split_whitespace().map(|l| l.to_string()).collect();
        assert_eq!(split_words(s), words, "{:?}", s);
        assert_eq!(trim(s), s.trim());
    }
    for s in ["", ".", "a.b", "a..b", ".a."] {
        let pieces: Vec<String> = s.split('.').map(|l| l.to_string()).collect();
        assert_eq!(split(s, '.'), pieces);
        // The pieces joined give the text back.
        assert_eq!(join(&pieces, "."), s);
    }
}

#[test]
fn parts_of_texts_are_found() {
    assert!(contains("abcd", "bc"));
    assert!(contains("abcd", ""));
    assert!(!contains("abcd", "bd"));
    assert!(starts_with("abcd", "ab"));
    assert!(!starts_with("a", "ab"));
    assert!(ends_with("abcd", "cd"));
    assert_eq!(strip_prefix("abcd", "ab"), Some("cd".to_string()));
    assert_eq!(strip_prefix("abcd", "b"), None);
    assert_eq!(strip_start("//a/", '/'), "a/");
    assert_eq!(strip_end("//a//", '/'), "//a");
    assert_eq!(replace("a.b.c", ".", "--"), "a--b--c");
    assert_eq!(replace("aaa", "aa", "b"), "ba");
    let v: Vec<char> = "ababab".chars().collect();
    let p: Vec<char> = "ab".chars().collect();
    assert_eq!(find_from(&v, &p, 1), Some(2));
    assert_eq!(find_from(&v, &p, 5), None);
    assert_eq!(lower("ÄbC"), "Äbc");
    assert_eq!(pad("ab", 4), format!("{:<4}", "ab"));
    assert_eq!(pad("abcde", 4), format!("{:<4}", "abcde"));
    assert_eq!(pad_left("ab", 4), format!("{:>4}", "ab"));
    assert_eq!(repeat('-', 3), "---");
    assert_eq!(take_bytes("añb", 3), Some("añ".to_string()));
    assert_eq!(take_bytes("añb", 2), None);
}

#[test]
fn texts_are_sorted_as_the_standard_library_sorts_them() {
    let mut v = strings(&["b", "", "ab", "a", "Z", "ä", "a", "\u{10000}", "\u{ffff}"]);
    let sorted = sort_texts(v.clone());
    v.sort();
    assert_eq!(sorted, v);
    assert!(comes_before("a", "ab"));
    assert!(!comes_before("a", "a"));
    let mut once = strings(&["a"]);
    add_once(&mut once, "b");
    add_once(&mut once, "a");
    assert_eq!(once, strings(&["a", "b"]));
}

#[test]
fn what_is_put_is_found_and_what_is_removed_is_not() {
    let mut m: TextMap<u64> = TextMap::new();
    m.insert("a".to_string(), 1);
    m.insert("b".to_string(), 2);
    m.insert("a".to_string(), 3);
    assert_eq!(m.len(), 2);
    assert_eq!(m.get("a"), Some(&3));
    assert_eq!(m.get("b"), Some(&2));
    assert_eq!(m.get("c"), None);
    m.remove("a");
    assert_eq!(m.get("a"), None);
    assert!(m.contains_key("b"));
    assert!(!m.contains_key("a"));
}

#[test]
fn naturals_are_multiplied_compared_and_subtracted() {
    let mut a = Natural::of(u128::MAX);
    let b = Natural::of(u128::MAX);
    assert!(!a.less(&b));
    a.times_plus(1, 1);
    assert!(b.less(&a));
    a.minus(&b);
    assert!(!a.less(&Natural::of(1)));
    assert!(a.less(&Natural::of(2)));
    let mut c = Natural::of(0);
    c.times_plus(10, 7);
    c.times_plus(10, 3);
    c.minus(&Natural::of(70));
    assert!(!c.less(&Natural::of(3)) && c.less(&Natural::of(4)));
}

#[test]
fn operations_are_rounded_as_the_machine_rounds_them() {
    let samples: [u64; 12] = [
        1, 3, 10, 1000, 65537, 999999999, 4294967295, 9007199254740991, 9007199254740993,
        18014398509481985, 12345678901234567890, u64::MAX,
    ];
    for a in samples {
        let x = of_integer(a);
        assert_eq!(number(x), a as f64, "{}", a);
        for b in samples {
            assert_eq!(number(product(x, b % 4096 + 1).unwrap()), a as f64 * (b % 4096 + 1) as f64);
            let d = b % 9007199254740991 + 1;
            assert_eq!(number(quotient(x, d).unwrap()), a as f64 / d as f64, "{} / {}", a, d);
            assert_eq!(number(percent(a, b)), (a as f64 / b as f64 * 100.0).min(100.0), "{} of {}", a, b);
        }
    }
    assert_eq!(number(percent(0, 5)), 0.0);
    assert_eq!(number(percent(5, 0)), 0.0);
    assert_eq!(of_integer(7).truncate(), 7);
    assert_eq!(quotient(of_integer(7), 2).unwrap().truncate(), 3);
    assert_eq!(of_integer(u64::MAX).truncate(), u64::MAX);
}

fn quotient(x: Approx, by: u64) -> Option<Approx> {
    round(&Natural::of(x.bits as u128), &Natural::of(by as u128), x.exponent)
}

#[test]
fn tiny_and_huge_numbers_reach_the_ends_of_the_format() {
    // 2^-1074 is the smallest number; half of it is rounded to zero.
    let tiny = Approx { bits: 1, exponent: -1074 };
    assert_eq!(quotient(tiny, 2), Some(Approx { bits: 0, exponent: -1074 }));
    assert_eq!(quotient(tiny, 1), Some(tiny));
    assert_eq!(product(tiny, 3), Some(Approx { bits: 3, exponent: -1074 }));
    let huge = Approx { bits: 9007199254740991, exponent: 971 };
    assert_eq!(number(product(huge, 1).unwrap()), f64::MAX);
    assert_eq!(product(huge, 2), None);
    assert_eq!(round(&Natural::of(1), &Natural::of(3), 0).map(number), Some(1.0 / 3.0));
}
