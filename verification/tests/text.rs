use sensors::number::{decimal, parse};
use sensors::order::{before, sort};
use sensors::text::{
    contains, first_line, lines, same, space, starts_with, strip_prefix, trim, words,
};

fn strings(items: &[&str]) -> Vec<String> {
    items.iter().map(|s| s.to_string()).collect()
}

const SAMPLES: [&str; 14] = [
    "",
    " ",
    "plain",
    " both ends \n",
    "\u{a0}no-break\u{3000}",
    "one\ntwo\r\nthree",
    "ends with feed\n",
    "\n\nblank lines\n\n",
    "bare\rreturn\r",
    "\r\n",
    "cpu  1 2 3",
    "\ttabs\tand\u{2028}separators ",
    "gr\u{fc}n \u{20ac} \u{1f600}",
    "zero\u{200b}width",
];

#[test]
fn white_space_is_that_of_unicode() {
    for n in 0..=0x10_ffff_u32 {
        if let Some(c) = char::from_u32(n) {
            assert_eq!(space(c), c.is_whitespace(), "{:x}", n);
        }
    }
}

#[test]
fn trimming_takes_white_space_from_both_ends() {
    assert_eq!(trim("  a b \n"), "a b");
    for s in SAMPLES {
        assert_eq!(trim(s), s.trim());
    }
}

#[test]
fn lines_end_with_a_feed() {
    assert_eq!(lines("one\ntwo\r\nthree"), strings(&["one", "two", "three"]));
    assert_eq!(lines("bare\r"), strings(&["bare\r"]));
    for s in SAMPLES {
        let expected: Vec<String> = s.lines().map(|l| l.to_string()).collect();
        assert_eq!(lines(s), expected);
        assert_eq!(first_line(s), s.lines().next());
    }
}

#[test]
fn words_stand_between_white_space() {
    assert_eq!(words(" cpu  1\t2 \n"), strings(&["cpu", "1", "2"]));
    for s in SAMPLES {
        let expected: Vec<String> = s.split_whitespace().map(|w| w.to_string()).collect();
        assert_eq!(words(s), expected);
    }
}

#[test]
fn substrings_are_found() {
    assert!(contains("Package id 0", "id"));
    assert!(!contains("Package id 0", "ID"));
    for s in SAMPLES {
        for t in ["", " ", "a", "in", "\n", "\u{20ac}", "one\ntwo", "longer than any of the samples"] {
            assert_eq!(contains(s, t), s.contains(t));
            assert_eq!(starts_with(s, t), s.starts_with(t));
            assert_eq!(strip_prefix(s, t), s.strip_prefix(t));
            assert_eq!(same(s, t), s == t);
        }
    }
}

#[test]
fn numbers_are_read() {
    assert_eq!(parse("12", 100), Some(12));
    assert_eq!(parse("101", 100), None);
    assert_eq!(parse("18446744073709551615", u64::MAX), Some(u64::MAX));
    assert_eq!(parse("18446744073709551616", u64::MAX), None);
    for s in [
        "", "+", "-", "0", "+7", "-7", "007", "1 ", " 1", "1_000", "12a", "++1", "4294967295",
        "4294967296", "99999999999999999999999", "\u{661}",
    ] {
        assert_eq!(parse(s, u64::MAX), s.parse::<u64>().ok());
        assert_eq!(parse(s, u32::MAX as u64), s.parse::<u32>().ok().map(|n| n as u64));
    }
}

#[test]
fn numbers_are_written_and_read_back() {
    for n in [0_u32, 7, 9, 10, 42, 100, 65_535, 1_000_000_007, u32::MAX] {
        assert_eq!(decimal(n), n.to_string());
        assert_eq!(parse(&decimal(n), u32::MAX as u64), Some(n as u64));
    }
}

#[test]
fn names_are_put_in_order() {
    let names = strings(&["card1", "card10", "card0", "card2", "card", "card0"]);
    let mut expected = names.clone();
    expected.sort();
    assert_eq!(sort(&names), expected);
    assert_eq!(
        sort(&names),
        strings(&["card", "card0", "card0", "card1", "card10", "card2"])
    );
}

#[test]
fn order_is_that_of_strings() {
    for a in SAMPLES {
        for b in SAMPLES {
            assert_eq!(before(a, b), a <= b);
        }
    }
}
