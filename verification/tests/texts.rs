use euthergate::number::Binary64;
use euthergate::text::{
    append_decimal, characters, find_from, is_blank, join, lower_is, parse_unsigned, same_text,
    split_fields, trim, whitespace,
};

const SAMPLES: [&str; 14] = [
    "",
    " ",
    "a",
    "  a b  ",
    "\t\n\x0c\r x\ty \n",
    "\u{a0}nbsp\u{3000}",
    "\u{b}vertical\u{b}",
    "move 1 2 3 4",
    "\u{e5}\u{e4}\u{f6} \u{1f600}",
    "\u{2028}",
    "\u{200b}not space\u{200b}",
    "x\u{85}y\u{85}",
    "=;=;",
    "TRUE",
];

#[test]
fn whitespace_is_the_unicode_property() {
    for code in 0..=0x10ffffu32 {
        if let Some(c) = char::from_u32(code) {
            assert_eq!(whitespace(c), c.is_whitespace(), "{code:x}");
        }
    }
}

#[test]
fn trimming_and_splitting_agree_with_the_samples() {
    for sample in SAMPLES {
        assert_eq!(trim(sample), sample.trim());
        assert_eq!(is_blank(sample), sample.trim().is_empty());
        let fields: Vec<String> = sample.split_ascii_whitespace().map(str::to_string).collect();
        assert_eq!(split_fields(sample), fields);
        assert_eq!(characters(sample), sample.chars().collect::<Vec<char>>());
        for other in SAMPLES {
            assert_eq!(same_text(sample, other), sample == other);
            assert_eq!(lower_is(sample, other), sample.to_ascii_lowercase() == other);
        }
    }
    assert!(lower_is("TrUe", "true"));
    assert_eq!(find_from(&characters("a;b;c"), 2, ';'), 3);
    assert_eq!(find_from(&characters("abc"), 1, ';'), 3);
}

#[test]
fn unsigned_numbers_are_read_as_documented() {
    for sample in [
        "0", "1", "+1", "007", "4294967295", "4294967296", "00000000000000000000000000000042", "",
        "+", "-0", "-1", "++1", " 1", "1 ", "1_0", "1.0", "\u{661}", "99999999999999999999999",
        "12345678901234567890x", "42949672950",
    ] {
        assert_eq!(parse_unsigned(sample), sample.parse::<u32>().ok(), "{sample}");
    }
}

#[test]
fn numbers_are_written_in_decimal() {
    for n in [0u32, 1, 9, 10, 11, 99, 100, 1600, 4294967295] {
        let mut out = String::from("n=");
        append_decimal(&mut out, n);
        assert_eq!(out, format!("n={n}"));
    }
}

#[test]
fn lists_are_joined() {
    let list = |words: &[&str]| words.iter().map(|w| w.to_string()).collect::<Vec<String>>();
    assert_eq!(join(&list(&[]), " "), "");
    assert_eq!(join(&list(&["a"]), " "), "a");
    assert_eq!(join(&list(&["monitors", "all", "-j"]), " "), "monitors all -j");
}

#[test]
fn binary64_rounds_like_the_machine() {
    let mut samples: Vec<f64> = vec![
        0.0, -0.0, 0.25, 0.49999999999999994, 0.5, 0.5000000000000001, 1.0, 1.4999999999999998,
        1.5, 2.5, 59.94, 59.999, 60.0, 143.5, 4294967294.5, 4294967295.0, 4294967295.4,
        4294967295.5, 4294967296.0, 1e18, 4503599627370496.0, 9007199254740993.0, 1e300,
        f64::MAX, f64::MIN_POSITIVE, 5e-324, f64::INFINITY, f64::NEG_INFINITY, f64::NAN, -0.4,
        -0.5, -1.0, -1e300,
    ];
    let mut bits: u64 = 0x9e3779b97f4a7c15;
    for _ in 0..20000 {
        bits = bits.wrapping_mul(6364136223846793005).wrapping_add(1442695040888963407);
        samples.push(f64::from_bits(bits));
        samples.push((bits >> 30) as f64 / 1024.0);
    }
    for value in samples {
        let number = Binary64 { bits: value.to_bits() };
        assert_eq!(number.rounded(), value.round() as u32, "{value}");
        assert_eq!(number.zero(), value == 0.0);
        let direction = if value > 0.0 { 1 } else if value < 0.0 { -1 } else { 0 };
        assert_eq!(number.direction(), direction);
    }
}

#[test]
fn rounding_stays_within_one_half() {
    for value in [0.3f64, 0.5, 7.49, 7.5, 1000.51] {
        let whole = Binary64 { bits: value.to_bits() }.rounded() as f64;
        assert!(whole - 0.5 <= value && value < whole + 0.5);
    }
}
