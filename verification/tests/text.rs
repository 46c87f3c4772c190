//! Searching, trimming and splitting texts.
use jpdb::text::contains;
use jpdb::text::ends_with;
use jpdb::text::is_white_space;
use jpdb::text::joined;
use jpdb::text::same_text;
use jpdb::text::single_line;
use jpdb::text::split_command;
use jpdb::text::starts_with;
use jpdb::text::to_decimal;
use jpdb::text::trim;

#[test]
fn searches_agree_with_std() {
    let texts = ["", "a", "ab", "aab", "  --", "-> é", "é", "aaab", "Error: x", " ps", "12 ps"];
    for s in texts {
        for part in texts {
            assert_eq!(starts_with(s, part), s.starts_with(part));
            assert_eq!(ends_with(s, part), s.ends_with(part));
            assert_eq!(contains(s, part), s.contains(part));
            assert_eq!(same_text(s, part), s == part);
            assert_eq!(joined(s, part), format!("{}{}", s, part));
        }
    }
}

#[test]
fn trimming_agrees_with_std() {
    let texts = [
        "",
        " ",
        "a",
        " a b\t",
        "\u{3000}x\u{a0}",
        "\n\r\u{b}\u{c}y\u{85}\u{2028}",
        "\u{200b}z\u{200b}",
        "é ",
    ];
    for s in texts {
        assert_eq!(trim(s), s.trim());
        assert_eq!(trim(trim(s).as_str()), trim(s));
    }
}

#[test]
fn white_space_agrees_with_std() {
    for n in 0..0x110000u32 {
        if let Some(c) = char::from_u32(n) {
            assert_eq!(is_white_space(c), c.is_whitespace(), "{:x}", n);
        }
    }
}

#[test]
fn command_is_split_at_its_first_space() {
    let split = |s: &str| split_command(s);
    assert_eq!(split("step"), ("step".to_string(), "".to_string()));
    assert_eq!(split("break main.c 3"), ("break".to_string(), "main.c 3".to_string()));
    assert_eq!(split("a  b"), ("a".to_string(), " b".to_string()));
    assert_eq!(split("é ü"), ("é".to_string(), "ü".to_string()));
    assert_eq!(split(""), ("".to_string(), "".to_string()));
}

#[test]
fn numbers_are_written_in_decimal() {
    for n in [0u32, 1, 9, 10, 31, 99, 100, 65535, u32::MAX] {
        assert_eq!(to_decimal(n), n.to_string());
    }
}

#[test]
fn one_line_is_one_line() {
    assert_eq!(single_line("x y"), vec!["x y".to_string()]);
}
