use builtins::array_sort::is_text_less;
use builtins::code_units::text_of_units;
use builtins::json_text::{json_quote, wrap};
use builtins::numeric_text::{parse_float_prefix, scan_integer, trim_start, Literal};
use builtins::replace::expand_replacement;
use builtins::strings::{
    find_last_units, find_units, pad_text, repeat_text, split_by_text, trim_leading, trim_trailing,
    units_of,
};
use builtins::symbols::{is_symbol_key, symbol_from_key};
use builtins::text::{
    chars_of, decimal_text, find_text, is_blank, is_js_ws, parse_count, string_of, to_ascii_lower,
};
use builtins::uri::{escape, percent_decode_lossy, unescape, uri_decode, uri_encode};
use builtins::value::Value;

fn text(v: &Vec<char>) -> String {
    v.iter().collect()
}

#[test]
fn encoding_an_address() {
    assert_eq!(uri_encode("a b/\u{e9}", ""), "a%20b%2F%C3%A9");
    assert_eq!(uri_encode("a b/\u{e9}", "/"), "a%20b/%C3%A9");
    assert_eq!(uri_encode("-_.!~*'()", ""), "-_.!~*'()");
    assert_eq!(uri_encode("\u{1f600}", ""), "%F0%9F%98%80");
}

#[test]
fn decoding_an_address() {
    assert_eq!(uri_decode("a%20b%2F", false), Ok("a b/".to_string()));
    assert_eq!(uri_decode("a%20b%2F", true), Ok("a b%2F".to_string()));
    assert_eq!(uri_decode("%C3%A9", false), Ok("\u{e9}".to_string()));
    assert_eq!(uri_decode("%F0%9F%98%80", false), Ok("\u{1f600}".to_string()));
}

#[test]
fn malformed_addresses() {
    assert_eq!(uri_decode("%zz", false), Err(()));
    assert_eq!(uri_decode("%+F", false), Err(()));
    assert_eq!(uri_decode("%", false), Err(()));
    assert_eq!(uri_decode("%C3%28", false), Err(()));
    assert_eq!(uri_decode("%E0%A4", false), Err(()));
    assert_eq!(uri_decode("%FF", false), Err(()));
}

#[test]
fn decoding_undoes_encoding() {
    for s in ["", "plain", "a b&c=d", "\u{ac00}\u{1f600}%", "100%"] {
        assert_eq!(uri_decode(&uri_encode(s, ""), false), Ok(s.to_string()));
    }
}

#[test]
fn lossy_percent_decoding() {
    assert_eq!(percent_decode_lossy("%C3%A9x"), "\u{e9}x");
    assert_eq!(percent_decode_lossy("%FF"), "\u{fffd}");
}

#[test]
fn encoding_takes_parts_one_by_one() {
    for (a, b) in [("a b", "/\u{e9}"), ("", "x"), ("\u{1f600}", "%")] {
        let whole = format!("{}{}", a, b);
        assert_eq!(uri_encode(&whole, "/"), uri_encode(a, "/") + &uri_encode(b, "/"));
    }
    let s = uri_encode("\u{e9} ~/?\u{ac00}", "?");
    assert_eq!(s, "%C3%A9%20~%2F?%EA%B0%80");
    assert!(s.chars().all(|c| c.is_ascii_alphanumeric() || "%~?".contains(c)));
}

#[test]
fn lenient_decoding_agrees_with_the_strict_one() {
    for s in ["", "plain", "a%20b", "%C3%A9%F0%9F%98%80"] {
        assert_eq!(uri_decode(s, false), Ok(percent_decode_lossy(s)));
    }
    assert_eq!(percent_decode_lossy("100%"), "100%");
    assert_eq!(percent_decode_lossy("%zz"), "%zz");
}

#[test]
fn escaping() {
    assert_eq!(escape("@*_+-./aZ9"), "@*_+-./aZ9");
    assert_eq!(escape("\u{e9} "), "%E9%20");
    assert_eq!(escape("\u{ac00}"), "%uAC00");
    assert_eq!(unescape("%E9%20%uAC00"), "\u{e9} \u{ac00}");
    assert_eq!(unescape("%zz%u12"), "%zz%u12");
    assert_eq!(escape("\u{1f600}"), "%uD83D%uDE00");
    assert_eq!(unescape("%uD83D%uDE00"), "\u{1f600}");
    assert_eq!(unescape("%+F%u+123"), "%+F%u+123");
}

#[test]
fn unescaping_undoes_escaping() {
    for s in ["", "abc", "a b%c", "\u{e9}\u{ac00}", "x\u{1f600}y", "%u"] {
        assert_eq!(unescape(&escape(s)), s);
    }
}

#[test]
fn quoting_for_json() {
    assert_eq!(text(&json_quote("a\"b\\\n\u{1}\u{8}\u{c}\r\t")), "\"a\\\"b\\\\\\n\\u0001\\b\\f\\r\\t\"");
    assert_eq!(text(&json_quote("\u{1f}")), "\"\\u001f\"");
    assert_eq!(text(&json_quote("\u{ac00}")), "\"\u{ac00}\"");
    assert_eq!(text(&json_quote("")), "\"\"");
}

#[test]
fn laying_out_json() {
    let parts = vec![chars_of("1"), chars_of("2")];
    assert_eq!(text(&wrap(&parts, '[', ']', "", 0)), "[1,2]");
    assert_eq!(text(&wrap(&parts, '[', ']', "  ", 0)), "[\n  1,\n  2\n]");
    assert_eq!(text(&wrap(&parts, '[', ']', "  ", 1)), "[\n    1,\n    2\n  ]");
    assert_eq!(text(&wrap(&Vec::new(), '{', '}', "  ", 3)), "{}");
}

#[test]
fn replacement_templates() {
    let hay = chars_of("xaby");
    assert_eq!(text(&expand_replacement("[$&|$`|$'|$$]", &hay, 1, 3)), "[ab|x|y|$]");
    assert_eq!(text(&expand_replacement("$1$x", &hay, 1, 3)), "$1$x");
    assert_eq!(text(&expand_replacement("$&", &hay, 1, 3)), "ab");
    assert_eq!(text(&expand_replacement("plain", &hay, 1, 3)), "plain");
}

fn decimal(s: &str) -> Option<(bool, String)> {
    match parse_float_prefix(s) {
        Literal::Decimal { negative, text } => Some((negative, text)),
        _ => None,
    }
}

#[test]
fn decimal_prefixes() {
    assert_eq!(decimal("3.14abc").map(|d| d.1.parse::<f64>().unwrap()), Some(3.14));
    assert_eq!(decimal("-2.5e3x").map(|d| (d.0, d.1.parse::<f64>().unwrap())), Some((true, 2500.0)));
    assert_eq!(decimal("1ex").map(|d| d.1.parse::<f64>().unwrap()), Some(1.0));
    assert_eq!(decimal(".5").map(|d| d.1.parse::<f64>().unwrap()), Some(0.5));
    assert_eq!(decimal("7.").map(|d| d.1.parse::<f64>().unwrap()), Some(7.0));
    assert!(matches!(parse_float_prefix("abc"), Literal::Missing));
    assert!(matches!(parse_float_prefix("."), Literal::Missing));
    assert!(matches!(parse_float_prefix("-Infinityx"), Literal::Infinite { negative: true }));
    assert!(matches!(parse_float_prefix("+Infinity"), Literal::Infinite { negative: false }));
}

fn integer(s: &str, radix: i64) -> Option<(bool, u32, String)> {
    scan_integer(s, radix).map(|p| (p.negative, p.radix, p.digits))
}

#[test]
fn integer_prefixes() {
    assert_eq!(integer("42px", 0), Some((false, 10, "42".to_string())));
    assert_eq!(integer("-0x1Fz", 0), Some((true, 16, "1F".to_string())));
    assert_eq!(integer("0x1F", 16), Some((false, 16, "1F".to_string())));
    assert_eq!(integer("129", 2), Some((false, 2, "1".to_string())));
    assert_eq!(integer("9", 2), Some((false, 2, String::new())));
    assert_eq!(integer("12", 1), None);
    assert_eq!(integer("12", 37), None);
    assert_eq!(integer("", 10), Some((false, 10, String::new())));
    assert_eq!(integer(&decimal_text(1234567), 10), Some((false, 10, "1234567".to_string())));
}

#[test]
fn spaces() {
    assert_eq!(trim_start("\u{85}\t\n x "), "x ");
    assert_eq!(trim_start("\u{feff}x"), "\u{feff}x");
    assert_eq!(trim_leading("  x "), "x ");
    assert_eq!(trim_trailing("  x "), "  x");
    assert!(is_js_ws('\u{feff}') && is_js_ws(' ') && !is_js_ws('x'));
    assert!(is_blank(" \t\u{3000}") && is_blank("") && !is_blank(" x"));
}

#[test]
fn code_units() {
    assert_eq!(units_of("a\u{1f600}"), vec![97, 0xd83d, 0xde00]);
    assert_eq!(text_of_units(&vec![97, 0xd83d, 0xde00]), "a\u{1f600}");
    assert_eq!(text_of_units(&vec![0xd83d, 97]), "\u{fffd}a");
    assert_eq!(text_of_units(&vec![0xde00]), "\u{fffd}");
    assert_eq!(text_of_units(&units_of("\u{ac00}\u{10ffff}z")), "\u{ac00}\u{10ffff}z");
}

#[test]
fn finding() {
    let hay = units_of("abcabc");
    assert_eq!(find_units(&hay, &units_of("bc"), 0), Some(1));
    assert_eq!(find_units(&hay, &units_of("bc"), 2), Some(4));
    assert_eq!(find_units(&hay, &units_of("x"), 0), None);
    assert_eq!(find_last_units(&hay, &units_of("bc")), Some(4));
    assert_eq!(find_text(&chars_of("abcabc"), &chars_of("ca"), 0), Some(2));
    assert_eq!(find_text(&chars_of("abc"), &chars_of("ca"), 0), None);
}

#[test]
fn splitting() {
    assert_eq!(split_by_text("a,b,c", ",", u32::MAX), vec!["a", "b", "c"]);
    assert_eq!(split_by_text("a,b,c", ",", 2), vec!["a", "b"]);
    assert_eq!(split_by_text("a,b,c", ";", u32::MAX), vec!["a,b,c"]);
    assert_eq!(split_by_text("abc", "", u32::MAX), vec!["a", "b", "c"]);
    assert_eq!(split_by_text(",", ",", u32::MAX), vec!["", ""]);
    assert_eq!(split_by_text("a--b", "--", u32::MAX).join("--"), "a--b");
}

#[test]
fn padding_and_repeating() {
    assert_eq!(pad_text("5", 3, "0", true), "005");
    assert_eq!(pad_text("5", 4, "ab", false), "5aba");
    assert_eq!(pad_text("12345", 3, "0", true), "12345");
    assert_eq!(pad_text("5", 9, "", true), "5");
    assert_eq!(pad_text("\u{1f600}", 3, "0", true), "0\u{1f600}");
    assert_eq!(pad_text("5", 4, "\u{1f600}", false), "5\u{1f600}\u{fffd}");
    assert_eq!(repeat_text("ab", 3), "ababab");
    assert_eq!(repeat_text("ab", 0), "");
}

#[test]
fn index_keys() {
    assert_eq!(decimal_text(0), "0");
    assert_eq!(decimal_text(907), "907");
    assert_eq!(parse_count("907"), Some(907));
    assert_eq!(parse_count("18446744073709551615"), Some(u64::MAX));
    assert_eq!(parse_count("18446744073709551616"), None);
    assert_eq!(parse_count("x"), None);
    assert_eq!(parse_count(""), None);
}

#[test]
fn order_of_texts() {
    assert!(is_text_less("a", "b"));
    assert!(is_text_less("a", "aa"));
    assert!(!is_text_less("b", "aa"));
    assert!(!is_text_less("a", "a"));
}

#[test]
fn lower_case_of_ascii() {
    assert_eq!(to_ascii_lower("Content-TYPE\u{c9}"), "content-type\u{c9}");
    assert_eq!(string_of(&chars_of("ab")), "ab");
}

#[test]
fn symbols_from_their_keys() {
    assert!(is_symbol_key("\0@@sym:3:name"));
    assert!(!is_symbol_key("name"));
    match symbol_from_key("\0@@sym:3:name") {
        Value::Symbol(d) => {
            assert_eq!(d.key, "\0@@sym:3:name");
            assert_eq!(d.desc, Some("name".to_string()));
        },
        other => panic!("{:?}", other),
    }
    match symbol_from_key("\0@@for:shared") {
        Value::Symbol(d) => assert_eq!(d.desc, Some("shared".to_string())),
        other => panic!("{:?}", other),
    }
}
