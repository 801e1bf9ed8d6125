use redarrow::client::Opts;
use redarrow::pattern::{is_usable, matches_fully};
use redarrow::template::{fill, index_below, measure, placeholder_names, unquote};

fn chars(s: &str) -> Vec<char> {
    s.chars().collect()
}

fn filled(token: &str, arguments: &[&str]) -> Option<String> {
    let arguments: Vec<String> = arguments.iter().map(|s| s.to_string()).collect();
    fill(token, &arguments).map(|v| v.into_iter().collect())
}

#[test]
fn placeholder_is_dollar_brace_digits_brace() {
    let t = chars("a${12}b${}${x}${3");
    assert_eq!(measure(&t, 0), 0);
    assert_eq!(measure(&t, 1), 5);
    assert_eq!(measure(&t, 2), 0);
    assert_eq!(measure(&t, 7), 0);
    assert_eq!(measure(&t, 10), 0);
    assert_eq!(measure(&t, 14), 0);
    assert_eq!(measure(&t, 16), 0);
    assert_eq!(measure(&chars("${0}"), 0), 4);
    assert_eq!(measure(&chars("${0"), 0), 0);
    assert_eq!(measure(&chars("$"), 0), 0);
    assert_eq!(measure(&chars("${007}x"), 0), 6);
}

#[test]
fn digits_of_other_scripts_make_no_placeholder() {
    assert_eq!(measure(&chars("${\u{663}}"), 0), 0);
    assert_eq!(filled("${\u{663}}", &["a"]).as_deref(), Some("${\u{663}}"));
    assert!(placeholder_names("${\u{663}} ${\u{ff11}}").is_empty());
}

#[test]
fn index_is_read_below_a_limit() {
    let t = chars("x0123456789012345678901234567890y");
    assert_eq!(index_below(&t, 1, 2, 1), Some(0));
    assert_eq!(index_below(&t, 1, 3, 2), Some(1));
    assert_eq!(index_below(&t, 1, 3, 1), None);
    assert_eq!(index_below(&t, 2, 5, 124), Some(123));
    assert_eq!(index_below(&t, 2, 5, 123), None);
    assert_eq!(index_below(&t, 2, 32, usize::MAX), None);
    assert_eq!(index_below(&t, 1, 1, 5), Some(0));
    assert_eq!(index_below(&t, 1, 1, 0), None);
}

#[test]
fn placeholders_are_filled_from_left_to_right() {
    assert_eq!(filled("${0}", &["a"]).as_deref(), Some("a"));
    assert_eq!(filled("${1}${0}${1}", &["a", "b"]).as_deref(), Some("bab"));
    assert_eq!(filled("x${0}y", &[""]).as_deref(), Some("xy"));
    assert_eq!(filled("${00}", &["a"]).as_deref(), Some("a"));
    assert_eq!(filled("${0}", &["${0}"]).as_deref(), Some("${0}"));
    assert_eq!(filled("${0}", &["${1}", "z"]).as_deref(), Some("${1}"));
    assert_eq!(filled("$${0}}", &["a"]).as_deref(), Some("$a}"));
    assert_eq!(filled("${${0}}", &["1", "b"]).as_deref(), Some("${1}"));
    assert_eq!(filled("plain", &[]).as_deref(), Some("plain"));
    assert_eq!(filled("", &[]).as_deref(), Some(""));
    assert_eq!(filled("caf\u{e9} ${0}", &["\u{e9}"]).as_deref(), Some("caf\u{e9} \u{e9}"));
}

#[test]
fn placeholder_beyond_the_arguments_is_unbound() {
    assert_eq!(filled("${0}", &[]), None);
    assert_eq!(filled("${1}", &["a"]), None);
    assert_eq!(filled("${0} ${2}", &["a", "b"]), None);
    assert_eq!(filled("${18446744073709551616}", &["a"]), None);
}

#[test]
fn names_are_listed_as_written() {
    assert_eq!(placeholder_names("cp ${1} ${0} ${1} ${01}"), vec!["1", "0", "1", "01"]);
    assert!(placeholder_names("no placeholders $ {0} ${} ${a}").is_empty());
    assert_eq!(placeholder_names("${0}${1}"), vec!["0", "1"]);
}

#[test]
fn quotes_are_dropped_in_pairs_only() {
    let strip = |s: &str| unquote(&chars(s));
    assert_eq!(strip("\"a\""), "a");
    assert_eq!(strip("'a'"), "a");
    assert_eq!(strip("\"\"a\"\""), "\"a\"");
    assert_eq!(strip("\"'a'\""), "'a'");
    assert_eq!(strip("\"a'"), "\"a'");
    assert_eq!(strip("\"a"), "\"a");
    assert_eq!(strip("a\""), "a\"");
    assert_eq!(strip("\""), "\"");
    assert_eq!(strip("\"\""), "");
    assert_eq!(strip("''"), "");
    assert_eq!(strip(""), "");
    assert_eq!(strip("a"), "a");
    assert_eq!(strip("`a`"), "`a`");
}

#[test]
fn patterns_are_checked_and_matched_whole() {
    assert!(is_usable(r"\d+"));
    assert!(is_usable(""));
    assert!(is_usable("a|ab"));
    assert!(!is_usable("("));
    assert!(!is_usable("a)(b"));
    assert!(!is_usable(r"\w{1000}"));
    assert!(matches_fully(r"\d+", "123"));
    assert!(!matches_fully(r"\d+", "123a"));
    assert!(!matches_fully(r"\d+", "a123"));
    assert!(!matches_fully(r"\d+", ""));
    assert!(matches_fully("", ""));
    assert!(matches_fully("a|ab", "ab"));
    assert!(matches_fully("^a$", "a"));
    assert!(!matches_fully("a", "a\n"));
    assert!(matches_fully("(?i)abc", "ABC"));
}

fn expected_escape(text: &str) -> String {
    let mut out = String::new();
    for b in text.bytes() {
        let kept = b.is_ascii_alphanumeric() || b == b'*' || b == b'-' || b == b'.' || b == b'_';
        if kept {
            out.push(b as char);
        } else if b == b' ' {
            out.push('+');
        } else {
            out.push('%');
            out.push(char::from_digit((b / 16) as u32, 16).unwrap().to_ascii_uppercase());
            out.push(char::from_digit((b % 16) as u32, 16).unwrap().to_ascii_uppercase());
        }
    }
    out
}

#[test]
fn every_ascii_character_is_form_encoded_as_stated() {
    for code in 0u8..128 {
        let argument = (code as char).to_string();
        if argument == " " {
            continue;
        }
        let opts = Opts {
            host: "h".to_string(),
            port: 1,
            command: "c".to_string(),
            arguments: vec![argument.clone(), "z".to_string()],
        };
        let expected = format!(
            "http://h:1/command/c?chunked=1&argument={}%2Bz",
            expected_escape(&argument)
        );
        let expected = expected.replace("%2Bz", "+z");
        assert_eq!(opts.build_url(), expected, "code {}", code);
    }
    for text in ["\u{e9}", "\u{20ac}", "\u{1f600}", "a b", "  "] {
        let opts = Opts {
            host: "h".to_string(),
            port: 1,
            command: "c".to_string(),
            arguments: vec![text.to_string()],
        };
        assert_eq!(
            opts.build_url(),
            format!("http://h:1/command/c?chunked=1&argument={}", expected_escape(text))
        );
    }
}
