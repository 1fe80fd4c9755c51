use cowork_supervisor::error::{AppError, Failure};
use cowork_supervisor::text::{
    char_is_white_space, chars_of, ends_with, joined, render_decimal, same_text, split_lines,
    starts_with, string_of, to_lower_char, to_lowered, trim,
};

#[test]
fn white_space_is_what_the_standard_library_calls_white_space() {
    let mut c = 0u32;
    while c <= 0x10FFFF {
        if let Some(ch) = char::from_u32(c) {
            assert_eq!(char_is_white_space(ch), ch.is_whitespace(), "{:?}", ch);
        }
        c += 1;
    }
}

#[test]
fn trim_agrees_with_the_standard_library() {
    for s in [
        "",
        " ",
        "\t\r\n",
        "a",
        "  a",
        "a  ",
        " a b ",
        "\u{2003}server\u{3000}",
        "\u{feff}x",
        "\n{\"a\": 1}\r\n",
        " é ",
    ] {
        assert_eq!(trim(s), s.trim(), "{:?}", s);
    }
}

#[test]
fn only_ascii_letters_fold_to_ascii_letters() {
    // Folding ASCII capitals decides "is it server or client" as full
    // lower-casing would, because no other character lower-cases to one of
    // their letters.
    let mut c = 0u32;
    while c <= 0x10FFFF {
        if let Some(ch) = char::from_u32(c) {
            let lowered: String = ch.to_lowercase().collect();
            let hits = lowered.chars().count() == 1
                && "servclint".contains(lowered.chars().next().unwrap());
            if hits {
                assert!(ch.is_ascii_alphabetic(), "{:?}", ch);
            }
            if ch.is_ascii() {
                assert_eq!(to_lower_char(ch).to_string(), lowered, "{:?}", ch);
            } else {
                assert_eq!(to_lower_char(ch), ch);
            }
        }
        c += 1;
    }
}

#[test]
fn lowers_ascii_capitals_only() {
    assert_eq!(to_lowered("SeRvEr"), "server");
    assert_eq!(to_lowered("ÀB-9_z"), "Àb-9_z");
    assert_eq!(to_lowered(""), "");
}

#[test]
fn decimal_numerals() {
    assert_eq!(render_decimal(0), "0");
    assert_eq!(render_decimal(7), "7");
    assert_eq!(render_decimal(10), "10");
    assert_eq!(render_decimal(15), "15");
    assert_eq!(render_decimal(1234567890), "1234567890");
    assert_eq!(render_decimal(u64::MAX), "18446744073709551615");
}

#[test]
fn splits_at_line_feeds() {
    assert_eq!(split_lines(""), vec![""]);
    assert_eq!(split_lines("a"), vec!["a"]);
    assert_eq!(split_lines("a\n"), vec!["a", ""]);
    assert_eq!(split_lines("a\nb"), vec!["a", "b"]);
    assert_eq!(split_lines("a\n\nb\n"), vec!["a", "", "b", ""]);
    assert_eq!(split_lines("a\r\nb"), vec!["a\r", "b"]);
}

#[test]
fn compares_and_joins_text() {
    assert!(same_text("abc", "abc"));
    assert!(!same_text("abc", "abd"));
    assert!(!same_text("abc", "ab"));
    assert!(same_text("", ""));
    assert_eq!(joined("ab", "cd"), "abcd");
    assert_eq!(joined("", ""), "");
}

#[test]
fn prefixes_and_suffixes() {
    assert!(starts_with("cowork-server-x", "cowork-server-"));
    assert!(starts_with("abc", ""));
    assert!(!starts_with("ab", "abc"));
    assert!(!starts_with("xbc", "ab"));
    assert!(ends_with("a.exe", ".exe"));
    assert!(ends_with("abc", ""));
    assert!(!ends_with("exe", ".exe"));
    assert!(!ends_with("a.exf", ".exe"));
}

#[test]
fn characters_and_slices() {
    let chars = chars_of("héllo");
    assert_eq!(chars, vec!['h', 'é', 'l', 'l', 'o']);
    assert_eq!(string_of(&chars, 1, 4), "éll");
    assert_eq!(string_of(&chars, 2, 2), "");
}

#[test]
fn messages_of_errors() {
    assert_eq!(AppError::Io("disk full".to_string()).message(), "IO error: disk full");
    assert_eq!(AppError::Json("bad".to_string()).message(), "JSON error: bad");
    assert_eq!(
        AppError::ServerTimeout(15).message(),
        "Server startup timed out after 15 seconds"
    );
    assert_eq!(AppError::InvalidInput("x".to_string()).message(), "Invalid input: x");
    assert_eq!(AppError::NotFound("y".to_string()).message(), "Not found: y");
    assert_eq!(AppError::Process("z".to_string()).message(), "Process error: z");
}

#[test]
fn a_failure_is_shown_with_or_without_its_class() {
    let with_class = Failure::classed(AppError::InvalidInput("thread_id is too long".to_string()));
    assert!(with_class.classed);
    assert_eq!(with_class.shown(), "Invalid input: thread_id is too long");
    let without = Failure::plain(AppError::InvalidInput("thread_id is too long".to_string()));
    assert!(!without.classed);
    assert_eq!(without.error, AppError::InvalidInput("thread_id is too long".to_string()));
    assert_eq!(without.shown(), "thread_id is too long");
    assert_eq!(Failure::plain(AppError::Io("a".to_string())).shown(), "a");
    assert_eq!(Failure::classed(AppError::Io("a".to_string())).shown(), "IO error: a");
    assert_eq!(Failure::plain(AppError::Json("b".to_string())).shown(), "b");
    assert_eq!(Failure::plain(AppError::NotFound("c".to_string())).shown(), "c");
    assert_eq!(Failure::plain(AppError::Process("d".to_string())).shown(), "d");
    assert_eq!(
        Failure::plain(AppError::ServerTimeout(15)).shown(),
        "Server startup timed out after 15 seconds"
    );
    assert_eq!(
        Failure::classed(AppError::ServerTimeout(15)).shown(),
        "Server startup timed out after 15 seconds"
    );
}
