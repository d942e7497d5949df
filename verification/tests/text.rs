use wam::text::{
    chars_of, concat3, ends_with, find_last, matches_at, parse_u64, same_text, spaces_to_plus,
    starts_with, text_after_last,
};

#[test]
fn after_last_takes_the_final_segment() {
    assert_eq!(text_after_last("https://host/a/b/file.zip", "/"), "file.zip");
    assert_eq!(text_after_last("no-slash", "/"), "no-slash");
    assert_eq!(text_after_last("ends/", "/"), "");
    assert_eq!(text_after_last("", "/"), "");
}

#[test]
fn after_last_handles_longer_marks() {
    assert_eq!(text_after_last("attachment; filename=addon.zip", "filename="), "addon.zip");
    assert_eq!(text_after_last("addons.php?id=42", "?id="), "42");
    assert_eq!(text_after_last("a?id=1&b?id=2", "?id="), "2");
    assert_eq!(text_after_last("short", "much longer than the text"), "short");
}

#[test]
fn after_last_agrees_with_split_last() {
    let samples = ["a/b", "/", "//", "a//b/", "héllo/wörld", "x"];
    for s in samples {
        assert_eq!(text_after_last(s, "/"), s.split('/').last().unwrap());
    }
}

#[test]
fn parse_u64_reads_decimal() {
    assert_eq!(parse_u64("1000"), Some(1000));
    assert_eq!(parse_u64("0"), Some(0));
    assert_eq!(parse_u64("007"), Some(7));
    assert_eq!(parse_u64("+7"), Some(7));
    assert_eq!(parse_u64("18446744073709551615"), Some(u64::MAX));
}

#[test]
fn parse_u64_rejects_what_is_no_number() {
    assert_eq!(parse_u64(""), None);
    assert_eq!(parse_u64("+"), None);
    assert_eq!(parse_u64("-1"), None);
    assert_eq!(parse_u64("12a"), None);
    assert_eq!(parse_u64(" 12"), None);
    assert_eq!(parse_u64("1 2"), None);
    assert_eq!(parse_u64("++1"), None);
    assert_eq!(parse_u64("18446744073709551616"), None);
    assert_eq!(parse_u64("99999999999999999999999"), None);
}

#[test]
fn parse_u64_agrees_with_the_standard_parser() {
    let samples = ["", "0", "+0", "-0", "42", "4 2", "٣", "1e3", "18446744073709551615", "18446744073709551616"];
    for s in samples {
        assert_eq!(parse_u64(s), s.parse::<u64>().ok(), "on {:?}", s);
    }
}

#[test]
fn prefix_and_suffix() {
    assert!(starts_with("/downloads/tukui-1.zip", "/downloads/tukui"));
    assert!(!starts_with("/download/tukui-1.zip", "/downloads/tukui"));
    assert!(starts_with("abc", ""));
    assert!(!starts_with("ab", "abc"));
    assert!(ends_with("tukui-1.zip", ".zip"));
    assert!(!ends_with("tukui-1.zip.txt", ".zip"));
    assert!(ends_with("abc", ""));
    assert!(!ends_with("ip", ".zip"));
}

#[test]
fn same_text_compares_characters() {
    assert!(same_text("curse", "curse"));
    assert!(!same_text("curse", "Curse"));
    assert!(!same_text("curse", "curses"));
    assert!(same_text("", ""));
}

#[test]
fn spaces_become_plus_signs() {
    assert_eq!(spaces_to_plus("Addon Skins"), "Addon+Skins");
    assert_eq!(spaces_to_plus(" a  b "), "+a++b+");
    assert_eq!(spaces_to_plus("none"), "none");
    assert_eq!(spaces_to_plus(""), "");
    assert_eq!(spaces_to_plus("é è"), "é+è");
}

#[test]
fn concat3_joins_in_order() {
    assert_eq!(concat3("a", "/", "b"), "a/b");
    assert_eq!(concat3("", "", ""), "");
}

#[test]
fn characters_are_counted_not_bytes() {
    assert_eq!(chars_of("héé"), vec!['h', 'é', 'é']);
    assert_eq!(chars_of(""), Vec::new());
    assert_eq!(text_after_last("é/è/ü", "/"), "ü");
    assert_eq!(text_after_last("añb", "ñ"), "b");
}

#[test]
fn find_last_gives_the_last_occurrence() {
    let hay = chars_of("abcabc");
    assert_eq!(find_last(&hay, &chars_of("bc")), Some(4));
    assert_eq!(find_last(&hay, &chars_of("abc")), Some(3));
    assert_eq!(find_last(&hay, &chars_of("x")), None);
    assert_eq!(find_last(&hay, &chars_of("")), Some(6));
    assert_eq!(find_last(&chars_of("aaa"), &chars_of("aa")), Some(1));
    assert!(matches_at(&hay, &chars_of("cab"), 2));
    assert!(!matches_at(&hay, &chars_of("cab"), 3));
    assert!(!matches_at(&hay, &chars_of("bc"), 5));
}
