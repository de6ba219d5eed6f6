use clipway::model::{
    basename, classify, is_sensitive, max_bytes_for, preview, text_of, truncate, Kind, SENSITIVE_MIME,
};
use clipway::settings::Settings;

#[test]
fn classifies_supported_mimes() {
    assert_eq!(classify("text/plain;charset=utf-8"), Some(Kind::Text));
    assert_eq!(classify("TEXT/PLAIN"), Some(Kind::Text));
    assert_eq!(classify("image/png"), Some(Kind::Image));
    assert_eq!(classify("x-special/gnome-copied-files"), Some(Kind::Files));
    assert_eq!(classify("text/html"), None);
    assert_eq!(classify(SENSITIVE_MIME), None);
}

#[test]
fn detects_sensitive_mime() {
    assert!(is_sensitive("x-kde-passwordManagerHint"));
    assert!(!is_sensitive("text/plain"));
}

#[test]
fn previews_text() {
    assert_eq!(preview(Kind::Text, b"first line\nsecond"), "first line");
    assert_eq!(preview(Kind::Text, b"  a   b  \n c "), "a b");
    assert_eq!(preview(Kind::Text, b"   \n  \n"), "");
}

#[test]
fn previews_files() {
    assert_eq!(
        preview(Kind::Files, b"copy\n/tmp/a.txt\n/home/u/b.txt"),
        "a.txt +1 more"
    );
    assert_eq!(preview(Kind::Files, b"cut\n/tmp/only.txt"), "only.txt");
    assert_eq!(preview(Kind::Files, b""), "No files");
}

#[test]
fn previews_image_size() {
    assert_eq!(preview(Kind::Image, &[0; 2048]), "2 KB image");
    assert_eq!(preview(Kind::Image, &[0; 1]), "1 KB image");
}

#[test]
fn text_column_covers_text_and_files_only() {
    assert_eq!(text_of(Kind::Text, b"hello"), Some("hello".into()));
    assert_eq!(text_of(Kind::Files, b"copy\n/a"), Some("copy\n/a".into()));
    assert_eq!(text_of(Kind::Image, b"x"), None);
}

#[test]
fn kinds_come_back_from_their_numbers() {
    for kind in [Kind::Text, Kind::Image, Kind::Files] {
        assert_eq!(Kind::from_i64(kind.as_i64()), Some(kind));
    }
    assert_eq!(Kind::from_i64(3), None);
    assert_eq!(Kind::from_i64(-1), None);
    assert_eq!(Kind::Text.icon_name(), "format-text-symbolic");
    assert_eq!(Kind::Image.icon_name(), "image-x-generic-symbolic");
    assert_eq!(Kind::Files.icon_name(), "folder-symbolic");
}

#[test]
fn types_are_compared_without_white_space_and_case() {
    assert_eq!(classify(" Image/JPEG "), Some(Kind::Image));
    assert_eq!(classify("utf8_string"), None);
    assert_eq!(classify(""), None);
    assert!(is_sensitive("  X-KDE-PasswordManagerHint\n"));
    assert_eq!(classify("  X-KDE-PasswordManagerHint\n"), None);
}

#[test]
fn invalid_utf8_gets_replacement_characters() {
    assert_eq!(text_of(Kind::Text, b"a\xffb"), Some("a\u{fffd}b".into()));
    assert_eq!(preview(Kind::Text, b"\xff one\ntwo"), "\u{fffd} one");
    assert_eq!(preview(Kind::Files, b"/tmp/\xff.txt"), "\u{fffd}.txt");
}

#[test]
fn previews_are_at_most_120_characters() {
    let exact = "x".repeat(120);
    assert_eq!(preview(Kind::Text, exact.as_bytes()), exact);
    let long = "\u{e9}".repeat(121);
    let shown = preview(Kind::Text, long.as_bytes());
    assert_eq!(shown.chars().count(), 120);
    assert_eq!(shown, format!("{}\u{2026}", "\u{e9}".repeat(119)));
    assert_eq!(truncate(&['a', 'b'], 0), "\u{2026}");
    assert_eq!(truncate(&[], 0), "");
}

#[test]
fn file_previews_cover_the_odd_cases() {
    assert_eq!(preview(Kind::Files, b"copy\n"), "No files");
    assert_eq!(preview(Kind::Files, b"copy\ncut\n"), "cut");
    assert_eq!(preview(Kind::Files, b"\r\n cut \r\n/a/b/ \r\n/c"), "/a/b/ +1 more");
    assert_eq!(preview(Kind::Files, b"plain"), "plain");
    let chars: Vec<char> = " /usr/bin/env ".chars().collect();
    assert_eq!(basename(&chars), "env");
}

#[test]
fn image_previews_round_up() {
    assert_eq!(preview(Kind::Image, &[]), "0 KB image");
    assert_eq!(preview(Kind::Image, &[0; 1025]), "2 KB image");
}

#[test]
fn each_kind_has_its_cap() {
    let settings = Settings::new(false, Vec::new(), 500, 2048, 4096, false).snapshot();
    assert_eq!(max_bytes_for(Kind::Text, &settings), 2048);
    assert_eq!(max_bytes_for(Kind::Image, &settings), 4096);
    assert_eq!(max_bytes_for(Kind::Files, &settings), 65536);
}
