use std::path::Path;
use style_batch::numeral::parse_u32;
use style_batch::outpath::derive_output_path;

#[test]
fn output_path_replaces_extension() {
    assert_eq!(derive_output_path("photo.jpg"), "photo.out.png");
    assert_eq!(derive_output_path("in/x.jpeg"), "in/x.out.png");
    assert_eq!(derive_output_path("/abs/dir/pic.png"), "/abs/dir/pic.out.png");
}

#[test]
fn output_path_without_extension_gains_marker() {
    assert_eq!(derive_output_path("photo"), "photo.out.png");
    assert_eq!(derive_output_path("dir.d/file"), "dir.d/file.out.png");
}

#[test]
fn output_path_with_many_dots_keeps_all_but_last() {
    assert_eq!(derive_output_path("a.b.c"), "a.b.out.png");
    assert_eq!(derive_output_path("archive.tar.gz"), "archive.tar.out.png");
}

#[test]
fn output_path_leading_dot_name_has_no_extension() {
    assert_eq!(derive_output_path(".gitignore"), ".gitignore.out.png");
    assert_eq!(derive_output_path("dir/.hidden"), "dir/.hidden.out.png");
    assert_eq!(derive_output_path(".hidden.swp"), ".hidden.out.png");
}

#[test]
fn output_path_always_ends_with_marker() {
    for input in ["", "a", "a.", "a.b", "x/y/z.q", "..", "weird..", "ünïcodé.jpg"] {
        assert!(derive_output_path(input).ends_with(".out.png"), "input {:?}", input);
    }
}

#[test]
fn output_path_agrees_with_std_on_ordinary_names() {
    for input in [
        "photo.jpg",
        "in/a.png",
        "dir/sub/pic.tiff",
        "noext",
        "a.b.c",
        "/abs/p.q/r.s",
    ] {
        let expected = Path::new(input).with_extension("out.png");
        assert_eq!(derive_output_path(input), expected.display().to_string());
    }
}

#[test]
fn parse_accepts_plain_numerals() {
    assert_eq!(parse_u32("0"), Some(0));
    assert_eq!(parse_u32("100"), Some(100));
    assert_eq!(parse_u32("007"), Some(7));
    assert_eq!(parse_u32("4294967295"), Some(u32::MAX));
}

#[test]
fn parse_accepts_leading_plus() {
    assert_eq!(parse_u32("+42"), Some(42));
    assert_eq!(parse_u32("+0"), Some(0));
}

#[test]
fn parse_rejects_malformed_input() {
    assert_eq!(parse_u32(""), None);
    assert_eq!(parse_u32("+"), None);
    assert_eq!(parse_u32("abc"), None);
    assert_eq!(parse_u32("12a"), None);
    assert_eq!(parse_u32("-1"), None);
    assert_eq!(parse_u32(" 1"), None);
    assert_eq!(parse_u32("1 "), None);
    assert_eq!(parse_u32("1.5"), None);
}

#[test]
fn parse_rejects_overflow() {
    assert_eq!(parse_u32("4294967296"), None);
    assert_eq!(parse_u32("99999999999999999999"), None);
}

#[test]
fn parse_agrees_with_std() {
    for s in [
        "0", "1", "100", "+100", "007", "4294967295", "4294967296", "", "+", "-0", "abc", "1x",
        " 2", "2 ", "١",
    ] {
        assert_eq!(parse_u32(s), s.parse::<u32>().ok(), "input {:?}", s);
    }
}
