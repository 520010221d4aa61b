use rust_paper::text::{lex_less, split_str, trim_str};
use rust_paper::wallpapers::{is_url, normalize, to_array, WallpaperSet};

fn ids(set: &WallpaperSet) -> Vec<String> {
    let mut out = Vec::new();
    for i in 0..set.len() {
        out.push(set.get(i).clone());
    }
    out
}

fn strs(v: &[&str]) -> Vec<String> {
    v.iter().map(|s| s.to_string()).collect()
}

#[test]
fn add_urls_bare_ids_and_lists() {
    let mut set = WallpaperSet::new();
    set.add(&strs(&["https://example.com/w/abc123?x=1", "def456", "foo,bar"]));
    assert_eq!(ids(&set), strs(&["abc123", "bar", "def456", "foo"]));
    assert_eq!(set.to_text(), "abc123\nbar\ndef456\nfoo\n");
}

#[test]
fn add_merges_and_dedups() {
    let mut set = WallpaperSet::from_text("zz\nab\n");
    set.add(&strs(&["ab", "m, zz ,, q"]));
    assert_eq!(ids(&set), strs(&["ab", "m", "q", "zz"]));
}

#[test]
fn add_nothing_keeps_set() {
    let mut set = WallpaperSet::from_text("b\na\n");
    set.add(&Vec::new());
    assert_eq!(ids(&set), strs(&["a", "b"]));
}

#[test]
fn load_splits_lines_and_commas() {
    let set = WallpaperSet::from_text("x1,x2\r\n\n  y3 \nx1\n");
    assert_eq!(ids(&set), strs(&["x1", "x2", "y3"]));
}

#[test]
fn load_empty_text() {
    let set = WallpaperSet::from_text("");
    assert_eq!(set.len(), 0);
    assert_eq!(set.to_text(), "");
}

#[test]
fn order_is_by_code_point() {
    let set = WallpaperSet::from_text("b\nB\na1\na\n");
    assert_eq!(ids(&set), strs(&["B", "a", "a1", "b"]));
    assert!(lex_less("a", "ab"));
    assert!(!lex_less("ab", "a"));
    assert!(!lex_less("x", "x"));
}

#[test]
fn url_detection() {
    assert!(is_url("https://wallhaven.cc/w/abc"));
    assert!(is_url("http://x/y"));
    assert!(!is_url("abc123"));
    assert!(!is_url("ftp://x/y"));
}

#[test]
fn normalize_items() {
    assert_eq!(normalize("https://example.com/w/abc123?x=1"), "abc123");
    assert_eq!(normalize("https://example.com/w/abc123"), "abc123");
    assert_eq!(normalize("https://example.com/w/"), "");
    assert_eq!(normalize("plain?id"), "plain?id");
}

#[test]
fn to_array_trims_and_drops_empty() {
    assert_eq!(to_array(" a , b,,c ,"), strs(&["a", "b", "c"]));
    assert_eq!(to_array(""), Vec::<String>::new());
    assert_eq!(to_array("\u{3000}z\u{a0}"), strs(&["z"]));
}

#[test]
fn split_and_trim_text() {
    assert_eq!(split_str("a,,b", ','), strs(&["a", "", "b"]));
    assert_eq!(split_str("", ','), strs(&[""]));
    assert_eq!(trim_str("\t x y \n"), "x y");
    assert_eq!(trim_str("   "), "");
}
