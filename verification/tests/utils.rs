use hitomi_downloader::utils::filename_filter;

#[test]
fn filename_filter_replaces_refused_characters() {
    assert_eq!(filename_filter("a\\b/c\nd"), "a b c d");
    assert_eq!(filename_filter("a:b"), "a\u{ff1a}b");
    assert_eq!(filename_filter("a*b"), "a\u{2b50}b");
    assert_eq!(filename_filter("a?b"), "a\u{ff1f}b");
    assert_eq!(filename_filter("a\"b"), "a'b");
    assert_eq!(filename_filter("a<b>c"), "a\u{300a}b\u{300b}c");
    assert_eq!(filename_filter("a|b"), "a\u{4e28}b");
    assert_eq!(filename_filter("plain name"), "plain name");
}

#[test]
fn filename_filter_trims_white_space_and_trailing_dots() {
    assert_eq!(filename_filter("  title  "), "title");
    assert_eq!(filename_filter("title..."), "title");
    assert_eq!(filename_filter("title. . "), "title.");
    assert_eq!(filename_filter(" title ... "), "title");
    assert_eq!(filename_filter("/title/"), "title");
    assert_eq!(filename_filter("..."), "");
    assert_eq!(filename_filter(""), "");
    assert_eq!(filename_filter(".hidden"), ".hidden");
}

#[test]
fn filename_filter_is_idempotent_on_names_without_trailing_dot() {
    for text in [
        "a\\b/c", "  What? *Really* <ok> | \"yes\": no  ", "title...", " x . ", "tab\tname",
        "\u{3000}wide\u{3000}", "a.b.c", "",
    ] {
        let once = filename_filter(text);
        assert!(!once.ends_with('.'));
        assert_eq!(filename_filter(&once), once);
    }
}

#[test]
fn filename_filter_changes_a_name_that_ends_in_a_dot() {
    let once = filename_filter("a. .");
    assert_eq!(once, "a.");
    assert_eq!(filename_filter(&once), "a");
}
