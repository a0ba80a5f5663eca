use symlonk::path::{join, normalize_path, parent};

#[test]
fn normalize_keeps_a_clean_absolute_path() {
    assert_eq!(normalize_path("/a/b/c", None), "/a/b/c");
}

#[test]
fn normalize_drops_current_directory_segments() {
    assert_eq!(normalize_path("/a/./b/.", None), "/a/b");
    assert_eq!(normalize_path("./a", None), "a");
    assert_eq!(normalize_path(".", None), "");
}

#[test]
fn normalize_resolves_parent_segments() {
    assert_eq!(normalize_path("/a/b/../c", None), "/a/c");
    assert_eq!(normalize_path("a/b/../../c", None), "c");
}

#[test]
fn normalize_parent_of_nothing_is_no_error() {
    assert_eq!(normalize_path("/..", None), "/");
    assert_eq!(normalize_path("/../a", None), "/a");
    assert_eq!(normalize_path("..", None), "");
    assert_eq!(normalize_path("../a", None), "a");
}

#[test]
fn normalize_collapses_separators() {
    assert_eq!(normalize_path("//a///b/", None), "/a/b");
    assert_eq!(normalize_path("/", None), "/");
    assert_eq!(normalize_path("", None), "");
}

#[test]
fn normalize_replaces_tilde_by_home() {
    assert_eq!(normalize_path("~/x", Some("/home/u")), "/home/u/x");
    assert_eq!(normalize_path("~", Some("/home/u")), "/home/u");
    assert_eq!(normalize_path("/b/~/x", Some("/home/u")), "/home/u/x");
    assert_eq!(normalize_path("~/..", Some("/home/u")), "/home");
}

#[test]
fn normalize_keeps_tilde_without_home() {
    assert_eq!(normalize_path("~/x", None), "~/x");
    assert_eq!(normalize_path("/a/~", None), "/a/~");
}

#[test]
fn normalize_takes_home_by_its_components() {
    assert_eq!(normalize_path("~/x", Some("/home//u/")), "/home/u/x");
    assert_eq!(normalize_path("~/x", Some("")), "x");
    assert_eq!(normalize_path("~/x", Some("rel/./h")), "rel/h/x");
}

#[test]
fn normalize_tilde_inside_a_name_is_a_name() {
    assert_eq!(normalize_path("/a/~b/c~", Some("/home/u")), "/a/~b/c~");
}

#[test]
fn normalize_is_idempotent_on_examples() {
    for p in ["/a/../b/./c", "x/y/..", "~/q", "//"] {
        let once = normalize_path(p, Some("/h"));
        assert_eq!(normalize_path(&once, Some("/h")), once);
    }
}

#[test]
fn join_puts_relative_behind_base() {
    assert_eq!(join("/a/b", "c/d", None), "/a/b/c/d");
    assert_eq!(join("/a/b/", "c", None), "/a/b/c");
    assert_eq!(join("", "c", None), "c");
}

#[test]
fn join_absolute_second_replaces_first() {
    assert_eq!(join("/a/b", "/c", None), "/c");
}

#[test]
fn join_normalizes_the_whole() {
    assert_eq!(join("/a/b", "../c", None), "/a/c");
    assert_eq!(join("/a/b", "./c/.", None), "/a/b/c");
    assert_eq!(join("/a/b", "", None), "/a/b");
}

#[test]
fn join_resolves_tilde_in_second() {
    assert_eq!(join("/dest", "~/.bashrc", Some("/home/u")), "/home/u/.bashrc");
    assert_eq!(join("/dest", "~/.bashrc", None), "/dest/~/.bashrc");
}

#[test]
fn parent_drops_the_last_name() {
    assert_eq!(parent("/a/b/c"), Some("/a/b".to_string()));
    assert_eq!(parent("/a"), Some("/".to_string()));
    assert_eq!(parent("a"), Some("".to_string()));
    assert_eq!(parent("a/b/"), Some("a".to_string()));
}

#[test]
fn parent_of_a_path_without_name_is_none() {
    assert_eq!(parent("/"), None);
    assert_eq!(parent(""), None);
    assert_eq!(parent("."), None);
}

#[test]
fn normalize_handles_non_ascii_names() {
    assert_eq!(normalize_path("/données/./été/../x", None), "/données/x");
}
