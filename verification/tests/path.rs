use dfs_host::path::{join_paths, parent_path, trim_leading_slashes};

#[test]
fn leading_slashes_are_trimmed() {
    assert_eq!(trim_leading_slashes("/a/b"), "a/b");
    assert_eq!(trim_leading_slashes("///a"), "a");
    assert_eq!(trim_leading_slashes("a/"), "a/");
    assert_eq!(trim_leading_slashes("//"), "");
    assert_eq!(trim_leading_slashes(""), "");
    assert_eq!(trim_leading_slashes("/é/x"), "é/x");
}

#[test]
fn joining_puts_one_slash_between() {
    assert_eq!(join_paths("/a", "/b"), "a/b");
    assert_eq!(join_paths("a", "b"), "a/b");
    assert_eq!(join_paths("a/", "b"), "a/b");
    assert_eq!(join_paths("a/b", "c/d"), "a/b/c/d");
    assert_eq!(join_paths("./", "a"), "./a");
}

#[test]
fn joining_with_an_empty_side() {
    assert_eq!(join_paths("", "b"), "b");
    assert_eq!(join_paths("/", "/b"), "b");
    assert_eq!(join_paths("a", ""), "a/");
    assert_eq!(join_paths("", ""), "");
}

#[test]
fn joining_is_what_the_standard_path_does() {
    for (rel, sub) in [("/a", "/b"), ("a/", "b"), ("", "b"), ("a", ""), ("./", "x/y"), ("a/b", "c")] {
        let expected = std::path::PathBuf::new()
            .join(rel.trim_start_matches('/'))
            .join(sub.trim_start_matches('/'));
        assert_eq!(join_paths(rel, sub), expected.to_string_lossy());
    }
}

#[test]
fn parent_is_the_path_without_its_last_component() {
    assert_eq!(parent_path("a/b"), "a");
    assert_eq!(parent_path("a/b/c"), "a/b");
    assert_eq!(parent_path("a/b/"), "a");
    assert_eq!(parent_path("a//b"), "a");
    assert_eq!(parent_path("./a"), ".");
}

#[test]
fn parent_of_a_single_component_is_empty() {
    assert_eq!(parent_path("a"), "");
    assert_eq!(parent_path("a/"), "");
    assert_eq!(parent_path(""), "");
    assert_eq!(parent_path("/"), "");
    assert_eq!(parent_path("/a"), "");
}
