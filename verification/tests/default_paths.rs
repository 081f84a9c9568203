use teo_language_parser::fsutil::default::{parent_directory, path_is_absolute, path_join};

fn on_windows() -> bool {
    std::path::MAIN_SEPARATOR == '\\'
}

#[test]
fn test_parent_directory_returns_parent_directory_of_path() {
    let path = "src/fsutil/default.rs";
    let parent = parent_directory(path);
    assert_eq!(parent, "src/fsutil");
}

#[test]
fn test_path_is_absolute_returns_true_if_path_is_absolute() {
    if on_windows() {
        let path = "C:\\Users\\user";
        let is_absolute = path_is_absolute(path);
        assert_eq!(is_absolute, true);
        return;
    } else {
        let path = "/home/user";
        let is_absolute = path_is_absolute(path);
        assert_eq!(is_absolute, true);
    }
}

#[test]
fn test_path_is_absolute_returns_false_if_path_is_not_absolute() {
    let path = "home/user";
    let is_absolute = path_is_absolute(path);
    assert_eq!(is_absolute, false);
}

#[test]
fn test_path_join_returns_joined_path() {
    if on_windows() {
        let base = "src";
        let path = "fsutil\\default.rs";
        let joined = path_join(base, path);
        assert_eq!(joined, "src\\fsutil\\default.rs");
        return;
    } else {
        let base = "src";
        let path = "fsutil/default.rs";
        let joined = path_join(base, path);
        assert_eq!(joined, "src/fsutil/default.rs");
    }
}

#[test]
fn test_path_join_removes_redundant_path_components() {
    if on_windows() {
        let base = "src";
        let path = "fsutil\\..\\fsutil\\default.rs";
        let joined = path_join(base, path);
        assert_eq!(joined, "src\\fsutil\\default.rs");
        return;
    } else {
        let base = "src";
        let path = "fsutil/../fsutil/default.rs";
        let joined = path_join(base, path);
        assert_eq!(joined, "src/fsutil/default.rs");
    }
}

#[test]
fn test_path_join_returns_base_if_path_is_empty() {
    let base = "src";
    let path = "";
    let joined = path_join(base, path);
    assert_eq!(joined, "src");
}

#[test]
fn test_path_join_returns_path_if_base_is_empty() {
    if on_windows() {
        let base = "";
        let path = "fsutil\\default.rs";
        let joined = path_join(base, path);
        assert_eq!(joined, "fsutil\\default.rs");
        return;
    } else {
        let base = "";
        let path = "fsutil/default.rs";
        let joined = path_join(base, path);
        assert_eq!(joined, "fsutil/default.rs");
    }
}

#[test]
fn test_parent_directory_returns_root_if_path_is_root() {
    let path = "/";
    let parent = parent_directory(path);
    assert_eq!(parent, "/");
}

#[test]
fn test_parent_directory_returns_empty_string_if_path_is_empty() {
    let path = "";
    let parent = parent_directory(path);
    assert_eq!(parent, "");
}

#[test]
fn test_parent_directory_returns_empty_string_if_path_is_single_component() {
    let path = "src";
    let parent = parent_directory(path);
    assert_eq!(parent, "");
}

#[test]
fn test_parent_directory_returns_empty_string_if_path_is_single_component_with_trailing_slash()
{
    let path = "src/";
    let parent = parent_directory(path);
    assert_eq!(parent, "");
}

#[test]
fn test_parent_directory_returns_parent_directory_of_path_with_trailing_slash() {
    let path = "src/fsutil/";
    let parent = parent_directory(path);
    assert_eq!(parent, "src");
}

#[test]
fn test_parent_directory_returns_parent_directory_of_path_with_multiple_components() {
    let path = "src/fsutil/default.rs";
    let parent = parent_directory(path);
    assert_eq!(parent, "src/fsutil");
}

#[test]
fn test_parent_directory_returns_parent_directory_of_path_with_multiple_components_and_trailing_slash(
) {
    let path = "src/fsutil/default.rs/";
    let parent = parent_directory(path);
    assert_eq!(parent, "src/fsutil");
}

#[test]
fn test_parent_directory_returns_parent_directory_of_path_with_multiple_components_and_multiple_trailing_slashes(
) {
    let path = "src/fsutil/default.rs///";
    let parent = parent_directory(path);
    assert_eq!(parent, "src/fsutil");
}

#[test]
fn test_parent_directory_returns_parent_directory_of_path_with_multiple_components_and_multiple_trailing_slashes_and_root(
) {
    let path = "/src/fsutil/default.rs///";
    let parent = parent_directory(path);
    assert_eq!(parent, "/src/fsutil");
}

#[test]
fn test_parent_directory_returns_parent_directory_of_path_with_multiple_components_and_multiple_trailing_slashes_and_root_and_trailing_slash(
) {
    let path = "/src/fsutil/default.rs///";
    let parent = parent_directory(path);
    assert_eq!(parent, "/src/fsutil");
}

#[test]
fn test_parent_directory_returns_parent_directory_of_path_with_multiple_components_and_multiple_trailing_slashes_and_root_and_trailing_slash_and_root(
) {
    let path = "/src/fsutil/default.rs///";
    let parent = parent_directory(path);
    assert_eq!(parent, "/src/fsutil");
}

#[test]
fn path_join_with_an_empty_path_returns_the_base_unchanged() {
    assert_eq!(path_join("src", ""), "src");
    assert_eq!(path_join("src/", ""), "src/");
    assert_eq!(path_join("a/./b/../c", ""), "a/./b/../c");
    assert_eq!(path_join("/", ""), "/");
    assert_eq!(path_join("", ""), "");
}

#[test]
fn path_join_with_an_empty_base_returns_the_path_unchanged() {
    assert_eq!(path_join("", "fsutil/x"), "fsutil/x");
    assert_eq!(path_join("", "a/./b/../c"), "a/./b/../c");
    assert_eq!(path_join("", "/etc"), "/etc");
}

#[test]
fn path_join_collapses_redundant_segments() {
    if !on_windows() {
        assert_eq!(path_join("src", "fsutil/../fsutil/x"), "src/fsutil/x");
        assert_eq!(path_join("src", "./x"), "src/x");
        assert_eq!(path_join("src", "x//y"), "src/x/y");
        assert_eq!(path_join("src/", "x/"), "src/x");
        assert_eq!(path_join("src/fsutil", ".."), "src");
        assert_eq!(path_join("src", ".."), ".");
        assert_eq!(path_join("src", "../.."), "..");
        assert_eq!(path_join("/", ".."), "/");
    }
}

#[test]
fn path_join_with_an_absolute_path_drops_the_base() {
    if !on_windows() {
        assert_eq!(path_join("src", "/etc/x"), "/etc/x");
        assert_eq!(path_join("src", "/etc/../x"), "/x");
    }
}

#[test]
fn parent_directory_of_named_paths() {
    assert_eq!(parent_directory("src/fsutil/x"), "src/fsutil");
    assert_eq!(parent_directory("/"), "/");
    assert_eq!(parent_directory("src"), "");
    if !on_windows() {
        assert_eq!(parent_directory("/src"), "/");
    }
}

#[test]
fn path_is_absolute_tells_rooted_paths_from_others() {
    if !on_windows() {
        assert!(path_is_absolute("/"));
        assert!(path_is_absolute("/src/x"));
    }
    assert!(!path_is_absolute(""));
    assert!(!path_is_absolute("src/x"));
    assert!(!path_is_absolute("./x"));
    assert!(!path_is_absolute("../x"));
}
