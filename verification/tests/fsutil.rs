use teo_language_parser::fsutil::FSUtil;

type TestFSUtil = FSUtil<
    fn(&str) -> Option<String>,
    fn(&str) -> bool,
    fn(&str) -> bool,
    fn(&str, &str) -> String,
    fn(&str) -> String,
    fn(&str) -> bool,
>;

fn read_file(path: &str) -> Option<String> {
    match path {
        "exists" => Some("content".to_owned()),
        _ => None,
    }
}

fn file_exists(path: &str) -> bool {
    path == "exists"
}

fn file_is_directory(path: &str) -> bool {
    path == "directory"
}

fn path_join(base: &str, path: &str) -> String {
    format!("{}/{}", base, path)
}

fn parent_directory(path: &str) -> String {
    match path {
        "hasParent" => "parent".to_owned(),
        _ => "".to_owned(),
    }
}

fn path_is_absolute(path: &str) -> bool {
    path.starts_with("/")
}

fn fs_util() -> TestFSUtil {
    FSUtil::new(
        read_file,
        file_exists,
        file_is_directory,
        path_join,
        parent_directory,
        path_is_absolute,
    )
}

#[test]
fn read_file_calls_the_argument_function() {
    assert_eq!(fs_util().read_file("exists"), Some("content".to_owned()));
    assert_eq!(fs_util().read_file("not_exists"), None);
}

#[test]
fn file_exists_calls_the_argument_function() {
    assert!(fs_util().file_exists("exists"));
    assert!(!fs_util().file_exists("not_exists"));
}

#[test]
fn file_is_directory_calls_the_argument_function() {
    assert!(fs_util().file_is_directory("directory"));
    assert!(!fs_util().file_is_directory("file"));
}

#[test]
fn path_join_calls_the_argument_function() {
    assert_eq!(fs_util().path_join("base", "path"), "base/path");
}

#[test]
fn parent_directory_calls_the_argument_function() {
    assert_eq!(fs_util().parent_directory("hasParent"), "parent");
    assert_eq!(fs_util().parent_directory("noParent"), "");
}

#[test]
fn path_is_absolute_calls_the_argument_function() {
    assert!(fs_util().path_is_absolute("/home/user"));
    assert!(!fs_util().path_is_absolute("home/user"));
}

#[test]
fn import_path_calls_parent_directory_and_path_join() {
    assert_eq!(fs_util().import_path("hasParent", "path"), "parent/path");
    assert_eq!(fs_util().import_path("noParent", "path"), "/path");
}

#[test]
fn each_method_calls_its_own_function() {
    let fs = FSUtil::new(
        |_: &str| Some("read".to_owned()),
        |_: &str| true,
        |_: &str| false,
        |base: &str, path: &str| format!("{}+{}", base, path),
        |path: &str| format!("parent of {}", path),
        |path: &str| path.is_empty(),
    );
    assert_eq!(fs.read_file("a"), Some("read".to_owned()));
    assert!(fs.file_exists("a"));
    assert!(!fs.file_is_directory("a"));
    assert_eq!(fs.path_join("a", "b"), "a+b");
    assert_eq!(fs.parent_directory("a"), "parent of a");
    assert!(fs.path_is_absolute(""));
    assert!(!fs.path_is_absolute("a"));
    assert_eq!(fs.import_path("a", "b"), "parent of a+b");
}

#[test]
fn import_path_with_the_default_path_functions() {
    if std::path::MAIN_SEPARATOR == '/' {
        let fs = FSUtil::new(
            read_file,
            file_exists,
            file_is_directory,
            teo_language_parser::fsutil::default::path_join,
            teo_language_parser::fsutil::default::parent_directory,
            teo_language_parser::fsutil::default::path_is_absolute,
        );
        assert_eq!(fs.import_path("src/schema/main.teo", "models/user.teo"), "src/schema/models/user.teo");
        assert_eq!(fs.import_path("src/schema/main.teo", "../shared/types.teo"), "src/shared/types.teo");
        assert_eq!(fs.import_path("main.teo", "user.teo"), "user.teo");
        assert_eq!(fs.import_path("src/main.teo", ""), "src");
        assert!(fs.path_is_absolute("/src/main.teo"));
        assert_eq!(
            fs.import_path("src/main.teo", "user.teo"),
            fs.path_join(&fs.parent_directory("src/main.teo"), "user.teo")
        );
    }
}
