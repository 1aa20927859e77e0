use ocr_intake::paths::file_path;
use std::path::PathBuf;

fn pushed(root: &str, path: &str) -> String {
    let mut joined = PathBuf::from(root);
    joined.push(path);
    joined.to_str().unwrap().to_string()
}

#[test]
fn relative_path_is_put_under_the_root() {
    assert_eq!(file_path("/opt/bridge", "models/text.rten"), "/opt/bridge/models/text.rten");
}

#[test]
fn absolute_path_replaces_the_root() {
    assert_eq!(
        file_path("/opt/bridge", "/persist/poor_mans_obd/text-detection.rten"),
        "/persist/poor_mans_obd/text-detection.rten"
    );
}

#[test]
fn no_second_separator_is_added() {
    assert_eq!(file_path("/opt/bridge/", "a"), "/opt/bridge/a");
    assert_eq!(file_path("", "a"), "a");
    assert_eq!(file_path("/", "a"), "/a");
}

#[test]
fn empty_path_leaves_a_trailing_separator() {
    assert_eq!(file_path("/opt/bridge", ""), "/opt/bridge/");
}

#[test]
fn file_path_joins_as_paths_join() {
    let roots = ["", "/", "/opt", "/opt/", "rel", "rel/", "/a b/ü"];
    let paths = ["", "x", "x/y", "/x", "/", "ü.rten", "./x"];
    for root in roots {
        for path in paths {
            assert_eq!(file_path(root, path), pushed(root, path), "{:?} {:?}", root, path);
        }
    }
}
