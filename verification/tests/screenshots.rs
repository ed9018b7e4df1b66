use hermes_desktop::paths::{components, file_name};
use hermes_desktop::screenshots::{
    exclude_entry, has_project_screenshots_suffix, is_managed_screenshot_dir,
};

#[test]
fn exclude_entry_appends_once() {
    let first = exclude_entry("# default\nnode_modules/\n", ".hermes/screenshots/")
        .expect("first append adds the entry");
    assert!(first.ends_with(".hermes/screenshots/\n"));
    assert!(exclude_entry(&first, ".hermes/screenshots/").is_none());
}

#[test]
fn exclude_entry_matches_whole_lines() {
    let next = exclude_entry(".hermes/\n", ".hermes/screenshots/");
    assert!(next.is_some());
}

#[test]
fn exclude_entry_handles_missing_trailing_newline_and_empty_file() {
    assert_eq!(exclude_entry("node_modules/", "x/"), Some("node_modules/\nx/\n".to_string()));
    assert_eq!(exclude_entry("", "x/"), Some("x/\n".to_string()));
}

#[test]
fn whitelist_accepts_only_managed_shapes() {
    for windows in [false, true] {
        let accepts = |p: &str| has_project_screenshots_suffix(p, windows);
        assert!(accepts("C:/repo/.hermes/screenshots"));
        assert!(accepts("/home/u/proj/.hermes/screenshots/"));
        assert!(accepts("C:\\repo\\.hermes\\screenshots"));
        assert!(!accepts("C:/repo/.hermes/other"));
        assert!(!accepts("C:/Users/u"));
        assert!(!accepts(".hermes/screenshots"));
        assert!(!accepts("screenshots"));
    }
}

#[test]
fn a_drive_or_share_is_no_directory() {
    let accepts = |p: &str| has_project_screenshots_suffix(p, true);
    assert!(accepts("C:.hermes\\screenshots"));
    assert!(accepts("\\\\srv\\share\\.hermes\\screenshots"));
    assert!(!accepts("\\\\srv\\.hermes\\screenshots"));
    assert!(accepts("\\\\?\\C:\\.hermes\\screenshots"));
    assert!(!accepts("\\\\?\\C:\\repo/.hermes\\screenshots"));
    assert!(!accepts("\\\\?\\UNC\\.hermes\\screenshots"));
    assert!(!has_project_screenshots_suffix("C:.hermes/screenshots", false));
    assert!(has_project_screenshots_suffix("//srv/.hermes/screenshots", false));
}

#[test]
fn only_the_images_directory_itself_is_managed() {
    let dir = Some("C:\\Data\\composer-images".to_string());
    for same in ["c:/data/Composer-Images/", "C:\\Data\\.\\composer-images", "C:/data//composer-images"] {
        assert!(is_managed_screenshot_dir(&dir, same, true), "{same}");
    }
    for other in ["D:/data/composer-images", "C:data/composer-images", "C:/data", ""] {
        assert!(!is_managed_screenshot_dir(&dir, other, true), "{other}");
    }
}

#[test]
fn components_are_what_paths_are_compared_by() {
    let win = |p: &str| components(p, true);
    let unix = |p: &str| components(p, false);
    assert_eq!(unix("/a//b/./c/"), vec!["/", "a", "b", "c"]);
    assert_eq!(unix("./a"), vec![".", "a"]);
    assert_eq!(unix("a\\b"), vec!["a\\b"]);
    assert_eq!(unix(""), Vec::<String>::new());
    assert_eq!(win("a\\b"), vec!["a", "b"]);
    assert_eq!(win("C:/a"), vec!["c:", "/", "a"]);
    assert_eq!(win("c:a"), vec!["c:", "a"]);
    assert_eq!(win("\\\\s\\d"), vec!["//s/d", "/"]);
    assert_eq!(win("//s/d/x"), win("\\\\s\\d\\x"));
    assert_eq!(win("\\\\s"), vec!["/", "s"]);
    assert_eq!(win("\\\\.\\COM1"), vec!["//./COM1", "/"]);
    assert_eq!(win("\\\\?\\C:\\a\\.\\b/c"), vec!["\\\\?\\c:", "/", "a", ".", "b/c"]);
    assert_eq!(win("\\\\?\\UNC\\s\\d\\x"), vec!["\\\\?\\UNC\\s\\d", "/", "x"]);
    assert_eq!(win("\\\\?\\pipe"), vec!["\\\\?\\pipe"]);
    assert_eq!(file_name("C:x.png", true), Some("x.png".to_string()));
    assert_eq!((file_name("C:", true), file_name("a/..", false)), (None, None));
}
