use anisto::errors::{ErrorKind, ProjectError};
use anisto::files::EntryCreation;
use anisto::paths::{child_of, ends_with, join, normalize_script_name};
use anisto::projects::{PathState, ProjectManager};

#[test]
fn a_script_file_gets_the_extension() {
    let entry = ProjectManager::create_file("/work/demo", "scene1", false, PathState::Missing);
    assert_eq!(
        entry,
        Ok(EntryCreation { path: "/work/demo/scene1.msg".to_string(), is_folder: false })
    );
}

#[test]
fn a_script_file_named_with_the_extension_is_the_same_file() {
    let plain = ProjectManager::create_file("/work/demo", "scene1", false, PathState::Missing);
    let suffixed =
        ProjectManager::create_file("/work/demo", "scene1.msg", false, PathState::File);
    assert_eq!(plain, suffixed);
    assert_eq!(suffixed.unwrap().path, "/work/demo/scene1.msg");
}

#[test]
fn the_extension_check_is_case_sensitive() {
    assert_eq!(normalize_script_name("scene.MSG"), "scene.MSG.msg");
    assert_eq!(normalize_script_name("scene.Msg"), "scene.Msg.msg");
    assert_eq!(
        ProjectManager::entry_path("/work/demo", "scene.MSG", false),
        "/work/demo/scene.MSG.msg"
    );
}

#[test]
fn stored_names_of_script_files() {
    assert_eq!(normalize_script_name("foo"), "foo.msg");
    assert_eq!(normalize_script_name("foo.msg"), "foo.msg");
    assert_eq!(normalize_script_name(""), ".msg");
    assert_eq!(normalize_script_name(".msg"), ".msg");
    assert_eq!(normalize_script_name("msg"), "msg.msg");
    assert_eq!(normalize_script_name("a.msg.txt"), "a.msg.txt.msg");
    assert_eq!(normalize_script_name("chapter1/scene1"), "chapter1/scene1.msg");
    assert_eq!(normalize_script_name(&normalize_script_name("foo")), "foo.msg");
}

#[test]
fn a_folder_keeps_its_name() {
    let entry = ProjectManager::create_file("/work/demo", "chapter1", true, PathState::Missing);
    assert_eq!(
        entry,
        Ok(EntryCreation { path: "/work/demo/chapter1".to_string(), is_folder: true })
    );
    let dotted = ProjectManager::create_file("/work/demo", "v1.msg", true, PathState::Missing);
    assert_eq!(dotted.unwrap().path, "/work/demo/v1.msg");
}

#[test]
fn a_folder_that_is_there_already_is_accepted() {
    let entry = ProjectManager::create_file("/work/demo", "chapter1", true, PathState::Directory);
    assert_eq!(
        entry,
        Ok(EntryCreation { path: "/work/demo/chapter1".to_string(), is_folder: true })
    );
}

#[test]
fn a_nested_folder_is_created_below_the_project() {
    let entry = ProjectManager::create_file("/work/demo", "act1/chapter2", true, PathState::Missing);
    assert_eq!(entry.unwrap().path, "/work/demo/act1/chapter2");
}

#[test]
fn a_file_in_a_folder_is_created_below_it() {
    let entry =
        ProjectManager::create_file("/work/demo", "chapter1/scene1", false, PathState::Missing);
    assert_eq!(entry.unwrap().path, "/work/demo/chapter1/scene1.msg");
}

#[test]
fn a_file_in_the_place_of_a_directory_fails() {
    let entry = ProjectManager::create_file("/work/demo", "chapter1", false, PathState::Directory);
    assert_eq!(
        entry,
        Err(ProjectError {
            kind: ErrorKind::IoFailure,
            context: "a directory is in the place of the file".to_string(),
        })
    );
}

#[test]
fn an_existing_file_is_replaced() {
    let entry = ProjectManager::create_file("/work/demo", "scene1.msg", false, PathState::File);
    assert_eq!(
        entry,
        Ok(EntryCreation { path: "/work/demo/scene1.msg".to_string(), is_folder: false })
    );
}

#[test]
fn a_target_that_cannot_be_looked_at_is_left_to_the_creation() {
    let entry = ProjectManager::create_file("/work/demo", "scene1", false, PathState::Inaccessible);
    assert_eq!(entry.unwrap().path, "/work/demo/scene1.msg");
}

#[test]
fn join_puts_one_separator_between_directory_and_name() {
    assert_eq!(join("/work/demo", "scene1.msg"), "/work/demo/scene1.msg");
    assert_eq!(join("/work/demo/", "scene1.msg"), "/work/demo/scene1.msg");
    assert_eq!(join("demo", "a/b"), "demo/a/b");
    assert_eq!(join("/", "demo"), "/demo");
}

#[test]
fn join_with_an_empty_side() {
    assert_eq!(join("", "scene1.msg"), "scene1.msg");
    assert_eq!(join("demo", ""), "demo/");
    assert_eq!(join("demo/", ""), "demo/");
    assert_eq!(join("", ""), "");
}

#[test]
fn join_lets_a_name_from_the_root_stand_for_itself() {
    assert_eq!(join("/work/demo", "/etc/hosts"), "/etc/hosts");
    assert_eq!(join("", "/"), "/");
}

#[test]
fn join_agrees_with_the_paths_of_the_platform() {
    let bases = ["", "/", "demo", "demo/", "/work/demo", "a/b/"];
    let names = ["", "x", "x/y", ".anisto", "/abs", "project.json"];
    for base in bases.iter() {
        for name in names.iter() {
            let expected = std::path::Path::new(base).join(name);
            assert_eq!(join(base, name), expected.to_string_lossy());
        }
    }
}

#[test]
fn child_of_names_entries_relative_to_the_root() {
    assert_eq!(child_of("", "chapter1"), "chapter1");
    assert_eq!(child_of("chapter1", "scene1.msg"), "chapter1/scene1.msg");
    assert_eq!(child_of("a/b", "c"), "a/b/c");
    assert_eq!(child_of("a", ""), "a/");
}

#[test]
fn ends_with_finds_suffixes() {
    assert!(ends_with("scene1.msg", ".msg"));
    assert!(ends_with(".msg", ".msg"));
    assert!(ends_with("anything", ""));
    assert!(ends_with("", ""));
    assert!(!ends_with("msg", ".msg"));
    assert!(!ends_with("scene1.msg ", ".msg"));
    assert!(!ends_with("scene1.MSG", ".msg"));
    assert!(!ends_with("scene1.msx", ".msg"));
    assert!(!ends_with("scene1.xsg", ".msg"));
    assert!(ends_with("sc\u{e8}ne.msg", ".msg"));
    assert!(ends_with("a\u{65e5}\u{672c}", "\u{65e5}\u{672c}"));
    assert!(!ends_with("a\u{65e5}\u{672c}", "\u{65e5}"));
}
