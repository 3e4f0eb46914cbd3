use anisto::errors::{ErrorKind, ProjectError};
use anisto::projects::{
    ConfigRead, FileTreeItem, PathState, ProjectConfig, ProjectManager, ProjectProbe,
    ProjectSave, Timestamp,
};
use anisto::tree::{DirEntry, DirListing};

fn manager() -> ProjectManager {
    ProjectManager::new("1.4.2").unwrap()
}

fn at(secs: u64, nanos: u32) -> Timestamp {
    Timestamp { secs_since_epoch: secs, nanos_since_epoch: nanos }
}

fn config(name: &str, created: Timestamp, updated: Timestamp) -> ProjectConfig {
    ProjectConfig {
        name: name.to_string(),
        description: Some("A sample".to_string()),
        created_at: created,
        updated_at: updated,
        version: "0.9.0".to_string(),
    }
}

fn error(kind: ErrorKind, context: &str) -> ProjectError {
    ProjectError { kind, context: context.to_string() }
}

#[test]
fn the_configuration_lives_in_the_metadata_directory() {
    assert_eq!(
        ProjectManager::get_project_config_path("/work/demo"),
        "/work/demo/.anisto/project.json"
    );
    assert_eq!(ProjectManager::get_metadata_dir("/work/demo"), "/work/demo/.anisto");
    assert_eq!(ProjectManager::get_project_config_path("demo/"), "demo/.anisto/project.json");
    assert_eq!(ProjectManager::get_project_config_path(""), ".anisto/project.json");
}

#[test]
fn a_manager_needs_a_version() {
    assert_eq!(
        ProjectManager::new("").err(),
        Some(error(ErrorKind::InvalidArgument, "tool version must not be empty"))
    );
    assert_eq!(manager().version(), "1.4.2");
}

#[test]
fn creating_a_project_writes_a_fresh_configuration() {
    let now = at(1_700_000_000, 123_456_789);
    let save = manager()
        .create_project("/work/demo", "Demo", Some("First try".to_string()), PathState::Directory, now)
        .unwrap();
    assert_eq!(
        save,
        ProjectSave {
            create_dir: Some("/work/demo/.anisto".to_string()),
            config_path: "/work/demo/.anisto/project.json".to_string(),
            config: ProjectConfig {
                name: "Demo".to_string(),
                description: Some("First try".to_string()),
                created_at: now,
                updated_at: now,
                version: "1.4.2".to_string(),
            },
        }
    );
}

#[test]
fn creating_then_loading_gives_the_project_back() {
    let now = at(1_700_000_000, 5);
    let save = manager()
        .create_project("/work/demo", "Demo", None, PathState::Directory, now)
        .unwrap();
    assert_eq!(save.config_path, ProjectManager::get_project_config_path("/work/demo"));
    let loaded = ProjectManager::load_project(ConfigRead::Parsed(save.config)).unwrap();
    assert_eq!(loaded.name, "Demo");
    assert_eq!(loaded.description, None);
    assert_eq!(loaded.created_at, loaded.updated_at);
    assert_eq!(loaded.created_at, now);
    assert!(!loaded.version.is_empty());
    assert_eq!(loaded.version, "1.4.2");
}

#[test]
fn a_project_needs_a_name() {
    let result = manager().create_project("/work/demo", "", None, PathState::Directory, at(1, 0));
    assert_eq!(result, Err(error(ErrorKind::InvalidArgument, "project name must not be empty")));
    let missing_too = manager().create_project("/work/demo", "", None, PathState::Missing, at(1, 0));
    assert_eq!(
        missing_too,
        Err(error(ErrorKind::InvalidArgument, "project name must not be empty"))
    );
}

#[test]
fn a_project_needs_an_existing_directory() {
    let missing = manager().create_project("/work/demo", "Demo", None, PathState::Missing, at(1, 0));
    assert_eq!(missing, Err(error(ErrorKind::NotFound, "project directory does not exist")));
    let file = manager().create_project("/work/demo", "Demo", None, PathState::File, at(1, 0));
    assert_eq!(file, Err(error(ErrorKind::NotFound, "project directory does not exist")));
    let closed =
        manager().create_project("/work/demo", "Demo", None, PathState::Inaccessible, at(1, 0));
    assert_eq!(closed, Err(error(ErrorKind::IoFailure, "project directory cannot be accessed")));
}

#[test]
fn loading_reports_what_went_wrong() {
    assert_eq!(
        ProjectManager::load_project(ConfigRead::Missing("No such file or directory".to_string())),
        Err(error(ErrorKind::NotFound, "No such file or directory"))
    );
    assert_eq!(
        ProjectManager::load_project(ConfigRead::Unreadable("Permission denied".to_string())),
        Err(error(ErrorKind::IoFailure, "Permission denied"))
    );
    assert_eq!(
        ProjectManager::load_project(ConfigRead::Malformed(
            "expected value at line 1 column 1".to_string()
        )),
        Err(error(ErrorKind::Corrupt, "expected value at line 1 column 1"))
    );
}

#[test]
fn loading_hands_out_the_parsed_configuration() {
    let stored = config("Demo", at(10, 0), at(20, 0));
    assert_eq!(
        ProjectManager::load_project(ConfigRead::Parsed(config("Demo", at(10, 0), at(20, 0)))),
        Ok(stored)
    );
}

#[test]
fn updating_sets_the_time_of_the_last_update() {
    let before = config("Demo", at(100, 0), at(150, 0));
    let save =
        ProjectManager::update_project("/work/demo", before, PathState::Directory, at(200, 7))
            .unwrap();
    assert_eq!(
        save,
        ProjectSave {
            create_dir: None,
            config_path: "/work/demo/.anisto/project.json".to_string(),
            config: config("Demo", at(100, 0), at(200, 7)),
        }
    );
}

#[test]
fn updating_then_loading_keeps_everything_but_the_update_time() {
    let handed_in = config("Demo", at(100, 0), at(150, 999_999_999));
    let now = at(151, 0);
    let save =
        ProjectManager::update_project("/work/demo", handed_in, PathState::Directory, now).unwrap();
    let loaded = ProjectManager::load_project(ConfigRead::Parsed(save.config)).unwrap();
    assert!(loaded.updated_at.is_at_or_after(&at(150, 999_999_999)));
    assert_eq!(loaded.updated_at, now);
    assert_eq!(loaded.name, "Demo");
    assert_eq!(loaded.description, Some("A sample".to_string()));
    assert_eq!(loaded.created_at, at(100, 0));
    assert_eq!(loaded.version, "0.9.0");
}

#[test]
fn updating_ignores_the_update_time_that_was_handed_in() {
    let from_the_future = config("Demo", at(100, 0), at(9_999_999_999, 0));
    let save = ProjectManager::update_project(
        "/work/demo",
        from_the_future,
        PathState::Directory,
        at(200, 0),
    )
    .unwrap();
    assert_eq!(save.config.updated_at, at(200, 0));
}

#[test]
fn updating_needs_a_created_project() {
    let missing = ProjectManager::update_project(
        "/work/demo",
        config("Demo", at(1, 0), at(1, 0)),
        PathState::Missing,
        at(2, 0),
    );
    assert_eq!(
        missing,
        Err(error(ErrorKind::NotFound, "project metadata directory does not exist"))
    );
    let file = ProjectManager::update_project(
        "/work/demo",
        config("Demo", at(1, 0), at(1, 0)),
        PathState::File,
        at(2, 0),
    );
    assert_eq!(file, Err(error(ErrorKind::NotFound, "project metadata directory does not exist")));
    let closed = ProjectManager::update_project(
        "/work/demo",
        config("Demo", at(1, 0), at(1, 0)),
        PathState::Inaccessible,
        at(2, 0),
    );
    assert_eq!(
        closed,
        Err(error(ErrorKind::IoFailure, "project metadata directory cannot be accessed"))
    );
}

#[test]
fn disk_failures_are_told_apart_by_what_is_missing() {
    assert_eq!(
        ProjectError::from_io(true, "No such file or directory".to_string()),
        error(ErrorKind::NotFound, "No such file or directory")
    );
    assert_eq!(
        ProjectError::from_io(false, "Permission denied".to_string()),
        error(ErrorKind::IoFailure, "Permission denied")
    );
    assert_eq!(
        ProjectError::new(ErrorKind::Corrupt, "trailing characters".to_string()).message(),
        "trailing characters"
    );
}

#[test]
fn a_probe_is_loadable_unless_its_project_failed_to_load() {
    let loadable = |config_file: PathState, config: ConfigRead| {
        ProjectProbe { config_file, config }.is_loadable()
    };
    assert!(loadable(PathState::File, ConfigRead::Parsed(config("Demo", at(1, 0), at(1, 0)))));
    assert!(!loadable(PathState::File, ConfigRead::Malformed("bad".to_string())));
    assert!(!loadable(PathState::File, ConfigRead::Unreadable("bad".to_string())));
    assert!(!loadable(PathState::Directory, ConfigRead::Missing("bad".to_string())));
    assert!(loadable(PathState::Missing, ConfigRead::Missing("none".to_string())));
    assert!(loadable(PathState::Inaccessible, ConfigRead::Unreadable("denied".to_string())));
}

#[test]
fn a_project_directory_is_one_with_a_configuration_file() {
    assert!(!ProjectManager::is_project_directory(PathState::Missing));
    assert!(ProjectManager::is_project_directory(PathState::File));
    assert!(ProjectManager::is_project_directory(PathState::Directory));
    assert!(!ProjectManager::is_project_directory(PathState::Inaccessible));
}

#[test]
fn an_empty_directory_becomes_a_project_directory_by_creation() {
    let mut files: Vec<String> = Vec::new();
    let probe = |files: &Vec<String>, path: &str| {
        if files.iter().any(|f| f == path) {
            PathState::File
        } else {
            PathState::Missing
        }
    };
    let config_file = ProjectManager::get_project_config_path("/work/demo");
    assert!(!ProjectManager::is_project_directory(probe(&files, &config_file)));
    let save = manager()
        .create_project("/work/demo", "Demo", None, PathState::Directory, at(1, 0))
        .unwrap();
    files.push(save.config_path);
    assert!(ProjectManager::is_project_directory(probe(&files, &config_file)));
}

#[test]
fn projects_are_collected_in_listing_order() {
    let children = vec![
        ProjectProbe {
            config_file: PathState::File,
            config: ConfigRead::Parsed(config("Zeta", at(1, 0), at(2, 0))),
        },
        ProjectProbe {
            config_file: PathState::Missing,
            config: ConfigRead::Missing("No such file or directory".to_string()),
        },
        ProjectProbe {
            config_file: PathState::File,
            config: ConfigRead::Parsed(config("Alpha", at(3, 0), at(4, 0))),
        },
        ProjectProbe {
            config_file: PathState::Inaccessible,
            config: ConfigRead::Unreadable("Permission denied".to_string()),
        },
    ];
    assert_eq!(
        ProjectManager::get_projects_from_dir(children),
        vec![config("Zeta", at(1, 0), at(2, 0)), config("Alpha", at(3, 0), at(4, 0))]
    );
}

#[test]
fn a_directory_without_projects_gives_none() {
    assert_eq!(ProjectManager::get_projects_from_dir(vec![]), vec![]);
    let children = vec![ProjectProbe {
        config_file: PathState::Missing,
        config: ConfigRead::Malformed("not looked at".to_string()),
    }];
    assert_eq!(ProjectManager::get_projects_from_dir(children), vec![]);
}

#[test]
fn timestamps_are_ordered_by_seconds_then_nanoseconds() {
    assert!(at(2, 0).is_at_or_after(&at(1, 999_999_999)));
    assert!(!at(1, 999_999_999).is_at_or_after(&at(2, 0)));
    assert!(at(5, 10).is_at_or_after(&at(5, 10)));
    assert!(at(5, 11).is_at_or_after(&at(5, 10)));
    assert!(!at(5, 9).is_at_or_after(&at(5, 10)));
    assert!(at(0, 2_000_000_000).is_at_or_after(&at(2, 0)));
    assert!(at(2, 0).is_at_or_after(&at(0, 2_000_000_000)));
    assert!(at(u64::MAX, u32::MAX).is_at_or_after(&at(u64::MAX, 0)));
    assert!(!at(0, 0).is_at_or_after(&at(u64::MAX, u32::MAX)));
}

/// The directories and files made so far, kept as paths.
struct Disk {
    dirs: Vec<String>,
    files: Vec<String>,
}

impl Disk {
    fn probe(&self, path: &str) -> PathState {
        if self.dirs.iter().any(|d| d == path) {
            PathState::Directory
        } else if self.files.iter().any(|f| f == path) {
            PathState::File
        } else {
            PathState::Missing
        }
    }

    fn make_dir(&mut self, path: &str) {
        if self.probe(path) == PathState::Missing {
            self.dirs.push(path.to_string());
        }
    }

    fn write(&mut self, path: &str) {
        if self.probe(path) == PathState::Missing {
            self.files.push(path.to_string());
        }
    }

    fn listing(&self, dir: &str) -> DirListing {
        let prefix = format!("{}/", dir);
        let mut entries = Vec::new();
        for path in self.files.iter().rev() {
            if let Some(name) = path.strip_prefix(&prefix) {
                if !name.contains('/') {
                    entries.push(DirEntry { name: name.to_string(), listing: None });
                }
            }
        }
        for path in self.dirs.iter().rev() {
            if let Some(name) = path.strip_prefix(&prefix) {
                if !name.contains('/') {
                    entries
                        .push(DirEntry { name: name.to_string(), listing: Some(self.listing(path)) });
                }
            }
        }
        DirListing::Entries(entries)
    }
}

#[test]
fn a_project_with_a_folder_and_a_script_lists_both() {
    let root = "/tmp/demo";
    let mut disk = Disk { dirs: vec![root.to_string()], files: vec![] };

    let save = manager()
        .create_project(root, "Demo", None, disk.probe(root), at(1_700_000_000, 0))
        .unwrap();
    disk.make_dir(save.create_dir.as_ref().unwrap());
    disk.write(&save.config_path);
    assert!(ProjectManager::is_project_directory(
        disk.probe(&ProjectManager::get_project_config_path(root))
    ));

    let target = ProjectManager::entry_path(root, "chapter1", true);
    let folder = ProjectManager::create_file(root, "chapter1", true, disk.probe(&target)).unwrap();
    assert!(folder.is_folder);
    disk.make_dir(&folder.path);

    let target = ProjectManager::entry_path(root, "chapter1/scene1", false);
    let script =
        ProjectManager::create_file(root, "chapter1/scene1", false, disk.probe(&target)).unwrap();
    assert!(!script.is_folder);
    disk.write(&script.path);

    let tree = ProjectManager::list_files(&disk.listing(root)).unwrap();
    assert_eq!(
        tree,
        vec![FileTreeItem {
            name: "chapter1".to_string(),
            path: "chapter1".to_string(),
            is_dir: true,
            children: Some(vec![FileTreeItem {
                name: "scene1.msg".to_string(),
                path: "chapter1/scene1.msg".to_string(),
                is_dir: false,
                children: None,
            }]),
        }]
    );
}
