//! Projects: the configuration record, the file tree items, and the manager
//! that decides what is read and written for each operation.

use vstd::prelude::*;
use crate::errors::{fails_with, ErrorKind, ProjectError};
use crate::paths::{config_file_name, config_path, join, metadata_dir, metadata_dir_name};
use crate::text::optional_text;
use crate::tree::TreeItem;

verus! {

/// One node of a project's file tree.
#[derive(Debug, PartialEq, Eq)]
pub struct FileTreeItem {
    /// The entry's own name.
    pub name: String,
    /// The entry's path relative to the project root.
    pub path: String,
    /// Whether the entry is a directory.
    pub is_dir: bool,
    /// The entries below a directory, in display order; `None` for a file.
    pub children: Option<Vec<FileTreeItem>>,
}

impl View for FileTreeItem {
    type V = TreeItem;

    open spec fn view(&self) -> TreeItem {
        item_view(*self)
    }
}

/// The model of one tree item: its strings as sequences of characters, and
/// its children as the models of its child items.
pub open spec fn item_view(item: FileTreeItem) -> TreeItem
    decreases item,
{
    TreeItem {
        name: item.name@,
        path: item.path@,
        is_dir: item.is_dir,
        children: match item.children {
            Some(items) => Some(tree_view(items@)),
            None => None,
        },
    }
}

/// The models of a sequence of tree items, one for one.
pub open spec fn tree_view(items: Seq<FileTreeItem>) -> Seq<TreeItem>
    decreases items,
{
    if items.len() == 0 {
        Seq::empty()
    } else {
        tree_view(items.drop_last()).push(item_view(items.last()))
    }
}

/// `tree_view` keeps the length and maps each item to its model.
pub proof fn lemma_tree_view(items: Seq<FileTreeItem>)
    ensures
        tree_view(items).len() == items.len(),
        forall|i: int| 0 <= i < items.len() ==> #[trigger] tree_view(items)[i] == items[i]@,
    decreases items.len(),
{
    if items.len() > 0 {
        lemma_tree_view(items.drop_last());
    }
}

/// A point in time: the seconds and nanoseconds that have passed since the
/// start of 1970 (UTC).
#[derive(Clone, Copy, Debug, PartialEq, Eq, Structural)]
pub struct Timestamp {
    pub secs_since_epoch: u64,
    pub nanos_since_epoch: u32,
}

impl Timestamp {
    /// The nanoseconds that have passed since the start of 1970.
    pub open spec fn nanos(self) -> int {
        self.secs_since_epoch * 1_000_000_000 + self.nanos_since_epoch
    }

    /// `self` is not earlier than `other`.
    pub open spec fn at_or_after(self, other: Timestamp) -> bool {
        self.nanos() >= other.nanos()
    }

    /// Tells whether `self` is not earlier than `other`.
    pub fn is_at_or_after(&self, other: &Timestamp) -> (later: bool)
        ensures
            later == self.at_or_after(*other),
    {
        let mine: u128 = self.secs_since_epoch as u128 * 1_000_000_000
            + self.nanos_since_epoch as u128;
        let theirs: u128 = other.secs_since_epoch as u128 * 1_000_000_000
            + other.nanos_since_epoch as u128;
        mine >= theirs
    }
}

/// The metadata of one project, kept in its configuration file.
#[derive(Debug, PartialEq, Eq)]
pub struct ProjectConfig {
    pub name: String,
    pub description: Option<String>,
    pub created_at: Timestamp,
    pub updated_at: Timestamp,
    /// The version of the tool that wrote the configuration.
    pub version: String,
}

/// The mathematical model of a `ProjectConfig`.
pub struct ProjectConfigView {
    pub name: Seq<char>,
    pub description: Option<Seq<char>>,
    pub created_at: Timestamp,
    pub updated_at: Timestamp,
    pub version: Seq<char>,
}

impl View for ProjectConfig {
    type V = ProjectConfigView;

    open spec fn view(&self) -> ProjectConfigView {
        ProjectConfigView {
            name: self.name@,
            description: optional_text(self.description),
            created_at: self.created_at,
            updated_at: self.updated_at,
            version: self.version@,
        }
    }
}

impl ProjectConfigView {
    /// A configuration is well formed when its project has a name.
    pub open spec fn wf(self) -> bool {
        self.name.len() > 0
    }
}

/// A file kept in a project, with its text and, where it was built, its
/// output.
#[derive(Debug, PartialEq, Eq)]
pub struct ProjectFile {
    pub id: String,
    pub name: String,
    pub text: String,
    pub output: Option<String>,
    pub attributes: Option<FileAttributes>,
}

/// Display attributes of a project file.
#[derive(Debug, PartialEq, Eq)]
pub struct FileAttributes {
    pub lipsync: Option<bool>,
    pub confidant_point: Option<bool>,
    pub box_type: Option<String>,
    pub confidant_id: Option<i32>,
    pub points_gained: Option<i32>,
    pub model_id: Option<i32>,
    pub character_name: Option<String>,
    pub character_checkbox: Option<bool>,
}

/// What was found at a path.
#[derive(Clone, Copy, Debug, PartialEq, Eq, Structural)]
pub enum PathState {
    /// Nothing is there.
    Missing,
    /// Something other than a directory is there.
    File,
    /// A directory is there.
    Directory,
    /// The path could not be looked at.
    Inaccessible,
}

impl PathState {
    /// Something is known to be at the path.
    pub open spec fn is_present(self) -> bool {
        self is File || self is Directory
    }
}

/// What reading and parsing a configuration file gave.
#[derive(Debug, PartialEq, Eq)]
pub enum ConfigRead {
    /// There is no such file; the cause as reported.
    Missing(String),
    /// The file is there but could not be read; the cause as reported.
    Unreadable(String),
    /// The file was read but holds no configuration; the cause as reported.
    Malformed(String),
    /// The configuration that the file holds.
    Parsed(ProjectConfig),
}

/// A configuration to be written, and where.
#[derive(Debug, PartialEq, Eq)]
pub struct ProjectSave {
    /// The directory to create first, with its missing parents, unless it
    /// is there already; `None` where nothing is to be created.
    pub create_dir: Option<String>,
    /// The file that receives the configuration, replacing what it held.
    pub config_path: String,
    /// The configuration to write.
    pub config: ProjectConfig,
}

/// The mathematical model of a `ProjectSave`.
pub struct ProjectSaveView {
    pub create_dir: Option<Seq<char>>,
    pub config_path: Seq<char>,
    pub config: ProjectConfigView,
}

impl View for ProjectSave {
    type V = ProjectSaveView;

    open spec fn view(&self) -> ProjectSaveView {
        ProjectSaveView {
            create_dir: optional_text(self.create_dir),
            config_path: self.config_path@,
            config: self.config@,
        }
    }
}

/// What was found of one directory that may hold a project.
#[derive(Debug, PartialEq, Eq)]
pub struct ProjectProbe {
    /// What was found at the path of the directory's configuration file.
    pub config_file: PathState,
    /// What reading and parsing that file gave.
    pub config: ConfigRead,
}

/// The write that creates the project `name` at `path` at the time `now`:
/// the metadata directory is created, and the configuration file receives a
/// configuration whose two timestamps are both `now`.
pub open spec fn project_creation(
    version: Seq<char>,
    path: Seq<char>,
    name: Seq<char>,
    description: Option<Seq<char>>,
    now: Timestamp,
) -> ProjectSaveView {
    ProjectSaveView {
        create_dir: Some(metadata_dir(path)),
        config_path: config_path(path),
        config: ProjectConfigView { name, description, created_at: now, updated_at: now, version },
    }
}

/// The write that updates the project at `path` to `config` at the time
/// `now`: the configuration file receives `config` with `now` as the time
/// of its last update, whatever time `config` itself gave.
pub open spec fn project_update(
    path: Seq<char>,
    config: ProjectConfigView,
    now: Timestamp,
) -> ProjectSaveView {
    ProjectSaveView {
        create_dir: None,
        config_path: config_path(path),
        config: ProjectConfigView { updated_at: now, ..config },
    }
}

/// What loading gives for each outcome of reading the configuration file.
pub open spec fn load_outcome(read: ConfigRead) -> Result<
    ProjectConfigView,
    (ErrorKind, Seq<char>),
> {
    match read {
        ConfigRead::Missing(cause) => Err((ErrorKind::NotFound, cause@)),
        ConfigRead::Unreadable(cause) => Err((ErrorKind::IoFailure, cause@)),
        ConfigRead::Malformed(cause) => Err((ErrorKind::Corrupt, cause@)),
        ConfigRead::Parsed(config) => Ok(config@),
    }
}

/// The probe is of a directory that holds a project.
pub open spec fn holds_project(probe: ProjectProbe) -> bool {
    probe.config_file.is_present()
}

/// The probe is of a directory without a project, or of one whose
/// configuration loads.
pub open spec fn loads_if_project(probe: ProjectProbe) -> bool {
    holds_project(probe) ==> load_outcome(probe.config) is Ok
}

/// The configuration that the probe of a project directory gave.
pub open spec fn probed_config(probe: ProjectProbe) -> ProjectConfigView {
    load_outcome(probe.config)->Ok_0
}

/// The configurations of the project directories among `children`, in the
/// order of `children`.
pub open spec fn found_projects(children: Seq<ProjectProbe>) -> Seq<ProjectConfigView> {
    children.filter(|probe: ProjectProbe| holds_project(probe)).map_values(
        |probe: ProjectProbe| probed_config(probe),
    )
}

impl ProjectProbe {
    /// Tells whether the probe can be handed to the collection of projects:
    /// it can unless it is of a project directory whose configuration did
    /// not load.
    pub fn is_loadable(&self) -> (loadable: bool)
        ensures
            loadable == loads_if_project(*self),
    {
        if ProjectManager::is_project_directory(self.config_file) {
            match &self.config {
                ConfigRead::Parsed(_) => true,
                _ => false,
            }
        } else {
            true
        }
    }
}

/// The models of a sequence of configurations, one for one.
pub open spec fn configs_view(configs: Seq<ProjectConfig>) -> Seq<ProjectConfigView> {
    configs.map_values(|config: ProjectConfig| config@)
}

/// The entry point of the project operations. It knows the version of the
/// tool, which it writes into every configuration it creates.
pub struct ProjectManager {
    version: String,
}

impl ProjectManager {
    #[verifier::type_invariant]
    spec fn has_version(self) -> bool {
        self.version@.len() > 0
    }

    /// The version of the tool that this manager writes into configurations.
    pub closed spec fn tool_version(self) -> Seq<char> {
        self.version@
    }

    /// A manager for the tool of version `version`. The version must not be
    /// empty.
    pub fn new(version: &str) -> (result: Result<ProjectManager, ProjectError>)
        ensures
            version@.len() == 0 ==> fails_with(
                result,
                ErrorKind::InvalidArgument,
                "tool version must not be empty"@,
            ),
            version@.len() > 0 ==> (result matches Ok(manager) && manager.tool_version()
                == version@),
    {
        if version.is_empty() {
            Err(
                ProjectError::new(
                    ErrorKind::InvalidArgument,
                    "tool version must not be empty".to_owned(),
                ),
            )
        } else {
            Ok(ProjectManager { version: version.to_owned() })
        }
    }

    /// The version of the tool; never empty.
    pub fn version(&self) -> (version: &str)
        ensures
            version@ == self.tool_version(),
            version@.len() > 0,
    {
        proof {
            use_type_invariant(self);
        }
        self.version.as_str()
    }

    /// The path of the metadata directory of the project at `project_path`.
    pub fn get_metadata_dir(project_path: &str) -> (path: String)
        ensures
            path@ == metadata_dir(project_path@),
    {
        proof {
            reveal_strlit(".anisto");
            assert(".anisto"@ =~= metadata_dir_name());
        }
        join(project_path, ".anisto")
    }

    /// The path of the configuration file of the project at `project_path`.
    pub fn get_project_config_path(project_path: &str) -> (path: String)
        ensures
            path@ == config_path(project_path@),
    {
        proof {
            reveal_strlit("project.json");
            assert("project.json"@ =~= config_file_name());
        }
        let dir = Self::get_metadata_dir(project_path);
        join(dir.as_str(), "project.json")
    }

    /// Decides how the project `name` is created at `path`.
    ///
    /// `root` is what was found at `path`, and `now` the current time. A
    /// project needs a name, and `path` must be an existing directory. Where
    /// both hold, the result says what to write: a configuration with the
    /// given name and description, `now` as the time of both its creation
    /// and its last update, and the version of the tool. Whatever the
    /// configuration file held before is replaced.
    pub fn create_project(
        &self,
        path: &str,
        name: &str,
        description: Option<String>,
        root: PathState,
        now: Timestamp,
    ) -> (result: Result<ProjectSave, ProjectError>)
        ensures
            name@.len() == 0 ==> fails_with(
                result,
                ErrorKind::InvalidArgument,
                "project name must not be empty"@,
            ),
            name@.len() > 0 && (root is Missing || root is File) ==> fails_with(
                result,
                ErrorKind::NotFound,
                "project directory does not exist"@,
            ),
            name@.len() > 0 && root is Inaccessible ==> fails_with(
                result,
                ErrorKind::IoFailure,
                "project directory cannot be accessed"@,
            ),
            name@.len() > 0 && root is Directory ==> (result matches Ok(save) && save@
                == project_creation(
                self.tool_version(),
                path@,
                name@,
                optional_text(description),
                now,
            )),
            result matches Ok(save) ==> save@.config.wf() && save@.config.version.len() > 0,
    {
        proof {
            use_type_invariant(self);
        }
        if name.is_empty() {
            return Err(
                ProjectError::new(
                    ErrorKind::InvalidArgument,
                    "project name must not be empty".to_owned(),
                ),
            );
        }
        match root {
            PathState::Directory => {},
            PathState::Inaccessible => {
                return Err(
                    ProjectError::new(
                        ErrorKind::IoFailure,
                        "project directory cannot be accessed".to_owned(),
                    ),
                );
            },
            _ => {
                return Err(
                    ProjectError::new(
                        ErrorKind::NotFound,
                        "project directory does not exist".to_owned(),
                    ),
                );
            },
        }
        let config = ProjectConfig {
            name: name.to_owned(),
            description,
            created_at: now,
            updated_at: now,
            version: self.version.clone(),
        };
        Ok(
            ProjectSave {
                create_dir: Some(Self::get_metadata_dir(path)),
                config_path: Self::get_project_config_path(path),
                config,
            },
        )
    }

    /// Loads a project's configuration from what reading and parsing its
    /// configuration file gave: the configuration where there is one, and
    /// otherwise an error that says whether the file is missing, unreadable
    /// or not a configuration, with the cause that was reported.
    pub fn load_project(read: ConfigRead) -> (result: Result<ProjectConfig, ProjectError>)
        ensures
            load_outcome(read) matches Ok(config) ==> result matches Ok(loaded) && loaded@
                == config,
            load_outcome(read) matches Err(failure) ==> fails_with(result, failure.0, failure.1),
    {
        match read {
            ConfigRead::Missing(cause) => Err(ProjectError::new(ErrorKind::NotFound, cause)),
            ConfigRead::Unreadable(cause) => Err(ProjectError::new(ErrorKind::IoFailure, cause)),
            ConfigRead::Malformed(cause) => Err(ProjectError::new(ErrorKind::Corrupt, cause)),
            ConfigRead::Parsed(config) => Ok(config),
        }
    }

    /// Decides how the configuration of the project at `path` is replaced
    /// by `config`.
    ///
    /// `metadata` is what was found at the path of the project's metadata
    /// directory, and `now` the current time. The project must have been
    /// created: its metadata directory must be there. Where it is, the
    /// result says what to write: `config` with `now` as the time of its
    /// last update, in place of whatever time `config` gave.
    pub fn update_project(
        path: &str,
        config: ProjectConfig,
        metadata: PathState,
        now: Timestamp,
    ) -> (result: Result<ProjectSave, ProjectError>)
        ensures
            metadata is Missing || metadata is File ==> fails_with(
                result,
                ErrorKind::NotFound,
                "project metadata directory does not exist"@,
            ),
            metadata is Inaccessible ==> fails_with(
                result,
                ErrorKind::IoFailure,
                "project metadata directory cannot be accessed"@,
            ),
            metadata is Directory ==> (result matches Ok(save) && save@ == project_update(
                path@,
                config@,
                now,
            )),
    {
        match metadata {
            PathState::Directory => {},
            PathState::Inaccessible => {
                return Err(
                    ProjectError::new(
                        ErrorKind::IoFailure,
                        "project metadata directory cannot be accessed".to_owned(),
                    ),
                );
            },
            _ => {
                return Err(
                    ProjectError::new(
                        ErrorKind::NotFound,
                        "project metadata directory does not exist".to_owned(),
                    ),
                );
            },
        }
        let mut updated = config;
        updated.updated_at = now;
        Ok(
            ProjectSave {
                create_dir: None,
                config_path: Self::get_project_config_path(path),
                config: updated,
            },
        )
    }

    /// Tells whether a directory holds a project, from what was found at
    /// the path of its configuration file: it does when something is there.
    /// A path that could not be looked at counts as holding none.
    pub fn is_project_directory(config_file: PathState) -> (is_project: bool)
        ensures
            is_project == config_file.is_present(),
    {
        match config_file {
            PathState::File => true,
            PathState::Directory => true,
            _ => false,
        }
    }

    /// Collects the configurations of the projects among the directories
    /// that `children` reports on, in the order of `children`. Directories
    /// that hold no project are passed over.
    ///
    /// The configuration of every directory that holds a project must have
    /// loaded.
    pub fn get_projects_from_dir(children: Vec<ProjectProbe>) -> (projects: Vec<ProjectConfig>)
        requires
            forall|i: int| 0 <= i < children@.len() ==> loads_if_project(#[trigger] children@[i]),
        ensures
            configs_view(projects@) == found_projects(children@),
    {
        let mut projects: Vec<ProjectConfig> = Vec::new();
        for child in iter: children
            invariant
                forall|i: int|
                    0 <= i < iter.seq().len() ==> loads_if_project(#[trigger] iter.seq()[i]),
                configs_view(projects@) == found_projects(iter.seq().take(iter.index() as int)),
        {
            let ghost seen = iter.seq().take(iter.index() as int);
            proof {
                assert(iter.seq().take(iter.index() + 1) =~= seen.push(child));
                lemma_found_projects_push(seen, child);
            }
            let ghost before = projects@;
            if Self::is_project_directory(child.config_file) {
                match Self::load_project(child.config) {
                    Ok(config) => {
                        projects.push(config);
                        assert(configs_view(projects@) =~= configs_view(before).push(
                            probed_config(child),
                        ));
                    },
                    Err(_) => {},
                }
            }
        }
        assert(children@.take(children@.len() as int) =~= children@);
        projects
    }
}

/// A further probe adds its configuration behind those found so far where
/// it is of a project directory, and nothing where it is not.
pub proof fn lemma_found_projects_push(seen: Seq<ProjectProbe>, child: ProjectProbe)
    ensures
        found_projects(seen.push(child)) == if holds_project(child) {
            found_projects(seen).push(probed_config(child))
        } else {
            found_projects(seen)
        },
{
    seen.lemma_filter_push(child, |probe: ProjectProbe| holds_project(probe));
    if holds_project(child) {
        assert(found_projects(seen.push(child)) =~= found_projects(seen).push(
            probed_config(child),
        ));
    }
}


/// Loading a project that was just created gives the configuration that
/// was asked for: the same name and description, one time for its creation
/// and its last update, and the version of the tool, which is not empty.
///
/// `read` stands for reading the configuration file back: it holds what the
/// creation wrote.
pub proof fn lemma_create_then_load(
    version: Seq<char>,
    path: Seq<char>,
    name: Seq<char>,
    description: Option<Seq<char>>,
    now: Timestamp,
    read: ConfigRead,
)
    requires
        version.len() > 0,
        name.len() > 0,
        read matches ConfigRead::Parsed(stored) && stored@ == project_creation(
            version,
            path,
            name,
            description,
            now,
        ).config,
    ensures
        load_outcome(read) matches Ok(loaded) && loaded.name == name && loaded.description
            == description && loaded.created_at == loaded.updated_at && loaded.version == version
            && loaded.version.len() > 0 && loaded.wf(),
{
}

/// Loading a project that was just updated gives the configuration that
/// was handed in, but for the time of its last update, which is the time of
/// the update. That time is not earlier than the one handed in unless the
/// clock stood before it.
///
/// `read` stands for reading the configuration file back: it holds what the
/// update wrote.
pub proof fn lemma_update_then_load(
    path: Seq<char>,
    config: ProjectConfigView,
    now: Timestamp,
    read: ConfigRead,
)
    requires
        now.at_or_after(config.updated_at),
        read matches ConfigRead::Parsed(stored) && stored@ == project_update(
            path,
            config,
            now,
        ).config,
    ensures
        load_outcome(read) matches Ok(loaded) && loaded.updated_at.at_or_after(config.updated_at)
            && loaded.name == config.name && loaded.description == config.description
            && loaded.created_at == config.created_at && loaded.version == config.version,
{
}

/// Creating a project writes the file that makes its directory a project
/// directory, into the directory it creates for it; an update writes that
/// same file and keeps the time of creation.
pub proof fn lemma_saves_agree(
    version: Seq<char>,
    path: Seq<char>,
    name: Seq<char>,
    description: Option<Seq<char>>,
    config: ProjectConfigView,
    now: Timestamp,
)
    ensures
        project_creation(version, path, name, description, now).config_path == config_path(path),
        project_creation(version, path, name, description, now).create_dir == Some(
            metadata_dir(path),
        ),
        project_update(path, config, now).config_path == config_path(path),
        project_update(path, config, now).config.created_at == config.created_at,
        project_update(path, config, now).config.wf() == config.wf(),
{
}

} // verus!
