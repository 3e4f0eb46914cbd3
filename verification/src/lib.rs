//! Project and file-tree management for a dialogue script editor.
//!
//! The crate holds the decisions of the editor's backend: where a project
//! keeps its configuration, what a freshly created or updated configuration
//! contains, how a directory listing becomes the sorted tree shown to the
//! user, how new entries are named, and how parsed script messages are
//! turned into the records handed to the presentation layer.
//!
//! Nothing here touches the disk or the clock. Callers observe the outside
//! world, pass what they saw as plain values, and carry out the actions the
//! functions return.
//!
//! - [`projects`]: the configuration record, the manager, and the creation,
//!   loading, updating and enumeration of projects.
//! - [`files`]: the file tree of a project and the creation of its entries.
//! - [`tree`]: the model of the file tree, its order, and what holds of
//!   every listing.
//! - [`messages`] and [`models`]: the records of script messages and the
//!   adapter between the parser's form and the presented form.
//! - [`paths`] and [`text`]: joining of paths, naming of script files, and
//!   the order of names.
//! - [`errors`]: the kinds of failure.

pub mod errors;
pub mod files;
pub mod messages;
pub mod models;
pub mod paths;
pub mod projects;
pub mod text;
pub mod tree;
