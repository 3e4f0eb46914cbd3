//! The file tree of a project, built from what reading its directories gave.

use vstd::prelude::*;
use crate::errors::{fails_with, ErrorKind, ProjectError};
use crate::paths::{child_of, entry_path, join, normalize_script_name};
use crate::projects::{lemma_tree_view, tree_view, FileTreeItem, PathState, ProjectManager};
use crate::text::{is_hidden, name_precedes};
use crate::tree::{
    insert_item, insert_position, item_le, lemma_insert_item_position,
    lemma_listed_tree_no_hidden, lemma_listed_tree_ok, lemma_listed_tree_ordered,
    lemma_listed_tree_rooted, listed_item, listed_items, listed_tree, no_hidden, ordered,
    readable, rooted, sort_items, DirEntry, DirListing, TreeItem,
};

verus! {

broadcast use vstd::std_specs::vec::group_vec_axioms;

/// Tells whether `a` comes before `b`, or ranks with it, among the items of
/// one directory.
fn item_precedes(a: &FileTreeItem, b: &FileTreeItem) -> (le: bool)
    ensures
        le == item_le(a@, b@),
{
    if a.is_dir != b.is_dir {
        a.is_dir
    } else {
        name_precedes(a.name.as_str(), b.name.as_str())
    }
}

/// Puts `item` into `items` behind the last item that does not come after
/// it.
fn insert_sorted(items: &mut Vec<FileTreeItem>, item: FileTreeItem)
    ensures
        tree_view(final(items)@) == insert_item(tree_view(old(items)@), item@),
{
    let ghost models = tree_view(items@);
    proof {
        lemma_tree_view(items@);
        assert(models.take(models.len() as int) =~= models);
    }
    let mut pos: usize = items.len();
    while pos > 0 && !item_precedes(&items[pos - 1], &item)
        invariant
            pos <= items.len(),
            models == tree_view(items@),
            models.len() == items.len(),
            forall|i: int| 0 <= i < items.len() ==> #[trigger] models[i] == items@[i]@,
            insert_position(models, item@) == insert_position(models.take(pos as int), item@),
        decreases pos,
    {
        assert(models.take(pos as int).drop_last() =~= models.take(pos - 1));
        pos = pos - 1;
    }
    proof {
        assert(pos > 0 ==> models.take(pos as int).last() == items@[pos - 1]@);
        lemma_insert_item_position(models, item@);
    }
    let ghost before = items@;
    items.insert(pos, item);
    proof {
        lemma_tree_view(items@);
        assert(tree_view(items@) =~= models.insert(pos as int, item@));
    }
}

/// Once the entries read so far have met a failure, the whole listing has
/// that same failure.
proof fn lemma_failure_persists(parent: Seq<char>, entries: Seq<DirEntry>, n: int)
    requires
        0 <= n <= entries.len(),
        listed_items(parent, entries.subrange(0, n)) is Err,
    ensures
        listed_items(parent, entries) == listed_items(parent, entries.subrange(0, n)),
    decreases entries.len(),
{
    if n == entries.len() {
        assert(entries.subrange(0, n) =~= entries);
    } else {
        assert(entries.drop_last().subrange(0, n) =~= entries.subrange(0, n));
        lemma_failure_persists(parent, entries.drop_last(), n);
    }
}

impl ProjectManager {
    /// Builds the file tree of a project from what reading its root
    /// directory, and every directory below it, gave.
    ///
    /// Hidden entries are left out together with everything below them. In
    /// every directory the sub-directories come first and the files second,
    /// each group ordered by name. A directory that could not be read makes
    /// the whole listing fail with the cause of the first such directory.
    pub fn list_files(root: &DirListing) -> (result: Result<Vec<FileTreeItem>, ProjectError>)
        ensures
            result is Ok <==> readable(*root),
            listed_tree(Seq::empty(), *root) matches Ok(tree) ==> result matches Ok(items)
                && tree_view(items@) == tree,
            listed_tree(Seq::empty(), *root) matches Err(cause) ==> fails_with(
                result,
                ErrorKind::IoFailure,
                cause,
            ),
            result matches Ok(items) ==> no_hidden(tree_view(items@)) && ordered(
                tree_view(items@),
            ) && rooted(Seq::empty(), tree_view(items@)),
    {
        proof {
            reveal_strlit("");
            assert(""@ =~= Seq::<char>::empty());
            lemma_listed_tree_ok(Seq::empty(), *root);
            lemma_listed_tree_no_hidden(Seq::empty(), *root);
            lemma_listed_tree_ordered(Seq::empty(), *root);
            lemma_listed_tree_rooted(Seq::empty(), *root);
        }
        Self::list_files_recursive("", root)
    }

    /// Builds the tree of the directory whose path relative to the project
    /// root is `parent` from what reading it gave.
    pub fn list_files_recursive(parent: &str, listing: &DirListing) -> (result: Result<
        Vec<FileTreeItem>,
        ProjectError,
    >)
        ensures
            listed_tree(parent@, *listing) matches Ok(tree) ==> result matches Ok(items)
                && tree_view(items@) == tree,
            listed_tree(parent@, *listing) matches Err(cause) ==> fails_with(
                result,
                ErrorKind::IoFailure,
                cause,
            ),
        decreases listing,
    {
        match listing {
            DirListing::Failed(cause) => {
                Err(ProjectError::new(ErrorKind::IoFailure, cause.clone()))
            },
            DirListing::Entries(entries) => Self::list_entries(parent, entries),
            DirListing::Interrupted(entries, cause) => {
                match Self::list_entries(parent, entries) {
                    Ok(_) => Err(ProjectError::new(ErrorKind::IoFailure, cause.clone())),
                    Err(earlier) => Err(earlier),
                }
            },
        }
    }

    /// Builds the sorted items of the visible entries among `entries`, which
    /// are the entries listed for the directory at `parent`.
    fn list_entries(parent: &str, entries: &Vec<DirEntry>) -> (result: Result<
        Vec<FileTreeItem>,
        ProjectError,
    >)
        ensures
            listed_items(parent@, entries@) matches Ok(items) ==> result matches Ok(sorted)
                && tree_view(sorted@) == sort_items(items),
            listed_items(parent@, entries@) matches Err(cause) ==> fails_with(
                result,
                ErrorKind::IoFailure,
                cause,
            ),
        decreases entries,
    {
        let mut items: Vec<FileTreeItem> = Vec::new();
        let ghost mut collected: Seq<TreeItem> = Seq::empty();
        let mut i: usize = 0;
        assert(entries@.subrange(0, 0) =~= Seq::empty());
        while i < entries.len()
            invariant
                i <= entries.len(),
                listed_items(parent@, entries@.subrange(0, i as int)) == Ok::<
                    Seq<TreeItem>,
                    Seq<char>,
                >(collected),
                tree_view(items@) == sort_items(collected),
            decreases entries.len() - i,
        {
            let entry = &entries[i];
            let ghost prefix = entries@.subrange(0, i + 1);
            assert(prefix.drop_last() =~= entries@.subrange(0, i as int));
            assert(prefix.last() == *entry);
            if !is_hidden(entry.name.as_str()) {
                let path = child_of(parent, entry.name.as_str());
                let children = match &entry.listing {
                    Some(below) => {
                        match Self::list_files_recursive(path.as_str(), below) {
                            Ok(tree) => Some(tree),
                            Err(e) => {
                                proof {
                                    lemma_failure_persists(parent@, entries@, i + 1);
                                }
                                return Err(e);
                            },
                        }
                    },
                    None => None,
                };
                let item = FileTreeItem {
                    name: entry.name.clone(),
                    path,
                    is_dir: entry.listing.is_some(),
                    children,
                };
                assert(listed_item(parent@, *entry) == Ok::<TreeItem, Seq<char>>(item@));
                insert_sorted(&mut items, item);
                proof {
                    assert(collected.push(item@).drop_last() =~= collected);
                    collected = collected.push(item@);
                }
            }
            i = i + 1;
        }
        assert(entries@.subrange(0, i as int) =~= entries@);
        Ok(items)
    }
}

/// An entry to be created in a project.
#[derive(Debug, PartialEq, Eq)]
pub struct EntryCreation {
    /// Where the entry is created.
    pub path: String,
    /// Whether a directory is created, with its missing parents and unless
    /// it is there already, or an empty file, replacing what was there.
    pub is_folder: bool,
}

impl ProjectManager {
    /// The path at which the entry `name` of the project at `project_path`
    /// is created: a folder under `name`, a script file under `name` with
    /// the script extension, which is appended unless `name` ends in it.
    pub fn entry_path(project_path: &str, name: &str, is_folder: bool) -> (path: String)
        ensures
            path@ == entry_path(project_path@, name@, is_folder),
    {
        if is_folder {
            join(project_path, name)
        } else {
            let stored = normalize_script_name(name);
            join(project_path, stored.as_str())
        }
    }

    /// Decides how the entry `name` is created in the project at
    /// `project_path`.
    ///
    /// `target` is what was found at the path the entry will have. A folder
    /// is created with its missing parents, and is left alone where it is
    /// there already. A script file is created empty under its stored name:
    /// a file that is there already loses its content, and a directory in
    /// its place makes the creation fail.
    pub fn create_file(
        project_path: &str,
        name: &str,
        is_folder: bool,
        target: PathState,
    ) -> (result: Result<EntryCreation, ProjectError>)
        ensures
            !is_folder && target is Directory ==> fails_with(
                result,
                ErrorKind::IoFailure,
                "a directory is in the place of the file"@,
            ),
            is_folder || !(target is Directory) ==> (result matches Ok(entry) && entry.path@
                == entry_path(project_path@, name@, is_folder) && entry.is_folder == is_folder),
    {
        if !is_folder {
            match target {
                PathState::Directory => {
                    return Err(
                        ProjectError::new(
                            ErrorKind::IoFailure,
                            "a directory is in the place of the file".to_owned(),
                        ),
                    );
                },
                _ => {},
            }
        }
        Ok(EntryCreation { path: Self::entry_path(project_path, name, is_folder), is_folder })
    }
}

} // verus!
