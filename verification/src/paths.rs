//! Paths as strings: how names are joined, where a project keeps its
//! configuration, and how script files are named.
//!
//! A path is a sequence of names with `/` between them. Joining follows the
//! usual rule for paths: a name that starts at the root stands for itself,
//! and no second separator is put behind a directory that already ends in
//! one.

use vstd::prelude::*;
use vstd::std_specs::iter::IteratorSpec;
use vstd::string::*;

verus! {

broadcast use vstd::string::group_string_axioms;

/// The character between the names of a path.
pub open spec fn separator() -> char {
    '/'
}

/// The name of the hidden directory that holds a project's metadata.
pub open spec fn metadata_dir_name() -> Seq<char> {
    seq!['.', 'a', 'n', 'i', 's', 't', 'o']
}

/// The name of the configuration file inside the metadata directory.
pub open spec fn config_file_name() -> Seq<char> {
    seq!['p', 'r', 'o', 'j', 'e', 'c', 't', '.', 'j', 's', 'o', 'n']
}

/// The extension that every script file carries.
pub open spec fn script_extension() -> Seq<char> {
    seq!['.', 'm', 's', 'g']
}

/// `text` ends with `suffix`, character for character.
pub open spec fn has_suffix(text: Seq<char>, suffix: Seq<char>) -> bool {
    text.len() >= suffix.len() && text.subrange(text.len() - suffix.len(), text.len() as int)
        == suffix
}

/// `name` starts at the root instead of below a directory.
pub open spec fn is_absolute(name: Seq<char>) -> bool {
    name.len() > 0 && name[0] == separator()
}

/// The path of `name` seen from the directory `base`.
pub open spec fn join_path(base: Seq<char>, name: Seq<char>) -> Seq<char> {
    if is_absolute(name) {
        name
    } else if base.len() == 0 || base.last() == separator() {
        base + name
    } else {
        base + seq![separator()] + name
    }
}

/// The path of the entry `name` inside the directory whose own path,
/// relative to the project root, is `parent`. The root's path is empty.
pub open spec fn child_path(parent: Seq<char>, name: Seq<char>) -> Seq<char> {
    if parent.len() == 0 {
        name
    } else {
        parent + seq![separator()] + name
    }
}

/// The metadata directory of the project at `project_path`.
pub open spec fn metadata_dir(project_path: Seq<char>) -> Seq<char> {
    join_path(project_path, metadata_dir_name())
}

/// The configuration file of the project at `project_path`.
pub open spec fn config_path(project_path: Seq<char>) -> Seq<char> {
    join_path(metadata_dir(project_path), config_file_name())
}

/// The name under which a script file called `name` is stored: `name`
/// itself where it already ends in the script extension, compared case by
/// case, and `name` followed by the extension where it does not.
pub open spec fn script_file_name(name: Seq<char>) -> Seq<char> {
    if has_suffix(name, script_extension()) {
        name
    } else {
        name + script_extension()
    }
}

/// The path at which the entry `name` of the project at `project_path` is
/// created: a folder under its own name, a script file under its stored
/// name.
pub open spec fn entry_path(project_path: Seq<char>, name: Seq<char>, is_folder: bool) -> Seq<
    char,
> {
    if is_folder {
        join_path(project_path, name)
    } else {
        join_path(project_path, script_file_name(name))
    }
}

/// A script file has one stored name, whether it is asked for with the
/// extension or without: a stored name ends in the script extension, storing
/// it again leaves it as it is, and so the file is created at one path.
pub proof fn lemma_script_file_name_settles(name: Seq<char>)
    ensures
        has_suffix(script_file_name(name), script_extension()),
        script_file_name(name + script_extension()) == name + script_extension(),
        script_file_name(script_file_name(name)) == script_file_name(name),
        forall|project_path: Seq<char>|
            entry_path(project_path, script_file_name(name), false) == entry_path(
                project_path,
                name,
                false,
            ),
{
    let stored = name + script_extension();
    assert(stored.subrange(stored.len() - script_extension().len(), stored.len() as int)
        =~= script_extension());
}

/// Tells whether `text` ends with `suffix`.
pub fn ends_with(text: &str, suffix: &str) -> (found: bool)
    ensures
        found == has_suffix(text@, suffix@),
{
    let n = text.unicode_len();
    let m = suffix.unicode_len();
    if n < m {
        return false;
    }
    let mut tail = text.chars();
    let mut skipped: usize = 0;
    while skipped < n - m
        invariant
            n == text@.len(),
            m == suffix@.len(),
            m <= n,
            skipped <= n - m,
            tail.obeys_prophetic_iter_laws(),
            tail.remaining() == text@.subrange(skipped as int, n as int),
        decreases n - m - skipped,
    {
        let _ = tail.next();
        skipped = skipped + 1;
    }
    let mut rest = suffix.chars();
    let ghost mut matched: int = 0;
    loop
        invariant
            n == text@.len(),
            m == suffix@.len(),
            m <= n,
            0 <= matched <= m,
            tail.obeys_prophetic_iter_laws(),
            rest.obeys_prophetic_iter_laws(),
            rest.decrease() is Some,
            tail.remaining() == text@.subrange(n - m + matched, n as int),
            rest.remaining() == suffix@.subrange(matched, m as int),
            text@.subrange(n - m, n - m + matched) == suffix@.subrange(0, matched),
        decreases rest.decrease()->0,
    {
        let x = tail.next();
        let y = rest.next();
        match (x, y) {
            (Some(p), Some(q)) => {
                if p != q {
                    assert(text@.subrange(n - m, n as int)[matched] == p);
                    return false;
                }
                proof {
                    assert(text@.subrange(n - m, n - m + matched + 1) == suffix@.subrange(
                        0,
                        matched + 1,
                    )) by {
                        let a = text@.subrange(n - m, n - m + matched + 1);
                        let b = suffix@.subrange(0, matched + 1);
                        assert forall|k: int| 0 <= k < a.len() implies a[k] == b[k] by {
                            if k < matched {
                                assert(a[k] == text@.subrange(n - m, n - m + matched)[k]);
                                assert(b[k] == suffix@.subrange(0, matched)[k]);
                            }
                        }
                    }
                    matched = matched + 1;
                }
            },
            _ => {
                assert(matched == m);
                assert(suffix@.subrange(0, m as int) == suffix@);
                return true;
            },
        }
    }
}


/// Joins `name` to the directory `base`.
pub fn join(base: &str, name: &str) -> (joined: String)
    ensures
        joined@ == join_path(base@, name@),
{
    proof {
        reveal_strlit("/");
        assert("/"@ =~= seq![separator()]);
    }
    let mut first = name.chars();
    match first.next() {
        Some(c) => {
            if c == '/' {
                return name.to_owned();
            }
        },
        None => {},
    }
    let mut joined = base.to_owned();
    if !base.is_empty() && !ends_with(base, "/") {
        assert(base@.subrange(base@.len() - 1, base@.len() as int) =~= seq![base@.last()]);
        joined.append("/");
    } else if !base.is_empty() {
        assert(base@.subrange(base@.len() - 1, base@.len() as int)[0] == separator());
    }
    joined.append(name);
    joined
}

/// The path, relative to the project root, of the entry `name` inside the
/// directory whose own relative path is `parent`.
pub fn child_of(parent: &str, name: &str) -> (path: String)
    ensures
        path@ == child_path(parent@, name@),
{
    proof {
        reveal_strlit("/");
    }
    if parent.is_empty() {
        return name.to_owned();
    }
    let mut path = parent.to_owned();
    path.append("/");
    path.append(name);
    path
}

/// Gives a script file its stored name: appends the script extension unless
/// `name` already ends in it.
pub fn normalize_script_name(name: &str) -> (stored: String)
    ensures
        stored@ == script_file_name(name@),
{
    proof {
        reveal_strlit(".msg");
        assert(".msg"@ =~= script_extension());
    }
    let mut stored = name.to_owned();
    if !ends_with(name, ".msg") {
        stored.append(".msg");
    }
    stored
}

} // verus!
