//! The file tree: its mathematical model and the listing it is built from.

use vstd::prelude::*;
use vstd::seq_lib::to_multiset_insert;
use crate::paths::child_path;
use crate::text::{
    is_hidden_name, lemma_name_le_reflexive, lemma_name_le_total, lemma_name_le_transitive, name_le,
};

verus! {

/// What reading one directory gave.
#[derive(Debug, PartialEq, Eq)]
pub enum DirListing {
    /// The directory was read; its entries in the order they were listed.
    Entries(Vec<DirEntry>),
    /// The listing broke off: the entries that were listed before it did,
    /// and the cause as reported.
    Interrupted(Vec<DirEntry>, String),
    /// The directory could not be read; the cause as reported.
    Failed(String),
}

/// One entry of a directory as it was found on disk.
#[derive(Debug, PartialEq, Eq)]
pub struct DirEntry {
    /// The entry's own name, without any directory in front.
    pub name: String,
    /// For a directory, what reading it gave; `None` for anything else.
    pub listing: Option<DirListing>,
}

/// The mathematical model of one node of the file tree.
pub struct TreeItem {
    pub name: Seq<char>,
    pub path: Seq<char>,
    pub is_dir: bool,
    pub children: Option<Seq<TreeItem>>,
}

/// The order of the items of one directory: directories before files, and
/// within each group by name.
pub open spec fn item_le(a: TreeItem, b: TreeItem) -> bool {
    if a.is_dir != b.is_dir {
        a.is_dir
    } else {
        name_le(a.name, b.name)
    }
}

/// `item` put into `items` behind the last item that does not come after it.
pub open spec fn insert_item(items: Seq<TreeItem>, item: TreeItem) -> Seq<TreeItem>
    decreases items.len(),
{
    if items.len() == 0 {
        seq![item]
    } else if item_le(items.last(), item) {
        items.push(item)
    } else {
        insert_item(items.drop_last(), item).push(items.last())
    }
}

/// `items` in the order of `item_le`; items that the order does not tell
/// apart keep the order they had.
pub open spec fn sort_items(items: Seq<TreeItem>) -> Seq<TreeItem>
    decreases items.len(),
{
    if items.len() == 0 {
        Seq::empty()
    } else {
        insert_item(sort_items(items.drop_last()), items.last())
    }
}

/// The tree of a directory whose path relative to the project root is
/// `parent`, or the cause of the first failure met on the way through it.
pub open spec fn listed_tree(parent: Seq<char>, listing: DirListing) -> Result<
    Seq<TreeItem>,
    Seq<char>,
>
    decreases listing,
{
    match listing {
        DirListing::Failed(cause) => Err(cause@),
        DirListing::Entries(entries) => match listed_items(parent, entries@) {
            Ok(items) => Ok(sort_items(items)),
            Err(cause) => Err(cause),
        },
        DirListing::Interrupted(entries, cause) => match listed_items(parent, entries@) {
            Ok(_) => Err(cause@),
            Err(earlier) => Err(earlier),
        },
    }
}

/// The items of the visible entries among `entries`, in the order of the
/// listing, or the cause of the first failure.
pub open spec fn listed_items(parent: Seq<char>, entries: Seq<DirEntry>) -> Result<
    Seq<TreeItem>,
    Seq<char>,
>
    decreases entries,
{
    if entries.len() == 0 {
        Ok(Seq::empty())
    } else {
        match listed_items(parent, entries.drop_last()) {
            Err(cause) => Err(cause),
            Ok(items) => if is_hidden_name(entries.last().name@) {
                Ok(items)
            } else {
                match listed_item(parent, entries.last()) {
                    Ok(item) => Ok(items.push(item)),
                    Err(cause) => Err(cause),
                }
            },
        }
    }
}

/// The item of one entry, with the tree below it where it is a directory.
pub open spec fn listed_item(parent: Seq<char>, entry: DirEntry) -> Result<TreeItem, Seq<char>>
    decreases entry,
{
    let path = child_path(parent, entry.name@);
    match entry.listing {
        None => Ok(TreeItem { name: entry.name@, path, is_dir: false, children: None }),
        Some(listing) => match listed_tree(path, listing) {
            Ok(children) => Ok(
                TreeItem { name: entry.name@, path, is_dir: true, children: Some(children) },
            ),
            Err(cause) => Err(cause),
        },
    }
}


/// No item of `items` comes after an item behind it.
pub open spec fn sorted(items: Seq<TreeItem>) -> bool {
    forall|i: int, j: int| 0 <= i < j < items.len() ==> item_le(items[i], items[j])
}

/// No item of the tree, at any depth, has a hidden name.
pub open spec fn no_hidden(items: Seq<TreeItem>) -> bool
    decreases items,
{
    forall|i: int| 0 <= i < items.len() ==> item_shown(#[trigger] items[i])
}

/// Neither `item` nor anything below it has a hidden name.
pub open spec fn item_shown(item: TreeItem) -> bool
    decreases item,
{
    &&& !is_hidden_name(item.name)
    &&& item.children matches Some(below) ==> no_hidden(below)
}

/// At every depth of the tree the items of one directory are sorted.
pub open spec fn ordered(items: Seq<TreeItem>) -> bool
    decreases items,
{
    &&& sorted(items)
    &&& forall|i: int| 0 <= i < items.len() ==> item_ordered(#[trigger] items[i])
}

/// Everything below `item` is sorted, directory by directory.
pub open spec fn item_ordered(item: TreeItem) -> bool
    decreases item,
{
    item.children matches Some(below) ==> ordered(below)
}

/// The items are those of the directory at `parent`: each has the path of
/// its name below `parent`, holds children exactly when it is a directory,
/// and its children are in turn those of the directory at its path.
pub open spec fn rooted(parent: Seq<char>, items: Seq<TreeItem>) -> bool
    decreases items,
{
    forall|i: int| 0 <= i < items.len() ==> item_rooted(parent, #[trigger] items[i])
}

/// `item` is an entry of the directory at `parent`.
pub open spec fn item_rooted(parent: Seq<char>, item: TreeItem) -> bool
    decreases item,
{
    &&& item.path == child_path(parent, item.name)
    &&& item.is_dir <==> item.children is Some
    &&& item.children matches Some(below) ==> rooted(item.path, below)
}

/// Every directory of the listing that the tree shows could be read to its
/// end: the listing itself, and each directory below it that is not hidden
/// and not below a hidden directory.
pub open spec fn readable(listing: DirListing) -> bool
    decreases listing,
{
    listing matches DirListing::Entries(entries) && forall|i: int|
        0 <= i < entries@.len() ==> entry_readable(#[trigger] entries@[i])
}

/// `entry` is hidden, or no directory, or a directory that could be read
/// together with what it shows.
pub open spec fn entry_readable(entry: DirEntry) -> bool
    decreases entry,
{
    is_hidden_name(entry.name@) || (entry.listing matches Some(below) ==> readable(below))
}

/// The order of items leaves no two items unranked.
pub proof fn lemma_item_le_total(a: TreeItem, b: TreeItem)
    ensures
        item_le(a, b) || item_le(b, a),
{
    lemma_name_le_total(a.name, b.name);
}

/// Every item ranks with itself.
pub proof fn lemma_item_le_reflexive(a: TreeItem)
    ensures
        item_le(a, a),
{
    lemma_name_le_reflexive(a.name);
}

/// The order of items carries over an item in between.
pub proof fn lemma_item_le_transitive(a: TreeItem, b: TreeItem, c: TreeItem)
    requires
        item_le(a, b),
        item_le(b, c),
    ensures
        item_le(a, c),
{
    if a.is_dir == b.is_dir && b.is_dir == c.is_dir {
        lemma_name_le_transitive(a.name, b.name, c.name);
    }
}

/// The place where `insert_item` puts `item`: behind the last item of
/// `items` that does not come after it.
pub open spec fn insert_position(items: Seq<TreeItem>, item: TreeItem) -> int
    decreases items.len(),
{
    if items.len() == 0 || item_le(items.last(), item) {
        items.len() as int
    } else {
        insert_position(items.drop_last(), item)
    }
}

/// `insert_item` adds `item` at `insert_position` and moves nothing else.
pub proof fn lemma_insert_item_position(items: Seq<TreeItem>, item: TreeItem)
    ensures
        0 <= insert_position(items, item) <= items.len(),
        insert_item(items, item) == items.insert(insert_position(items, item), item),
        forall|j: int|
            insert_position(items, item) <= j < items.len() ==> !item_le(
                #[trigger] items[j],
                item,
            ),
        insert_position(items, item) > 0 ==> item_le(
            items[insert_position(items, item) - 1],
            item,
        ),
    decreases items.len(),
{
    let pos = insert_position(items, item);
    if items.len() == 0 {
        assert(seq![item] =~= items.insert(pos, item));
    } else if item_le(items.last(), item) {
        assert(items.push(item) =~= items.insert(pos, item));
    } else {
        lemma_insert_item_position(items.drop_last(), item);
        assert(items.drop_last().insert(pos, item).push(items.last()) =~= items.insert(
            pos,
            item,
        ));
        assert forall|j: int| pos <= j < items.len() implies !item_le(
            #[trigger] items[j],
            item,
        ) by {
            if j < items.len() - 1 {
                assert(items[j] == items.drop_last()[j]);
            }
        }
    }
}

/// Inserting into sorted items leaves them sorted.
pub proof fn lemma_insert_item_sorted(items: Seq<TreeItem>, item: TreeItem)
    requires
        sorted(items),
    ensures
        sorted(insert_item(items, item)),
{
    lemma_insert_item_position(items, item);
    let pos = insert_position(items, item);
    let out = items.insert(pos, item);
    assert forall|i: int, j: int| 0 <= i < j < out.len() implies item_le(out[i], out[j]) by {
        if j == pos {
            // out[i] is an item in front of the position
            if i < pos - 1 {
                assert(item_le(items[i], items[pos - 1]));
                lemma_item_le_transitive(items[i], items[pos - 1], item);
            }
        } else if i == pos {
            // out[j] is an item behind the position
            lemma_item_le_total(items[j - 1], item);
        } else if i < pos && pos < j {
            assert(item_le(items[i], items[j - 1]));
        } else if j < pos {
            assert(item_le(items[i], items[j]));
        } else {
            assert(item_le(items[i - 1], items[j - 1]));
        }
    }
}

/// `sort_items` gives sorted items.
pub proof fn lemma_sort_items_sorted(items: Seq<TreeItem>)
    ensures
        sorted(sort_items(items)),
    decreases items.len(),
{
    if items.len() > 0 {
        lemma_sort_items_sorted(items.drop_last());
        lemma_insert_item_sorted(sort_items(items.drop_last()), items.last());
    }
}

/// `sort_items` gives the same items, each as often as it was there.
pub proof fn lemma_sort_items_permutes(items: Seq<TreeItem>)
    ensures
        sort_items(items).len() == items.len(),
        sort_items(items).to_multiset() == items.to_multiset(),
    decreases items.len(),
{
    if items.len() > 0 {
        let front = items.drop_last();
        lemma_sort_items_permutes(front);
        lemma_insert_item_position(sort_items(front), items.last());
        to_multiset_insert(
            sort_items(front),
            insert_position(sort_items(front), items.last()),
            items.last(),
        );
        assert(front.push(items.last()) =~= items);
        assert(front.insert(front.len() as int, items.last()) =~= items);
        to_multiset_insert(front, front.len() as int, items.last());
    } else {
        assert(sort_items(items) =~= items);
    }
}

/// `a` and `b` rank together: the order puts neither behind the other.
pub open spec fn same_rank(a: TreeItem, b: TreeItem) -> bool {
    item_le(a, b) && item_le(b, a)
}

/// The items of `items` that rank with `item`, in the order of `items`.
pub open spec fn of_rank(items: Seq<TreeItem>, item: TreeItem) -> Seq<TreeItem> {
    items.filter(|other: TreeItem| same_rank(item, other))
}

/// Inserting an item adds it behind the items of its rank and leaves the
/// items of every other rank as they were.
pub proof fn lemma_insert_item_rank(items: Seq<TreeItem>, item: TreeItem, rank: TreeItem)
    ensures
        of_rank(insert_item(items, item), rank) == if same_rank(rank, item) {
            of_rank(items, rank).push(item)
        } else {
            of_rank(items, rank)
        },
    decreases items.len(),
{
    let ranked = |other: TreeItem| same_rank(rank, other);
    if items.len() == 0 {
        assert(seq![item] =~= items.push(item));
        items.lemma_filter_push(item, ranked);
    } else if item_le(items.last(), item) {
        items.lemma_filter_push(item, ranked);
    } else {
        let front = items.drop_last();
        let last = items.last();
        lemma_insert_item_rank(front, item, rank);
        insert_item(front, item).lemma_filter_push(last, ranked);
        front.lemma_filter_push(last, ranked);
        assert(front.push(last) =~= items);
        if same_rank(rank, item) && same_rank(rank, last) {
            lemma_item_le_transitive(last, rank, item);
        }
    }
}

/// Sorting is stable: the items of one rank come out in the order in which
/// they went in.
pub proof fn lemma_sort_items_stable(items: Seq<TreeItem>, rank: TreeItem)
    ensures
        of_rank(sort_items(items), rank) == of_rank(items, rank),
    decreases items.len(),
{
    let ranked = |other: TreeItem| same_rank(rank, other);
    if items.len() == 0 {
        assert(sort_items(items) =~= items);
    } else {
        let front = items.drop_last();
        lemma_sort_items_stable(front, rank);
        lemma_insert_item_rank(sort_items(front), items.last(), rank);
        front.lemma_filter_push(items.last(), ranked);
        assert(front.push(items.last()) =~= items);
    }
}

/// Every item of `sort_items(items)` is an item of `items`.
pub proof fn lemma_sort_items_members(items: Seq<TreeItem>)
    ensures
        forall|i: int|
            0 <= i < sort_items(items).len() ==> items.contains(#[trigger] sort_items(items)[i]),
    decreases items.len(),
{
    if items.len() > 0 {
        let front = items.drop_last();
        let sorted_front = sort_items(front);
        lemma_sort_items_members(front);
        lemma_insert_item_position(sorted_front, items.last());
        let pos = insert_position(sorted_front, items.last());
        let out = sort_items(items);
        assert forall|i: int| 0 <= i < out.len() implies items.contains(#[trigger] out[i]) by {
            if i == pos {
                assert(items[items.len() - 1] == out[i]);
            } else {
                let k = if i < pos {
                    i
                } else {
                    i - 1
                };
                assert(out[i] == sorted_front[k]);
                assert(front.contains(sorted_front[k]));
                let w = choose|w: int| 0 <= w < front.len() && front[w] == sorted_front[k];
                assert(items[w] == out[i]);
            }
        }
    }
}


/// A tree that `listed_tree` gives shows no hidden entry, is sorted in every
/// directory, and is rooted at the directory that was listed.
proof fn lemma_listed_tree_sound(parent: Seq<char>, listing: DirListing)
    ensures
        listed_tree(parent, listing) matches Ok(tree) ==> no_hidden(tree) && ordered(tree)
            && rooted(parent, tree),
    decreases listing,
{
    match listing {
        DirListing::Entries(entries) => {
            lemma_listed_items_sound(parent, entries@);
            match listed_items(parent, entries@) {
                Ok(items) => {
                    let tree = sort_items(items);
                    lemma_sort_items_members(items);
                    lemma_sort_items_sorted(items);
                    assert forall|i: int| 0 <= i < tree.len() implies item_shown(#[trigger] tree[i])
                        && item_ordered(tree[i]) && item_rooted(parent, tree[i]) by {
                        let w = choose|w: int| 0 <= w < items.len() && items[w] == tree[i];
                        assert(item_shown(items[w]));
                    }
                },
                Err(_) => {},
            }
        },
        DirListing::Interrupted(_, _) => {},
        DirListing::Failed(_) => {},
    }
}

/// Each item that `listed_items` gives shows no hidden entry, is sorted
/// below, and is an entry of the directory that was listed.
proof fn lemma_listed_items_sound(parent: Seq<char>, entries: Seq<DirEntry>)
    ensures
        listed_items(parent, entries) matches Ok(items) ==> forall|i: int|
            0 <= i < items.len() ==> item_shown(#[trigger] items[i]) && item_ordered(items[i])
                && item_rooted(parent, items[i]),
    decreases entries,
{
    if entries.len() > 0 {
        lemma_listed_items_sound(parent, entries.drop_last());
        if !is_hidden_name(entries.last().name@) {
            lemma_listed_item_sound(parent, entries.last());
        }
    }
}

/// The item that `listed_item` gives shows no hidden entry, is sorted
/// below, and is an entry of the directory at `parent`.
proof fn lemma_listed_item_sound(parent: Seq<char>, entry: DirEntry)
    requires
        !is_hidden_name(entry.name@),
    ensures
        listed_item(parent, entry) matches Ok(item) ==> item_shown(item) && item_ordered(item)
            && item_rooted(parent, item),
    decreases entry,
{
    match entry.listing {
        Some(listing) => {
            lemma_listed_tree_sound(child_path(parent, entry.name@), listing);
        },
        None => {},
    }
}

/// A listing gives a tree exactly when every directory that the tree shows
/// could be read.
pub proof fn lemma_listed_tree_ok(parent: Seq<char>, listing: DirListing)
    ensures
        listed_tree(parent, listing) is Ok <==> readable(listing),
    decreases listing,
{
    match listing {
        DirListing::Entries(entries) => {
            lemma_listed_items_ok(parent, entries@);
        },
        DirListing::Interrupted(_, _) => {},
        DirListing::Failed(_) => {},
    }
}

/// The entries give their items exactly when each of them is readable.
proof fn lemma_listed_items_ok(parent: Seq<char>, entries: Seq<DirEntry>)
    ensures
        listed_items(parent, entries) is Ok <==> forall|i: int|
            0 <= i < entries.len() ==> entry_readable(#[trigger] entries[i]),
    decreases entries,
{
    if entries.len() > 0 {
        let front = entries.drop_last();
        lemma_listed_items_ok(parent, front);
        let entry = entries.last();
        lemma_listed_item_ok(parent, entry);
        assert(entries[entries.len() - 1] == entry);
        if listed_items(parent, entries) is Ok {
            assert forall|i: int| 0 <= i < entries.len() implies entry_readable(
                #[trigger] entries[i],
            ) by {
                if i < entries.len() - 1 {
                    assert(front[i] == entries[i]);
                }
            }
        }
        if forall|i: int| 0 <= i < entries.len() ==> entry_readable(#[trigger] entries[i]) {
            assert forall|i: int| 0 <= i < front.len() implies entry_readable(
                #[trigger] front[i],
            ) by {
                assert(front[i] == entries[i]);
            }
        }
    }
}

/// An entry gives its item exactly when it is no directory or a readable
/// one.
proof fn lemma_listed_item_ok(parent: Seq<char>, entry: DirEntry)
    ensures
        listed_item(parent, entry) is Ok <==> (entry.listing matches Some(below) ==> readable(
            below,
        )),
    decreases entry,
{
    match entry.listing {
        Some(below) => {
            lemma_listed_tree_ok(child_path(parent, entry.name@), below);
        },
        None => {},
    }
}

/// What is below a hidden entry does not matter: the items of a listing
/// stay the same when a hidden entry is replaced by any entry of its name,
/// so a hidden directory need not be read at all.
pub proof fn lemma_hidden_entry_is_ignored(
    parent: Seq<char>,
    entries: Seq<DirEntry>,
    i: int,
    other: DirEntry,
)
    requires
        0 <= i < entries.len(),
        is_hidden_name(entries[i].name@),
        other.name@ == entries[i].name@,
    ensures
        listed_items(parent, entries.update(i, other)) == listed_items(parent, entries),
    decreases entries.len(),
{
    let changed = entries.update(i, other);
    if i == entries.len() - 1 {
        assert(changed.drop_last() =~= entries.drop_last());
    } else {
        assert(changed.drop_last() =~= entries.drop_last().update(i, other));
        lemma_hidden_entry_is_ignored(parent, entries.drop_last(), i, other);
    }
}

/// No hidden entry is listed: a tree built from a listing holds no item
/// whose name starts with the hidden marker, at any depth.
pub proof fn lemma_listed_tree_no_hidden(parent: Seq<char>, listing: DirListing)
    ensures
        listed_tree(parent, listing) matches Ok(tree) ==> no_hidden(tree),
{
    lemma_listed_tree_sound(parent, listing);
}

/// A listing is sorted: in every directory of a tree built from a listing
/// the sub-directories come before the files, and each group is in the
/// order of names.
pub proof fn lemma_listed_tree_ordered(parent: Seq<char>, listing: DirListing)
    ensures
        listed_tree(parent, listing) matches Ok(tree) ==> ordered(tree),
{
    lemma_listed_tree_sound(parent, listing);
}

/// A listing keeps the shape of the directory: every item of a tree built
/// from a listing has the path of its name below its directory, and holds
/// children exactly when it is a directory.
pub proof fn lemma_listed_tree_rooted(parent: Seq<char>, listing: DirListing)
    ensures
        listed_tree(parent, listing) matches Ok(tree) ==> rooted(parent, tree),
{
    lemma_listed_tree_sound(parent, listing);
}

} // verus!
