//! The data model of one traversal of a directory tree.
//!
//! The engine never touches the filesystem itself: the surrounding program
//! lists directories and reads metadata, and records the outcome of every
//! fallible step as a node of this model. A node is either a successfully
//! classified entry (file, symbolic link, opened subdirectory) or the
//! failure that the step produced (a listing error, an unreadable entry, a
//! subdirectory that could not be opened, an entry that vanished before its
//! metadata could be read).

use vstd::prelude::*;

verus! {

/// A discovered path, as text when its bytes form valid text.
///
/// A path whose bytes cannot be represented as text can be neither emitted
/// nor used as a report context; the engine raises one fatal report for it
/// if and when it is needed.
pub enum PathText {
    Text(String),
    NotText,
}

impl PathText {
    /// Whether this path can be represented as text.
    pub open spec fn is_text(self) -> bool {
        self is Text
    }
}

/// An operating-system failure, reduced to what the error policy reads:
/// whether it was a permission denial, the numeric code the process would
/// exit with, and a human-readable message.
pub struct OsError {
    pub denied: bool,
    pub code: Option<i32>,
    pub message: String,
}

/// One node discovered while iterating a directory's children.
///
/// The two failure points of the underlying filesystem API each have a
/// variant: the listing stream itself can yield an error in place of an
/// entry (`ListError`), and the metadata read of one listed entry can fail
/// (`MetaError`). A subdirectory carries the outcome of opening it: its own
/// children when the open succeeded (`Dir`), or the error when it did not
/// (`DirError`). An entry deleted between being listed and having its
/// metadata read is `Vanished`: neither file, symlink nor directory.
pub enum DirItem {
    ListError(OsError),
    MetaError(PathText, OsError),
    Vanished,
    File(PathText),
    Symlink(PathText),
    Dir(PathText, Vec<DirItem>),
    DirError(PathText, OsError),
}

/// The outcome of opening one requested root: its immediate children, or
/// the error that prevented the root from being opened at all.
pub enum RootListing {
    Opened(Vec<DirItem>),
    Failed(OsError),
}

/// Whether every path in the tree, at every depth, is valid text.
pub open spec fn all_text(items: Seq<DirItem>) -> bool
    decreases items,
{
    if items.len() == 0 {
        true
    } else {
        item_all_text(items[0]) && all_text(items.drop_first())
    }
}

/// Whether every path of one node and of its subtree is valid text.
pub open spec fn item_all_text(item: DirItem) -> bool
    decreases item,
{
    match item {
        DirItem::ListError(_) => true,
        DirItem::MetaError(p, _) => p.is_text(),
        DirItem::Vanished => true,
        DirItem::File(p) => p.is_text(),
        DirItem::Symlink(p) => p.is_text(),
        DirItem::Dir(p, sub) => p.is_text() && all_text(sub@),
        DirItem::DirError(p, _) => p.is_text(),
    }
}

/// The number of file and symbolic-link nodes in the tree, at every depth.
///
/// Nodes under a subdirectory that could not be opened were never listed
/// and so do not appear in the model at all.
pub open spec fn leaf_count(items: Seq<DirItem>) -> nat
    decreases items,
{
    if items.len() == 0 {
        0
    } else {
        item_leaf_count(items[0]) + leaf_count(items.drop_first())
    }
}

/// The number of file and symbolic-link nodes of one node's subtree.
pub open spec fn item_leaf_count(item: DirItem) -> nat
    decreases item,
{
    match item {
        DirItem::File(_) => 1,
        DirItem::Symlink(_) => 1,
        DirItem::Dir(_, sub) => leaf_count(sub@),
        _ => 0,
    }
}

/// The paths of all file and symbolic-link nodes, in depth-first listing
/// order — the order the engine emits them in.
pub open spec fn leaf_paths(items: Seq<DirItem>) -> Seq<Seq<char>>
    decreases items,
{
    if items.len() == 0 {
        Seq::empty()
    } else {
        item_leaf_paths(items[0]) + leaf_paths(items.drop_first())
    }
}

/// The paths of the file and symbolic-link nodes of one node's subtree.
pub open spec fn item_leaf_paths(item: DirItem) -> Seq<Seq<char>>
    decreases item,
{
    match item {
        DirItem::File(p) => match p {
            PathText::Text(s) => seq![s@],
            PathText::NotText => Seq::empty(),
        },
        DirItem::Symlink(p) => match p {
            PathText::Text(s) => seq![s@],
            PathText::NotText => Seq::empty(),
        },
        DirItem::Dir(p, sub) => if p.is_text() {
            leaf_paths(sub@)
        } else {
            Seq::empty()
        },
        _ => Seq::empty(),
    }
}

} // verus!
