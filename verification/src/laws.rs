//! The engine's guarantees, stated and proved over the traversal model:
//! completeness of emission, isolation of failures to the node that raised
//! them, and determinism of a walk over an unmodified tree.

use vstd::prelude::*;
use vstd::seq_lib::lemma_multiset_commutative;
use crate::fs_model::{all_text, item_all_text, item_leaf_count, item_leaf_paths, leaf_count,
    leaf_paths, DirItem, OsError, PathText, RootListing};
use crate::report::ReportV;
use crate::walk::{classified, invalid_text_report_v, item_lines, item_reports, items_lines,
    items_reports, lemma_items_lines_concat, lemma_items_reports_concat};
use crate::driver::{any_root_failed, error_code, exit_code_after, root_lines, root_reports,
    roots_lines, roots_reports};

verus! {

/// The engine emits exactly the paths of the file and symbolic-link nodes
/// of the tree, in depth-first listing order: no omissions, no inventions,
/// whatever failures stand beside them.
pub proof fn lemma_walk_emits_tree_leaves(items: Seq<DirItem>)
    ensures
        items_lines(items) == leaf_paths(items),
    decreases items,
{
    if items.len() != 0 {
        lemma_item_emits_tree_leaves(items[0]);
        lemma_walk_emits_tree_leaves(items.drop_first());
    }
}

/// One node's lines are exactly the paths of its subtree's files and
/// symbolic links.
pub proof fn lemma_item_emits_tree_leaves(item: DirItem)
    ensures
        item_lines(item) == item_leaf_paths(item),
    decreases item,
{
    match item {
        DirItem::Dir(p, sub) => {
            if p.is_text() {
                lemma_walk_emits_tree_leaves(sub@);
            }
        },
        _ => {},
    }
}

/// On a tree of N files and symbolic links whose paths are all valid text,
/// the engine emits exactly N lines, one per file or symbolic link.
pub proof fn lemma_walk_emission_count(items: Seq<DirItem>)
    requires
        all_text(items),
    ensures
        items_lines(items).len() == leaf_count(items),
    decreases items,
{
    if items.len() != 0 {
        lemma_item_emission_count(items[0]);
        lemma_walk_emission_count(items.drop_first());
    }
}

/// On one node's subtree, with every path valid text, the lines emitted
/// are one per file or symbolic link.
pub proof fn lemma_item_emission_count(item: DirItem)
    requires
        item_all_text(item),
    ensures
        item_lines(item).len() == item_leaf_count(item),
    decreases item,
{
    match item {
        DirItem::Dir(p, sub) => {
            if p.is_text() {
                lemma_walk_emission_count(sub@);
            }
        },
        _ => {},
    }
}

/// When the tree holds no two files or symbolic links under the same path,
/// the engine emits no duplicate line.
pub proof fn lemma_walk_no_duplicates(items: Seq<DirItem>)
    requires
        leaf_paths(items).no_duplicates(),
    ensures
        items_lines(items).no_duplicates(),
{
    lemma_walk_emits_tree_leaves(items);
}

/// One node stands alone among its siblings: the lines and the reports of
/// a listing are those of the nodes before it, its own, and those of the
/// nodes after it, concatenated. No failure of one node hides another.
pub proof fn lemma_sibling_isolation(pre: Seq<DirItem>, item: DirItem, post: Seq<DirItem>)
    ensures
        items_lines(pre + seq![item] + post) == items_lines(pre) + item_lines(item)
            + items_lines(post),
        items_reports(pre + seq![item] + post) == items_reports(pre) + item_reports(item)
            + items_reports(post),
{
    lemma_items_lines_concat(pre + seq![item], post);
    lemma_items_lines_concat(pre, seq![item]);
    lemma_items_reports_concat(pre + seq![item], post);
    lemma_items_reports_concat(pre, seq![item]);
    assert(seq![item].len() == 1);
    assert(seq![item][0] == item);
    assert(seq![item].drop_first() =~= Seq::<DirItem>::empty());
    assert(items_lines(seq![item].drop_first()) == Seq::<Seq<char>>::empty());
    assert(items_lines(seq![item]) =~= item_lines(item));
    assert(items_reports(seq![item].drop_first()) == Seq::<ReportV>::empty());
    assert(items_reports(seq![item]) =~= item_reports(item));
}

/// A subdirectory unreadable for want of permission does not prevent its
/// siblings from being listed: the walk emits the siblings' lines
/// unchanged, with exactly one recoverable report, naming the directory,
/// in between.
pub proof fn lemma_denied_directory_skipped(
    pre: Seq<DirItem>,
    path: String,
    e: OsError,
    post: Seq<DirItem>,
)
    requires
        e.denied,
    ensures
        items_lines(pre + seq![DirItem::DirError(PathText::Text(path), e)] + post) == items_lines(
            pre,
        ) + items_lines(post),
        items_reports(pre + seq![DirItem::DirError(PathText::Text(path), e)] + post)
            == items_reports(pre) + seq![
            ReportV::Recoverable { context: path@, message: e.message@ },
        ] + items_reports(post),
{
    let item = DirItem::DirError(PathText::Text(path), e);
    lemma_sibling_isolation(pre, item, post);
    assert(item_lines(item) == Seq::<Seq<char>>::empty());
    assert(item_reports(item) =~= seq![classified(path@, e)]);
    assert(items_lines(pre) + Seq::<Seq<char>>::empty() =~= items_lines(pre));
}

/// Whether a node names a path that is not valid text.
pub open spec fn names_non_text_path(item: DirItem) -> bool {
    match item {
        DirItem::File(p) => !p.is_text(),
        DirItem::Symlink(p) => !p.is_text(),
        DirItem::Dir(p, _) => !p.is_text(),
        DirItem::DirError(p, _) => !p.is_text(),
        DirItem::MetaError(p, _) => !p.is_text(),
        DirItem::ListError(_) => false,
        DirItem::Vanished => false,
    }
}

/// A node whose path is not valid text is skipped with exactly one fatal
/// report and does not abort the processing of its siblings: their lines
/// and reports are unchanged.
pub proof fn lemma_invalid_text_skipped(pre: Seq<DirItem>, item: DirItem, post: Seq<DirItem>)
    requires
        names_non_text_path(item),
    ensures
        items_lines(pre + seq![item] + post) == items_lines(pre) + items_lines(post),
        items_reports(pre + seq![item] + post) == items_reports(pre) + seq![
            invalid_text_report_v(),
        ] + items_reports(post),
{
    lemma_sibling_isolation(pre, item, post);
    assert(item_lines(item) == Seq::<Seq<char>>::empty());
    assert(item_reports(item) =~= seq![invalid_text_report_v()]);
    assert(items_lines(pre) + Seq::<Seq<char>>::empty() =~= items_lines(pre));
}

/// The lines of a run over several roots laid side by side are the lines
/// of each part, concatenated.
pub proof fn lemma_roots_lines_concat(a: Seq<RootListing>, b: Seq<RootListing>)
    ensures
        roots_lines(a + b) == roots_lines(a) + roots_lines(b),
    decreases a.len(),
{
    if a.len() == 0 {
        assert(a + b =~= b);
        assert(roots_lines(a) + roots_lines(b) =~= roots_lines(b));
    } else {
        assert((a + b)[0] == a[0]);
        assert((a + b).drop_first() =~= a.drop_first() + b);
        lemma_roots_lines_concat(a.drop_first(), b);
        assert(roots_lines(a + b) =~= roots_lines(a) + roots_lines(b));
    }
}

/// The reports of a run over several roots laid side by side are the
/// reports of each part, concatenated.
pub proof fn lemma_roots_reports_concat(a: Seq<RootListing>, b: Seq<RootListing>)
    ensures
        roots_reports(a + b) == roots_reports(a) + roots_reports(b),
    decreases a.len(),
{
    if a.len() == 0 {
        assert(a + b =~= b);
        assert(roots_reports(a) + roots_reports(b) =~= roots_reports(b));
    } else {
        assert((a + b)[0] == a[0]);
        assert((a + b).drop_first() =~= a.drop_first() + b);
        lemma_roots_reports_concat(a.drop_first(), b);
        assert(roots_reports(a + b) =~= roots_reports(a) + roots_reports(b));
    }
}

/// A root that cannot be opened yields zero output lines and exactly one
/// bare fatal report, and does not block the roots processed after it:
/// their lines and reports are unchanged.
pub proof fn lemma_failed_root_isolated(pre: Seq<RootListing>, e: OsError, post: Seq<RootListing>)
    ensures
        roots_lines(pre + seq![RootListing::Failed(e)] + post) == roots_lines(pre) + roots_lines(
            post,
        ),
        roots_reports(pre + seq![RootListing::Failed(e)] + post) == roots_reports(pre) + seq![
            ReportV::Fatal { message: e.message@ },
        ] + roots_reports(post),
{
    let root = RootListing::Failed(e);
    lemma_roots_lines_concat(pre + seq![root], post);
    lemma_roots_lines_concat(pre, seq![root]);
    lemma_roots_reports_concat(pre + seq![root], post);
    lemma_roots_reports_concat(pre, seq![root]);
    assert(seq![root].len() == 1);
    assert(seq![root][0] == root);
    assert(seq![root].drop_first() =~= Seq::<RootListing>::empty());
    assert(roots_lines(seq![root].drop_first()) == Seq::<Seq<char>>::empty());
    assert(roots_lines(seq![root]) =~= root_lines(root));
    assert(roots_reports(seq![root].drop_first()) == Seq::<ReportV>::empty());
    assert(roots_reports(seq![root]) =~= root_reports(root));
    assert(roots_lines(pre) + root_lines(root) =~= roots_lines(pre));
}

/// The code one failed root contributes to the exit state.
pub open spec fn failed_code(r: RootListing) -> int
    recommends
        r is Failed,
{
    match r {
        RootListing::Failed(e) => error_code(e),
        RootListing::Opened(_) => 0,
    }
}

/// When every requested root opens, the run exits with success.
pub proof fn lemma_all_roots_opened_exit_zero(roots: Seq<RootListing>)
    requires
        !any_root_failed(roots),
    ensures
        exit_code_after(roots) == 0,
    decreases roots,
{
    if roots.len() != 0 {
        assert(roots[roots.len() - 1] == roots.last());
        assert(!(roots.last() is Failed));
        assert(!any_root_failed(roots.drop_last())) by {
            if any_root_failed(roots.drop_last()) {
                let i = choose|i: int|
                    0 <= i < roots.drop_last().len() && roots.drop_last()[i] is Failed;
                assert(roots[i] is Failed);
            }
        }
        lemma_all_roots_opened_exit_zero(roots.drop_last());
    }
}

/// When some root fails to open, the exit code is exactly the code of the
/// most recent such failure: some root failed with that code, and every
/// root after it opened.
pub proof fn lemma_exit_code_is_most_recent_failure(roots: Seq<RootListing>)
    requires
        any_root_failed(roots),
    ensures
        exists|j: int|
            0 <= j < roots.len() && (#[trigger] roots[j]) is Failed && exit_code_after(roots)
                == failed_code(roots[j]) && (forall|k: int|
                j < k < roots.len() ==> !((#[trigger] roots[k]) is Failed)),
    decreases roots,
{
    let last = roots.len() - 1;
    if roots[last] is Failed {
        assert(roots.last() == roots[last]);
        assert(exit_code_after(roots) == failed_code(roots[last]));
    } else {
        assert(roots.last() == roots[last]);
        assert(any_root_failed(roots.drop_last())) by {
            let i = choose|i: int| 0 <= i < roots.len() && roots[i] is Failed;
            assert(i != last);
            assert(roots.drop_last()[i] == roots[i]);
        }
        lemma_exit_code_is_most_recent_failure(roots.drop_last());
        let j = choose|j: int|
            0 <= j < roots.drop_last().len() && (#[trigger] roots.drop_last()[j]) is Failed
                && exit_code_after(roots.drop_last()) == failed_code(roots.drop_last()[j]) && (
            forall|k: int|
                j < k < roots.drop_last().len() ==> !((#[trigger] roots.drop_last()[k]) is Failed));
        assert(roots.drop_last()[j] == roots[j]);
        assert(exit_code_after(roots) == exit_code_after(roots.drop_last()));
        assert(forall|k: int| j < k < roots.len() ==> !((#[trigger] roots[k]) is Failed)) by {
            assert forall|k: int| j < k < roots.len() implies !((#[trigger] roots[k]) is Failed) by {
                if k < last {
                    assert(roots.drop_last()[k] == roots[k]);
                }
            }
        }
        assert(0 <= j < roots.len() && roots[j] is Failed);
        assert(exit_code_after(roots) == failed_code(roots[j]));
    }
}

/// Two walks of one unmodified tree emit the same lines: the emission is a
/// function of the tree alone, so the set of emitted lines — indeed their
/// order — cannot differ between runs.
pub proof fn lemma_walk_deterministic(
    items: Seq<DirItem>,
    first: Seq<Seq<char>>,
    second: Seq<Seq<char>>,
)
    requires
        first == items_lines(items),
        second == items_lines(items),
    ensures
        first == second,
        first.to_multiset() == second.to_multiset(),
        first.to_set() == second.to_set(),
{
}

/// Exploring sibling subtrees in either order yields the same lines as
/// content: only their order differs. A strategy that walks siblings
/// concurrently and interleaves their output can therefore change the
/// order of the emitted lines but not the lines themselves.
pub proof fn lemma_sibling_order_is_content_free(a: Seq<DirItem>, b: Seq<DirItem>)
    ensures
        items_lines(a + b).to_multiset() == items_lines(b + a).to_multiset(),
{
    lemma_items_lines_concat(a, b);
    lemma_items_lines_concat(b, a);
    lemma_multiset_commutative(items_lines(a), items_lines(b));
    lemma_multiset_commutative(items_lines(b), items_lines(a));
    assert(items_lines(a).to_multiset().add(items_lines(b).to_multiset()) =~= items_lines(
        b,
    ).to_multiset().add(items_lines(a).to_multiset()));
}

} // verus!
