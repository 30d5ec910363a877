//! The traversal engine: walks one opened directory listing, emits the path
//! of every file and symbolic link to the output, classifies every failure
//! and appends it to the error reports, and recurses into subdirectories.
//!
//! Severity policy, applied uniformly to listing failures, metadata
//! failures and subdirectory open failures: a permission denial is
//! recoverable (reported with the offending path as context, or with a
//! generic description when the listing stream itself failed and no path is
//! known); any other operating-system error is fatal and reported bare. A
//! failure of one child never hides its siblings: only the failure to open
//! a directory abandons that directory's subtree, and even that leaves the
//! siblings of the directory untouched. A path that is not valid text can
//! be neither emitted, recursed into, nor used as a report context; it
//! yields one fatal report when first needed and is skipped.

use vstd::prelude::*;
use crate::fs_model::{DirItem, OsError, PathText};
use crate::report::{Report, ReportKind, ReportV};

verus! {

/// The message of the fatal report raised for a path that is not valid text.
pub open spec fn invalid_text_message() -> Seq<char> {
    "path did not contain valid text"@
}

/// The generic context of a recoverable failure of the listing stream
/// itself, where no single entry's path is to blame.
pub open spec fn listing_context() -> Seq<char> {
    "Failed to read directories"@
}

/// Severity policy for an operating-system failure with a known context:
/// permission denial is recoverable, anything else fatal (and a fatal
/// report carries no context).
pub open spec fn classified(context: Seq<char>, e: OsError) -> ReportV {
    if e.denied {
        ReportV::Recoverable { context: context, message: e.message@ }
    } else {
        ReportV::Fatal { message: e.message@ }
    }
}

/// The fatal report for a path that is not valid text.
pub open spec fn invalid_text_report_v() -> ReportV {
    ReportV::Fatal { message: invalid_text_message() }
}

/// The output lines one node contributes: its own path if it is a file or
/// symbolic link with a textual path, the lines of its subtree if it is an
/// opened subdirectory with a textual path, nothing otherwise.
pub open spec fn item_lines(item: DirItem) -> Seq<Seq<char>>
    decreases item,
{
    match item {
        DirItem::File(p) => match p {
            PathText::Text(s) => seq![s@],
            PathText::NotText => Seq::empty(),
        },
        DirItem::Symlink(p) => match p {
            PathText::Text(s) => seq![s@],
            PathText::NotText => Seq::empty(),
        },
        DirItem::Dir(p, sub) => if p.is_text() {
            items_lines(sub@)
        } else {
            Seq::empty()
        },
        _ => Seq::empty(),
    }
}

/// The output lines of a whole listing, in listing order, each
/// subdirectory's lines inline at the point of recursion.
pub open spec fn items_lines(items: Seq<DirItem>) -> Seq<Seq<char>>
    decreases items,
{
    if items.len() == 0 {
        Seq::empty()
    } else {
        item_lines(items[0]) + items_lines(items.drop_first())
    }
}

/// The failure reports one node contributes, under the severity policy.
pub open spec fn item_reports(item: DirItem) -> Seq<ReportV>
    decreases item,
{
    match item {
        DirItem::ListError(e) => seq![classified(listing_context(), e)],
        DirItem::MetaError(p, e) => match p {
            PathText::Text(s) => seq![classified(s@, e)],
            PathText::NotText => seq![invalid_text_report_v()],
        },
        DirItem::Vanished => Seq::empty(),
        DirItem::File(p) => match p {
            PathText::Text(_) => Seq::empty(),
            PathText::NotText => seq![invalid_text_report_v()],
        },
        DirItem::Symlink(p) => match p {
            PathText::Text(_) => Seq::empty(),
            PathText::NotText => seq![invalid_text_report_v()],
        },
        DirItem::Dir(p, sub) => match p {
            PathText::Text(_) => items_reports(sub@),
            PathText::NotText => seq![invalid_text_report_v()],
        },
        DirItem::DirError(p, e) => match p {
            PathText::Text(s) => seq![classified(s@, e)],
            PathText::NotText => seq![invalid_text_report_v()],
        },
    }
}

/// The failure reports of a whole listing, in listing order.
pub open spec fn items_reports(items: Seq<DirItem>) -> Seq<ReportV>
    decreases items,
{
    if items.len() == 0 {
        Seq::empty()
    } else {
        item_reports(items[0]) + items_reports(items.drop_first())
    }
}

/// The lines of two listings laid side by side are the lines of each,
/// concatenated: what one sibling contributes is independent of the others.
pub proof fn lemma_items_lines_concat(a: Seq<DirItem>, b: Seq<DirItem>)
    ensures
        items_lines(a + b) == items_lines(a) + items_lines(b),
    decreases a.len(),
{
    if a.len() == 0 {
        assert(a + b =~= b);
        assert(items_lines(a) + items_lines(b) =~= items_lines(b));
    } else {
        assert((a + b)[0] == a[0]);
        assert((a + b).drop_first() =~= a.drop_first() + b);
        lemma_items_lines_concat(a.drop_first(), b);
        assert(items_lines(a + b) =~= items_lines(a) + items_lines(b));
    }
}

/// The reports of two listings laid side by side are the reports of each,
/// concatenated.
pub proof fn lemma_items_reports_concat(a: Seq<DirItem>, b: Seq<DirItem>)
    ensures
        items_reports(a + b) == items_reports(a) + items_reports(b),
    decreases a.len(),
{
    if a.len() == 0 {
        assert(a + b =~= b);
        assert(items_reports(a) + items_reports(b) =~= items_reports(b));
    } else {
        assert((a + b)[0] == a[0]);
        assert((a + b).drop_first() =~= a.drop_first() + b);
        lemma_items_reports_concat(a.drop_first(), b);
        assert(items_reports(a + b) =~= items_reports(a) + items_reports(b));
    }
}

/// Appending one node to a listing appends exactly that node's lines.
pub proof fn lemma_items_lines_push(s: Seq<DirItem>, x: DirItem)
    ensures
        items_lines(s.push(x)) == items_lines(s) + item_lines(x),
{
    assert(s.push(x) =~= s + seq![x]);
    lemma_items_lines_concat(s, seq![x]);
    assert(seq![x].len() == 1);
    assert(seq![x][0] == x);
    assert(seq![x].drop_first() =~= Seq::<DirItem>::empty());
    assert(items_lines(seq![x].drop_first()) == Seq::<Seq<char>>::empty());
    assert(items_lines(seq![x]) =~= item_lines(x));
}

/// Appending one node to a listing appends exactly that node's reports.
pub proof fn lemma_items_reports_push(s: Seq<DirItem>, x: DirItem)
    ensures
        items_reports(s.push(x)) == items_reports(s) + item_reports(x),
{
    assert(s.push(x) =~= s + seq![x]);
    lemma_items_reports_concat(s, seq![x]);
    assert(seq![x].len() == 1);
    assert(seq![x][0] == x);
    assert(seq![x].drop_first() =~= Seq::<DirItem>::empty());
    assert(items_reports(seq![x].drop_first()) == Seq::<ReportV>::empty());
    assert(items_reports(seq![x]) =~= item_reports(x));
}

/// Classifies one operating-system failure against a known context.
pub fn classify_error(context: &String, e: &OsError) -> (r: Report)
    ensures
        r@ == classified(context@, *e),
{
    if e.denied {
        Report { kind: ReportKind::Recoverable(context.clone()), message: e.message.clone() }
    } else {
        Report { kind: ReportKind::Fatal, message: e.message.clone() }
    }
}

/// The fatal report raised for a path that is not valid text.
pub fn invalid_text_report() -> (r: Report)
    ensures
        r@ == invalid_text_report_v(),
{
    Report {
        kind: ReportKind::Fatal,
        message: String::from_str("path did not contain valid text"),
    }
}

/// Classifies a failure of the listing stream itself, whose context is the
/// generic description rather than an entry's path.
pub fn classify_listing_error(e: &OsError) -> (r: Report)
    ensures
        r@ == classified(listing_context(), *e),
{
    let context = String::from_str("Failed to read directories");
    classify_error(&context, e)
}

/// Walks one opened directory listing: appends the path of every reachable
/// file and symbolic link to `out` and every classified failure to `errs`,
/// in listing order, recursing into each opened subdirectory in place.
pub fn walk_dir(items: &Vec<DirItem>, out: &mut Vec<String>, errs: &mut Vec<Report>)
    ensures
        final(out).deep_view() == old(out).deep_view() + items_lines(items@),
        final(errs).deep_view() == old(errs).deep_view() + items_reports(items@),
    decreases items@,
{
    let ghost out0 = out.deep_view();
    let ghost errs0 = errs.deep_view();
    let mut i: usize = 0;
    while i < items.len()
        invariant
            i <= items.len(),
            out.deep_view() == out0 + items_lines(items@.take(i as int)),
            errs.deep_view() == errs0 + items_reports(items@.take(i as int)),
        decreases items@.len() - i,
    {
        let ghost out_pre = out.deep_view();
        let ghost errs_pre = errs.deep_view();
        match &items[i] {
            DirItem::ListError(e) => {
                errs.push(classify_listing_error(e));
            },
            DirItem::MetaError(p, e) => match p {
                PathText::Text(s) => {
                    errs.push(classify_error(s, e));
                },
                PathText::NotText => {
                    errs.push(invalid_text_report());
                },
            },
            DirItem::Vanished => {},
            DirItem::File(p) => match p {
                PathText::Text(s) => {
                    out.push(s.clone());
                },
                PathText::NotText => {
                    errs.push(invalid_text_report());
                },
            },
            DirItem::Symlink(p) => match p {
                PathText::Text(s) => {
                    out.push(s.clone());
                },
                PathText::NotText => {
                    errs.push(invalid_text_report());
                },
            },
            DirItem::Dir(p, sub) => match p {
                PathText::Text(_) => {
                    proof {
                        assert(decreases_to!(items@ => items@[i as int]));
                        assert(decreases_to!(items@[i as int] => sub@));
                    }
                    walk_dir(sub, out, errs);
                },
                PathText::NotText => {
                    errs.push(invalid_text_report());
                },
            },
            DirItem::DirError(p, e) => match p {
                PathText::Text(s) => {
                    errs.push(classify_error(s, e));
                },
                PathText::NotText => {
                    errs.push(invalid_text_report());
                },
            },
        }
        proof {
            let it = items@[i as int];
            assert(out.deep_view() =~= out_pre + item_lines(it));
            assert(errs.deep_view() =~= errs_pre + item_reports(it));
            assert(items@.take(i + 1) =~= items@.take(i as int).push(it));
            lemma_items_lines_push(items@.take(i as int), it);
            lemma_items_reports_push(items@.take(i as int), it);
            assert(out.deep_view() =~= out0 + items_lines(items@.take(i + 1)));
            assert(errs.deep_view() =~= errs0 + items_reports(items@.take(i + 1)));
        }
        i = i + 1;
    }
    proof {
        assert(items@.take(items@.len() as int) =~= items@);
    }
}

} // verus!
