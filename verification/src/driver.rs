//! The root driver: walks each requested root in turn and aggregates the
//! per-root outcomes into a process exit state.
//!
//! A root that cannot be opened at all contributes no output lines and one
//! fatal report, and escalates the exit state; the remaining roots are
//! still walked. Failures below a root — unreadable entries, subdirectories
//! that cannot be opened — are reported by the engine but never escalate
//! the exit state: only a failure to open a requested root itself does.

use vstd::prelude::*;
use crate::fs_model::{OsError, RootListing};
use crate::report::{Report, ReportKind, ReportV};
use crate::walk::{items_lines, items_reports, walk_dir};

verus! {

/// The exit state the process derives its status from: whether any root
/// failed to open, and the code to exit with — the numeric code of the most
/// recently observed failure, or a generic fallback of 1 when the
/// underlying error carried none.
pub struct ExitState {
    pub had_error: bool,
    pub code: i32,
}

/// The code one failure contributes: the operating-system code when there
/// is one, the generic fallback otherwise.
pub open spec fn error_code(e: OsError) -> int {
    match e.code {
        Some(c) => c as int,
        None => 1,
    }
}

/// The output lines one root contributes: its whole listing's lines when
/// it opened, nothing when it did not.
pub open spec fn root_lines(r: RootListing) -> Seq<Seq<char>> {
    match r {
        RootListing::Opened(items) => items_lines(items@),
        RootListing::Failed(_) => Seq::empty(),
    }
}

/// The reports one root contributes: its whole listing's reports when it
/// opened, one bare fatal report when it did not.
pub open spec fn root_reports(r: RootListing) -> Seq<ReportV> {
    match r {
        RootListing::Opened(items) => items_reports(items@),
        RootListing::Failed(e) => seq![ReportV::Fatal { message: e.message@ }],
    }
}

/// The output lines of a run over several roots, in order.
pub open spec fn roots_lines(roots: Seq<RootListing>) -> Seq<Seq<char>>
    decreases roots,
{
    if roots.len() == 0 {
        Seq::empty()
    } else {
        root_lines(roots[0]) + roots_lines(roots.drop_first())
    }
}

/// The reports of a run over several roots, in order.
pub open spec fn roots_reports(roots: Seq<RootListing>) -> Seq<ReportV>
    decreases roots,
{
    if roots.len() == 0 {
        Seq::empty()
    } else {
        root_reports(roots[0]) + roots_reports(roots.drop_first())
    }
}

/// Whether any of the roots failed to open.
pub open spec fn any_root_failed(roots: Seq<RootListing>) -> bool {
    exists|i: int| 0 <= i < roots.len() && roots[i] is Failed
}

/// The exit code after a run: the code of the most recent root that failed
/// to open, or 0 when every root opened.
pub open spec fn exit_code_after(roots: Seq<RootListing>) -> int
    decreases roots,
{
    if roots.len() == 0 {
        0
    } else {
        match roots.last() {
            RootListing::Failed(e) => error_code(e),
            RootListing::Opened(_) => exit_code_after(roots.drop_last()),
        }
    }
}

/// Walks one root: emits its listing's lines and reports when it opened;
/// reports one bare fatal failure and escalates the exit state when it did
/// not. Either way the caller goes on to the next root.
pub fn run_root(root: &RootListing, out: &mut Vec<String>, errs: &mut Vec<Report>, state: &mut ExitState)
    ensures
        final(out).deep_view() == old(out).deep_view() + root_lines(*root),
        final(errs).deep_view() == old(errs).deep_view() + root_reports(*root),
        final(state).had_error == (old(state).had_error || root is Failed),
        final(state).code == (match *root {
            RootListing::Failed(e) => error_code(e),
            RootListing::Opened(_) => old(state).code as int,
        }),
{
    match root {
        RootListing::Opened(items) => {
            walk_dir(items, out, errs);
        },
        RootListing::Failed(e) => {
            errs.push(Report { kind: ReportKind::Fatal, message: e.message.clone() });
            state.had_error = true;
            state.code = match e.code {
                Some(c) => c,
                None => 1,
            };
            proof {
                assert(errs.deep_view() =~= old(errs).deep_view() + root_reports(*root));
            }
        },
    }
}

/// Walks every requested root in turn — a root that fails to open never
/// blocks the roots after it — and returns all emitted lines, all reports,
/// and the aggregated exit state.
pub fn run_roots(roots: &Vec<RootListing>) -> (r: (Vec<String>, Vec<Report>, ExitState))
    ensures
        r.0.deep_view() == roots_lines(roots@),
        r.1.deep_view() == roots_reports(roots@),
        r.2.had_error == any_root_failed(roots@),
        r.2.code == exit_code_after(roots@),
{
    let mut out: Vec<String> = Vec::new();
    let mut errs: Vec<Report> = Vec::new();
    let mut state = ExitState { had_error: false, code: 0 };
    let mut i: usize = 0;
    while i < roots.len()
        invariant
            i <= roots.len(),
            out.deep_view() == roots_lines(roots@.take(i as int)),
            errs.deep_view() == roots_reports(roots@.take(i as int)),
            state.had_error == any_root_failed(roots@.take(i as int)),
            state.code == exit_code_after(roots@.take(i as int)),
        decreases roots.len() - i,
    {
        let ghost out_pre = out.deep_view();
        let ghost errs_pre = errs.deep_view();
        let ghost state_pre = state;
        run_root(&roots[i], &mut out, &mut errs, &mut state);
        proof {
            let r = roots@[i as int];
            assert(roots@.take(i + 1) =~= roots@.take(i as int).push(r));
            lemma_roots_lines_push(roots@.take(i as int), r);
            lemma_roots_reports_push(roots@.take(i as int), r);
            assert(out.deep_view() =~= roots_lines(roots@.take(i + 1)));
            assert(errs.deep_view() =~= roots_reports(roots@.take(i + 1)));
            assert(roots@.take(i + 1).drop_last() =~= roots@.take(i as int));
            assert(state.code == exit_code_after(roots@.take(i + 1)));
            if state.had_error {
                if state_pre.had_error {
                    let j = choose|j: int|
                        0 <= j < i && roots@.take(i as int)[j] is Failed;
                    assert(roots@.take(i + 1)[j] is Failed);
                } else {
                    assert(roots@.take(i + 1)[i as int] is Failed);
                }
            }
            assert(state.had_error == any_root_failed(roots@.take(i + 1)));
        }
        i = i + 1;
    }
    proof {
        assert(roots@.take(roots@.len() as int) =~= roots@);
    }
    (out, errs, state)
}

/// Appending one root to a run appends exactly that root's lines.
pub proof fn lemma_roots_lines_push(s: Seq<RootListing>, x: RootListing)
    ensures
        roots_lines(s.push(x)) == roots_lines(s) + root_lines(x),
    decreases s.len(),
{
    if s.len() == 0 {
        assert(s.push(x)[0] == x);
        assert(s.push(x).drop_first() =~= Seq::<RootListing>::empty());
        assert(roots_lines(s.push(x).drop_first()) == Seq::<Seq<char>>::empty());
        assert(roots_lines(s.push(x)) =~= root_lines(x));
        assert(roots_lines(s) + root_lines(x) =~= root_lines(x));
    } else {
        assert(s.push(x).drop_first() =~= s.drop_first().push(x));
        lemma_roots_lines_push(s.drop_first(), x);
        assert(roots_lines(s.push(x)) =~= roots_lines(s) + root_lines(x));
    }
}

/// Appending one root to a run appends exactly that root's reports.
pub proof fn lemma_roots_reports_push(s: Seq<RootListing>, x: RootListing)
    ensures
        roots_reports(s.push(x)) == roots_reports(s) + root_reports(x),
    decreases s.len(),
{
    if s.len() == 0 {
        assert(s.push(x)[0] == x);
        assert(s.push(x).drop_first() =~= Seq::<RootListing>::empty());
        assert(roots_reports(s.push(x).drop_first()) == Seq::<ReportV>::empty());
        assert(roots_reports(s.push(x)) =~= root_reports(x));
        assert(roots_reports(s) + root_reports(x) =~= root_reports(x));
    } else {
        assert(s.push(x).drop_first() =~= s.drop_first().push(x));
        lemma_roots_reports_push(s.drop_first(), x);
        assert(roots_reports(s.push(x)) =~= roots_reports(s) + root_reports(x));
    }
}

} // verus!
