use treewalk::driver::{run_root, run_roots, ExitState};
use treewalk::fs_model::{DirItem, OsError, PathText, RootListing};
use treewalk::report::ReportKind;
use treewalk::walk::walk_dir;

fn text(s: &str) -> PathText {
    PathText::Text(String::from(s))
}

fn denied(msg: &str) -> OsError {
    OsError { denied: true, code: Some(13), message: String::from(msg) }
}

fn other_error(msg: &str, code: Option<i32>) -> OsError {
    OsError { denied: false, code, message: String::from(msg) }
}

#[test]
fn empty_directory_emits_nothing() {
    let items: Vec<DirItem> = Vec::new();
    let mut out: Vec<String> = Vec::new();
    let mut errs = Vec::new();
    walk_dir(&items, &mut out, &mut errs);
    assert!(out.is_empty());
    assert!(errs.is_empty());
}

#[test]
fn files_and_symlinks_emit_one_line_each() {
    let items = vec![
        DirItem::File(text("a")),
        DirItem::Symlink(text("b")),
        DirItem::File(text("c")),
    ];
    let mut out: Vec<String> = Vec::new();
    let mut errs = Vec::new();
    walk_dir(&items, &mut out, &mut errs);
    assert_eq!(out, vec![String::from("a"), String::from("b"), String::from("c")]);
    assert!(errs.is_empty());
}

#[test]
fn subdirectory_lines_appear_in_listing_order() {
    let items = vec![
        DirItem::File(text("a")),
        DirItem::Dir(text("sub"), vec![
            DirItem::File(text("sub/x")),
            DirItem::Dir(text("sub/deep"), vec![DirItem::Symlink(text("sub/deep/y"))]),
        ]),
        DirItem::File(text("z")),
    ];
    let mut out: Vec<String> = Vec::new();
    let mut errs = Vec::new();
    walk_dir(&items, &mut out, &mut errs);
    assert_eq!(
        out,
        vec![
            String::from("a"),
            String::from("sub/x"),
            String::from("sub/deep/y"),
            String::from("z"),
        ]
    );
    assert!(errs.is_empty());
}

#[test]
fn denied_directory_reported_once_siblings_survive() {
    let items = vec![
        DirItem::File(text("a")),
        DirItem::DirError(text("locked"), denied("permission denied")),
        DirItem::File(text("b")),
    ];
    let mut out: Vec<String> = Vec::new();
    let mut errs = Vec::new();
    walk_dir(&items, &mut out, &mut errs);
    assert_eq!(out, vec![String::from("a"), String::from("b")]);
    assert_eq!(errs.len(), 1);
    assert!(matches!(errs[0].kind, ReportKind::Recoverable(_)));
    assert_eq!(errs[0].line(), String::from("locked: permission denied\n"));
}

#[test]
fn unopenable_directory_with_other_error_is_fatal_bare() {
    let items = vec![
        DirItem::DirError(text("bad"), other_error("device error", Some(5))),
        DirItem::File(text("b")),
    ];
    let mut out: Vec<String> = Vec::new();
    let mut errs = Vec::new();
    walk_dir(&items, &mut out, &mut errs);
    assert_eq!(out, vec![String::from("b")]);
    assert_eq!(errs.len(), 1);
    assert!(matches!(errs[0].kind, ReportKind::Fatal));
    assert_eq!(errs[0].line(), String::from("device error\n"));
}

#[test]
fn listing_error_gets_generic_context_when_denied() {
    let items = vec![
        DirItem::ListError(denied("permission denied")),
        DirItem::File(text("a")),
    ];
    let mut out: Vec<String> = Vec::new();
    let mut errs = Vec::new();
    walk_dir(&items, &mut out, &mut errs);
    assert_eq!(out, vec![String::from("a")]);
    assert_eq!(errs.len(), 1);
    assert_eq!(
        errs[0].line(),
        String::from("Failed to read directories: permission denied\n")
    );
}

#[test]
fn listing_error_is_fatal_bare_otherwise() {
    let items = vec![DirItem::ListError(other_error("input error", None))];
    let mut out: Vec<String> = Vec::new();
    let mut errs = Vec::new();
    walk_dir(&items, &mut out, &mut errs);
    assert!(out.is_empty());
    assert_eq!(errs.len(), 1);
    assert!(matches!(errs[0].kind, ReportKind::Fatal));
    assert_eq!(errs[0].line(), String::from("input error\n"));
}

#[test]
fn metadata_error_reports_the_entry_path_when_denied() {
    let items = vec![
        DirItem::MetaError(text("secret"), denied("permission denied")),
        DirItem::File(text("a")),
    ];
    let mut out: Vec<String> = Vec::new();
    let mut errs = Vec::new();
    walk_dir(&items, &mut out, &mut errs);
    assert_eq!(out, vec![String::from("a")]);
    assert_eq!(errs.len(), 1);
    assert_eq!(errs[0].line(), String::from("secret: permission denied\n"));
}

#[test]
fn metadata_error_is_fatal_bare_otherwise() {
    let items = vec![DirItem::MetaError(text("entry"), other_error("stale handle", Some(116)))];
    let mut out: Vec<String> = Vec::new();
    let mut errs = Vec::new();
    walk_dir(&items, &mut out, &mut errs);
    assert!(out.is_empty());
    assert_eq!(errs.len(), 1);
    assert!(matches!(errs[0].kind, ReportKind::Fatal));
    assert_eq!(errs[0].line(), String::from("stale handle\n"));
}

#[test]
fn vanished_entry_is_silently_skipped() {
    let items = vec![DirItem::Vanished, DirItem::File(text("a")), DirItem::Vanished];
    let mut out: Vec<String> = Vec::new();
    let mut errs = Vec::new();
    walk_dir(&items, &mut out, &mut errs);
    assert_eq!(out, vec![String::from("a")]);
    assert!(errs.is_empty());
}

#[test]
fn non_text_path_skipped_with_one_fatal_report() {
    let items = vec![
        DirItem::File(PathText::NotText),
        DirItem::File(text("b")),
    ];
    let mut out: Vec<String> = Vec::new();
    let mut errs = Vec::new();
    walk_dir(&items, &mut out, &mut errs);
    assert_eq!(out, vec![String::from("b")]);
    assert_eq!(errs.len(), 1);
    assert!(matches!(errs[0].kind, ReportKind::Fatal));
    assert_eq!(errs[0].line(), String::from("path did not contain valid text\n"));
}

#[test]
fn non_text_directory_is_not_recursed_into() {
    let items = vec![
        DirItem::Dir(PathText::NotText, vec![DirItem::File(text("hidden"))]),
        DirItem::File(text("b")),
    ];
    let mut out: Vec<String> = Vec::new();
    let mut errs = Vec::new();
    walk_dir(&items, &mut out, &mut errs);
    assert_eq!(out, vec![String::from("b")]);
    assert_eq!(errs.len(), 1);
    assert_eq!(errs[0].line(), String::from("path did not contain valid text\n"));
}

#[test]
fn walking_twice_emits_identical_lines() {
    let items = vec![
        DirItem::File(text("a")),
        DirItem::Dir(text("sub"), vec![DirItem::File(text("sub/x"))]),
        DirItem::DirError(text("locked"), denied("permission denied")),
    ];
    let mut out1: Vec<String> = Vec::new();
    let mut errs1 = Vec::new();
    walk_dir(&items, &mut out1, &mut errs1);
    let mut out2: Vec<String> = Vec::new();
    let mut errs2 = Vec::new();
    walk_dir(&items, &mut out2, &mut errs2);
    assert_eq!(out1, out2);
    assert_eq!(errs1.len(), errs2.len());
}

#[test]
fn walk_appends_after_existing_lines() {
    let items = vec![DirItem::File(text("new"))];
    let mut out = vec![String::from("old")];
    let mut errs = Vec::new();
    walk_dir(&items, &mut out, &mut errs);
    assert_eq!(out, vec![String::from("old"), String::from("new")]);
}

#[test]
fn failed_root_yields_no_lines_one_fatal_report() {
    let roots = vec![RootListing::Failed(other_error("no such directory", Some(2)))];
    let (out, errs, state) = run_roots(&roots);
    assert!(out.is_empty());
    assert_eq!(errs.len(), 1);
    assert!(matches!(errs[0].kind, ReportKind::Fatal));
    assert_eq!(errs[0].line(), String::from("no such directory\n"));
    assert!(state.had_error);
    assert_eq!(state.code, 2);
}

#[test]
fn failed_root_does_not_block_later_roots() {
    let roots = vec![
        RootListing::Failed(other_error("no such directory", Some(2))),
        RootListing::Opened(vec![DirItem::File(text("second/a"))]),
    ];
    let (out, errs, state) = run_roots(&roots);
    assert_eq!(out, vec![String::from("second/a")]);
    assert_eq!(errs.len(), 1);
    assert!(state.had_error);
    assert_eq!(state.code, 2);
}

#[test]
fn exit_code_is_the_most_recent_failure() {
    let roots = vec![
        RootListing::Failed(other_error("first failure", Some(2))),
        RootListing::Opened(Vec::new()),
        RootListing::Failed(other_error("second failure", Some(13))),
        RootListing::Opened(Vec::new()),
    ];
    let (out, errs, state) = run_roots(&roots);
    assert!(out.is_empty());
    assert_eq!(errs.len(), 2);
    assert!(state.had_error);
    assert_eq!(state.code, 13);
}

#[test]
fn exit_code_falls_back_to_one_without_an_os_code() {
    let roots = vec![RootListing::Failed(other_error("broken", None))];
    let (_, _, state) = run_roots(&roots);
    assert!(state.had_error);
    assert_eq!(state.code, 1);
}

#[test]
fn subtree_failures_never_escalate_the_exit_state() {
    let roots = vec![RootListing::Opened(vec![
        DirItem::DirError(text("locked"), denied("permission denied")),
        DirItem::ListError(other_error("device error", Some(5))),
        DirItem::File(PathText::NotText),
    ])];
    let (out, errs, state) = run_roots(&roots);
    assert!(out.is_empty());
    assert_eq!(errs.len(), 3);
    assert!(!state.had_error);
    assert_eq!(state.code, 0);
}

#[test]
fn run_root_updates_state_in_place() {
    let mut out: Vec<String> = Vec::new();
    let mut errs = Vec::new();
    let mut state = ExitState { had_error: false, code: 0 };
    run_root(
        &RootListing::Opened(vec![DirItem::File(text("a"))]),
        &mut out,
        &mut errs,
        &mut state,
    );
    assert_eq!(out, vec![String::from("a")]);
    assert!(!state.had_error);
    run_root(
        &RootListing::Failed(other_error("gone", Some(2))),
        &mut out,
        &mut errs,
        &mut state,
    );
    assert_eq!(out, vec![String::from("a")]);
    assert_eq!(errs.len(), 1);
    assert!(state.had_error);
    assert_eq!(state.code, 2);
}

#[test]
fn scenario_mixed_root() {
    let items = vec![
        DirItem::File(text("/tmp/t/a.txt")),
        DirItem::Symlink(text("/tmp/t/b")),
        DirItem::Dir(text("/tmp/t/sub"), vec![DirItem::File(text("/tmp/t/sub/c.txt"))]),
        DirItem::DirError(text("/tmp/t/locked"), denied("permission denied")),
    ];
    let roots = vec![RootListing::Opened(items)];
    let (out, errs, state) = run_roots(&roots);
    assert_eq!(
        out,
        vec![
            String::from("/tmp/t/a.txt"),
            String::from("/tmp/t/b"),
            String::from("/tmp/t/sub/c.txt"),
        ]
    );
    assert_eq!(errs.len(), 1);
    assert!(matches!(errs[0].kind, ReportKind::Recoverable(_)));
    assert_eq!(errs[0].line(), String::from("/tmp/t/locked: permission denied\n"));
    assert!(!state.had_error);
    assert_eq!(state.code, 0);
}
