use treewalk::report::{render_reports, Report, ReportKind};

#[test]
fn recoverable_line_is_context_colon_message() {
    let kind = ReportKind::Recoverable(String::from("some/path"));
    assert_eq!(kind.report("permission denied"), String::from("some/path: permission denied\n"));
}

#[test]
fn fatal_line_is_the_bare_message() {
    let kind = ReportKind::Fatal;
    assert_eq!(kind.report("device error"), String::from("device error\n"));
}

#[test]
fn recoverable_line_with_empty_context() {
    let kind = ReportKind::Recoverable(String::new());
    assert_eq!(kind.report("oops"), String::from(": oops\n"));
}

#[test]
fn report_line_renders_its_kind_and_message() {
    let report = Report {
        kind: ReportKind::Recoverable(String::from("dir")),
        message: String::from("permission denied"),
    };
    assert_eq!(report.line(), String::from("dir: permission denied\n"));
}

#[test]
fn rendering_a_batch_keeps_order() {
    let reports = vec![
        Report { kind: ReportKind::Fatal, message: String::from("one") },
        Report { kind: ReportKind::Recoverable(String::from("p")), message: String::from("two") },
    ];
    let lines = render_reports(&reports);
    assert_eq!(lines, vec![String::from("one\n"), String::from("p: two\n")]);
}
