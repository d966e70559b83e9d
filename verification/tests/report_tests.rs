use bashcheck::{Checker, Language, Report, Severity};

#[test]
fn empty_report_renders_no_issues_notice() {
    let report = Report::new();
    assert_eq!(report.render(false, &Language::English), "✓ No issues found\n");
    assert_eq!(
        report.render(false, &Language::Japanese),
        "✓ 問題は見つかりませんでした\n"
    );
}

#[test]
fn new_report_has_no_errors() {
    let report = Report::new();
    assert!(!report.has_errors());
    assert!(report.issues().is_empty());
}

#[test]
fn add_issue_appends_in_order() {
    let mut report = Report::new();
    report.add_issue(3, Severity::Info, "Style", "first");
    report.add_issue(1, Severity::Error, "Syntax", "second");
    report.add_issue(2, Severity::Warning, "Security", "third");
    let issues = report.issues();
    assert_eq!(issues.len(), 3);
    assert_eq!(issues[0].message, "first");
    assert_eq!(issues[1].message, "second");
    assert_eq!(issues[2].message, "third");
    assert_eq!(issues[0].line, 3);
    assert_eq!(issues[1].severity, Severity::Error);
    assert_eq!(issues[2].category, "Security");
}

#[test]
fn has_errors_true_only_with_error_severity() {
    let mut report = Report::new();
    report.add_issue(1, Severity::Info, "Style", "note");
    report.add_issue(2, Severity::Warning, "Security", "careful");
    assert!(!report.has_errors());
    report.add_issue(3, Severity::Error, "Syntax", "broken");
    assert!(report.has_errors());
}

#[test]
fn render_lists_issues_and_summary() {
    let report = Checker::new("]\n", Language::English).check();
    let text = report.render(false, &Language::English);
    let expected = "L1: [ERROR] Syntax - Missing shebang line (#!/bin/bash or #!/bin/sh)\n\
        L1: [ERROR] Syntax - Unmatched closing bracket ']'\n\
        L1: [WARNING] Best Practice - Consider using 'set -e' to exit on errors\n\
        L1: [WARNING] Best Practice - Consider using 'set -u' to treat unset variables as errors\n\
        L1: [WARNING] Best Practice - Consider using 'set -o pipefail' to catch errors in pipelines\n\
        \n\
        Summary: 2 error(s), 3 warning(s)\n";
    assert_eq!(text, expected);
}

#[test]
fn render_errors_only_filters_but_keeps_summary() {
    let report = Checker::new("]\n", Language::English).check();
    let text = report.render(true, &Language::English);
    let expected = "L1: [ERROR] Syntax - Missing shebang line (#!/bin/bash or #!/bin/sh)\n\
        L1: [ERROR] Syntax - Unmatched closing bracket ']'\n\
        \n\
        Summary: 2 error(s), 3 warning(s)\n";
    assert_eq!(text, expected);
}

#[test]
fn info_issues_counted_in_neither_summary_bucket() {
    let mut report = Report::new();
    report.add_issue(1, Severity::Info, "Style", "note");
    let text = report.render(false, &Language::English);
    assert!(text.contains("Summary: 0 error(s), 0 warning(s)"));
    assert!(text.contains("L1: [INFO] Style - note"));
}

#[test]
fn severity_labels_localized() {
    assert_eq!(Severity::Error.as_str(&Language::English), "ERROR");
    assert_eq!(Severity::Warning.as_str(&Language::English), "WARNING");
    assert_eq!(Severity::Info.as_str(&Language::English), "INFO");
    assert_eq!(Severity::Error.as_str(&Language::Japanese), "エラー");
    assert_eq!(Severity::Warning.as_str(&Language::Japanese), "警告");
    assert_eq!(Severity::Info.as_str(&Language::Japanese), "情報");
}

#[test]
fn render_large_counts() {
    let mut report = Report::new();
    for k in 0..12 {
        report.add_issue(k + 1, Severity::Error, "Syntax", "bad");
    }
    for k in 0..34 {
        report.add_issue(k + 1, Severity::Warning, "Security", "risky");
    }
    let text = report.render(false, &Language::English);
    assert!(text.ends_with("Summary: 12 error(s), 34 warning(s)\n"));
}
