use bashcheck::{Checker, Language, Report, Severity};

fn run(content: &str) -> Report {
    Checker::new(content, Language::English).check()
}

fn count_message(report: &Report, message: &str) -> usize {
    report.issues().iter().filter(|i| i.message == message).count()
}

fn count_category(report: &Report, category: &str) -> usize {
    report.issues().iter().filter(|i| i.category == category).count()
}

#[test]
fn clean_script_has_no_issues() {
    let report = run("#!/bin/bash\nset -e\nset -u\nset -o pipefail\n");
    assert!(report.issues().is_empty());
    assert!(!report.has_errors());
}

#[test]
fn deterministic_across_runs() {
    let script = "#!/bin/bash\neval $x\ncd /tmp\n`ls`\n";
    let first = run(script);
    let second = run(script);
    assert_eq!(first.issues().len(), second.issues().len());
    for (a, b) in first.issues().iter().zip(second.issues().iter()) {
        assert_eq!(a.line, b.line);
        assert_eq!(a.severity, b.severity);
        assert_eq!(a.category, b.category);
        assert_eq!(a.message, b.message);
    }
    assert_eq!(
        first.render(false, &Language::English),
        second.render(false, &Language::English)
    );
}

#[test]
fn unclosed_bracket_reported_once() {
    let report = run("[\n");
    assert_eq!(count_message(&report, "Unclosed bracket '['"), 1);
    assert_eq!(count_message(&report, "Unmatched closing bracket ']'"), 0);
    let unclosed: Vec<_> = report
        .issues()
        .iter()
        .filter(|i| i.message == "Unclosed bracket '['")
        .collect();
    assert_eq!(unclosed[0].line, 1);
    assert_eq!(unclosed[0].severity, Severity::Error);
    assert_eq!(unclosed[0].category, "Syntax");
}

#[test]
fn unmatched_closing_bracket_reported_once() {
    let report = run("]\n");
    assert_eq!(count_message(&report, "Unmatched closing bracket ']'"), 1);
    assert_eq!(count_message(&report, "Unclosed bracket '['"), 0);
    let unmatched: Vec<_> = report
        .issues()
        .iter()
        .filter(|i| i.message == "Unmatched closing bracket ']'")
        .collect();
    assert_eq!(unmatched[0].line, 1);
    assert_eq!(unmatched[0].severity, Severity::Error);
}

#[test]
fn quoted_variable_not_flagged() {
    let report = run("#!/bin/bash\necho \"$x\"\n");
    assert_eq!(
        count_message(
            &report,
            "Unquoted variable usage - consider using \"$variable\" to prevent word splitting"
        ),
        0
    );
}

#[test]
fn unquoted_variable_flagged_once() {
    let report = run("#!/bin/bash\necho $x\n");
    let msg = "Unquoted variable usage - consider using \"$variable\" to prevent word splitting";
    assert_eq!(count_message(&report, msg), 1);
    let issue: Vec<_> = report.issues().iter().filter(|i| i.message == msg).collect();
    assert_eq!(issue[0].line, 2);
    assert_eq!(issue[0].severity, Severity::Warning);
    assert_eq!(issue[0].category, "Best Practice");
}

#[test]
fn one_unquoted_warning_per_line() {
    let report = run("#!/bin/bash\necho $a $b $c\n");
    let msg = "Unquoted variable usage - consider using \"$variable\" to prevent word splitting";
    assert_eq!(count_message(&report, msg), 1);
}

#[test]
fn braced_variable_not_flagged() {
    let report = run("#!/bin/bash\necho ${x}\n");
    let msg = "Unquoted variable usage - consider using \"$variable\" to prevent word splitting";
    assert_eq!(count_message(&report, msg), 0);
}

#[test]
fn backticks_flagged_once() {
    let report = run("`ls`\n");
    let msg = "Use $(...) instead of backticks for command substitution";
    assert_eq!(count_message(&report, msg), 1);
    let issue: Vec<_> = report.issues().iter().filter(|i| i.message == msg).collect();
    assert_eq!(issue[0].severity, Severity::Info);
    assert_eq!(issue[0].line, 1);
}

#[test]
fn escaped_backticks_not_flagged() {
    let report = run("\\`ls\\`\n");
    let msg = "Use $(...) instead of backticks for command substitution";
    assert_eq!(count_message(&report, msg), 0);
}

#[test]
fn unescaped_backtick_beside_escaped_one_flagged() {
    let report = run("echo \\` and `ls`\n");
    let msg = "Use $(...) instead of backticks for command substitution";
    assert_eq!(count_message(&report, msg), 1);
}

#[test]
fn long_line_message_embeds_lengths() {
    let mut script = "a".repeat(121);
    script.push('\n');
    let report = run(&script);
    let long: Vec<_> = report
        .issues()
        .iter()
        .filter(|i| i.message.contains("Line too long"))
        .collect();
    assert_eq!(long.len(), 1);
    assert!(long[0].message.contains("121"));
    assert!(long[0].message.contains("120"));
    assert_eq!(long[0].severity, Severity::Info);
    assert_eq!(long[0].category, "Style");
    assert_eq!(long[0].message, "Line too long (121 > 120 characters)");
}

#[test]
fn line_of_120_chars_not_flagged() {
    let mut script = "a".repeat(120);
    script.push('\n');
    let report = run(&script);
    assert_eq!(
        report
            .issues()
            .iter()
            .filter(|i| i.message.contains("Line too long"))
            .count(),
        0
    );
}

#[test]
fn has_errors_iff_an_error_issue_exists() {
    let with_error = run("#!/bin/bash\nset -e\nset -u\nset -o pipefail\neval $cmd\n");
    assert!(with_error.has_errors());
    let warnings_only = run("#!/bin/bash\ncd /tmp\necho done\n");
    assert!(warnings_only
        .issues()
        .iter()
        .all(|i| i.severity != Severity::Error));
    assert!(!warnings_only.has_errors());
}

#[test]
fn missing_shebang_is_error() {
    let report = run("echo hi\n");
    let msg = "Missing shebang line (#!/bin/bash or #!/bin/sh)";
    assert_eq!(count_message(&report, msg), 1);
    assert!(report.has_errors());
}

#[test]
fn invalid_shebang_is_warning() {
    let report = run("#!/usr/bin/python\n");
    let msg = "Shebang does not specify bash or sh";
    assert_eq!(count_message(&report, msg), 1);
    let issue: Vec<_> = report.issues().iter().filter(|i| i.message == msg).collect();
    assert_eq!(issue[0].severity, Severity::Warning);
    assert_eq!(count_message(&report, "Missing shebang line (#!/bin/bash or #!/bin/sh)"), 0);
}

#[test]
fn missing_set_options_warned_once_each() {
    let report = run("#!/bin/bash\nset -e\n");
    assert_eq!(count_message(&report, "Consider using 'set -e' to exit on errors"), 0);
    assert_eq!(
        count_message(&report, "Consider using 'set -u' to treat unset variables as errors"),
        1
    );
    assert_eq!(
        count_message(&report, "Consider using 'set -o pipefail' to catch errors in pipelines"),
        1
    );
    for issue in report.issues().iter().filter(|i| i.category == "Best Practice") {
        assert_eq!(issue.line, 1);
        assert_eq!(issue.severity, Severity::Warning);
    }
}

#[test]
fn set_mentions_in_comments_do_not_count() {
    let report = run("#!/bin/bash\n# set -e\n# set -u\n# set -o pipefail\n");
    assert_eq!(count_message(&report, "Consider using 'set -e' to exit on errors"), 1);
}

#[test]
fn empty_script_yields_only_whole_file_warnings() {
    let report = run("");
    assert_eq!(report.issues().len(), 3);
    for issue in report.issues() {
        assert_eq!(issue.line, 1);
        assert_eq!(issue.severity, Severity::Warning);
        assert_eq!(issue.category, "Best Practice");
    }
    assert!(!report.has_errors());
}

#[test]
fn cd_without_check_warned() {
    let report = run("#!/bin/bash\ncd /tmp\necho done\n");
    let msg = "cd command without error checking - consider using 'cd dir || exit 1'";
    assert_eq!(count_message(&report, msg), 1);
}

#[test]
fn cd_chained_on_same_line_not_warned() {
    let report = run("#!/bin/bash\ncd /tmp || exit 1\necho done\n");
    let msg = "cd command without error checking - consider using 'cd dir || exit 1'";
    assert_eq!(count_message(&report, msg), 0);
}

#[test]
fn cd_followed_by_if_not_warned() {
    let report = run("#!/bin/bash\ncd /tmp\nif [ $? -ne 0 ]; then exit 1; fi\n");
    let msg = "cd command without error checking - consider using 'cd dir || exit 1'";
    assert_eq!(count_message(&report, msg), 0);
}

#[test]
fn cd_chained_on_last_line_not_warned() {
    let report = run("#!/bin/bash\ncd /tmp || exit 1\n");
    let msg = "cd command without error checking - consider using 'cd dir || exit 1'";
    assert_eq!(count_message(&report, msg), 0);
}

#[test]
fn cd_on_last_line_without_check_warned() {
    let report = run("#!/bin/bash\ncd /tmp\n");
    let msg = "cd command without error checking - consider using 'cd dir || exit 1'";
    assert_eq!(count_message(&report, msg), 1);
}

#[test]
fn eval_is_error() {
    let report = run("#!/bin/bash\neval \"$cmd\"\n");
    let msg = "Usage of 'eval' is dangerous - avoid dynamic code execution";
    assert_eq!(count_message(&report, msg), 1);
    let issue: Vec<_> = report.issues().iter().filter(|i| i.message == msg).collect();
    assert_eq!(issue[0].severity, Severity::Error);
    assert_eq!(issue[0].category, "Security");
    assert_eq!(issue[0].line, 2);
}

#[test]
fn curl_piped_to_shell_is_error() {
    let report = run("#!/bin/bash\ncurl http://example.com/install | sh\n");
    let msg = "Piping curl/wget directly to shell is dangerous - download and inspect first";
    assert_eq!(count_message(&report, msg), 1);
}

#[test]
fn dangerous_rm_is_error() {
    let report = run("#!/bin/bash\nrm -rf /\n");
    let msg = "Dangerous rm -rf usage with variable or root path - add proper validation";
    assert_eq!(count_message(&report, msg), 1);
    let report2 = run("#!/bin/bash\nrm -rf $dir\n");
    assert_eq!(count_message(&report2, msg), 1);
    let report3 = run("#!/bin/bash\nrm -rf ./build\n");
    assert_eq!(count_message(&report3, msg), 0);
}

#[test]
fn user_input_in_command_is_warning() {
    let report = run("#!/bin/bash\nread x; eval work\n");
    let msg = "User input used in command execution - validate and sanitize input";
    assert_eq!(count_message(&report, msg), 1);
}

#[test]
fn tab_and_odd_indent_both_flagged() {
    let report = run("#!/bin/bash\n\techo hi\n");
    assert_eq!(count_message(&report, "Use spaces instead of tabs for indentation"), 1);
    assert_eq!(count_message(&report, "Inconsistent indentation - use 2 or 4 spaces"), 1);
}

#[test]
fn odd_space_indent_flagged() {
    let report = run("#!/bin/bash\n   echo hi\n");
    assert_eq!(count_message(&report, "Use spaces instead of tabs for indentation"), 0);
    assert_eq!(count_message(&report, "Inconsistent indentation - use 2 or 4 spaces"), 1);
}

#[test]
fn even_space_indent_not_flagged() {
    let report = run("#!/bin/bash\n  echo hi\n    echo deeper\n");
    assert_eq!(count_message(&report, "Inconsistent indentation - use 2 or 4 spaces"), 0);
}

#[test]
fn uppercase_function_name_flagged() {
    let report = run("#!/bin/bash\nfunction BadName() {\necho hi\n}\n");
    let msg = "Function name 'BadName' should use snake_case (lowercase with underscores)";
    assert_eq!(count_message(&report, msg), 1);
}

#[test]
fn simple_definition_with_uppercase_flagged() {
    let report = run("#!/bin/bash\nMyFunc()\n");
    let msg = "Function name 'MyFunc' should use snake_case (lowercase with underscores)";
    assert_eq!(count_message(&report, msg), 1);
}

#[test]
fn snake_case_function_not_flagged() {
    let report = run("#!/bin/bash\nfunction good_name() {\necho hi\n}\nother_fn()\n");
    assert_eq!(
        report
            .issues()
            .iter()
            .filter(|i| i.message.contains("snake_case"))
            .count(),
        0
    );
}

#[test]
fn short_uppercase_variable_flagged() {
    let report = run("#!/bin/bash\nAB=1\n");
    let msg = "Local variable 'AB' should use lowercase with underscores";
    assert_eq!(count_message(&report, msg), 1);
}

#[test]
fn digit_in_uppercase_variable_flagged() {
    let report = run("#!/bin/bash\nVAR9=1\n");
    let msg = "Local variable 'VAR9' should use lowercase with underscores";
    assert_eq!(count_message(&report, msg), 1);
}

#[test]
fn well_formed_uppercase_variable_not_flagged() {
    let report = run("#!/bin/bash\nMY_PATH=/tmp\n");
    assert_eq!(
        report
            .issues()
            .iter()
            .filter(|i| i.message.contains("lowercase with underscores"))
            .count(),
        0
    );
}

#[test]
fn unclosed_single_quote_is_error() {
    let report = run("#!/bin/bash\necho 'abc\n");
    assert_eq!(count_message(&report, "Unclosed single quote"), 1);
    assert_eq!(count_message(&report, "Unclosed double quote"), 0);
}

#[test]
fn unclosed_double_quote_is_error() {
    let report = run("#!/bin/bash\necho \"abc\n");
    assert_eq!(count_message(&report, "Unclosed double quote"), 1);
    assert_eq!(count_message(&report, "Unclosed single quote"), 0);
}

#[test]
fn escaped_quote_not_counted() {
    let report = run("#!/bin/bash\necho \\'\n");
    assert_eq!(count_message(&report, "Unclosed single quote"), 0);
}

#[test]
fn quote_inside_other_quote_ignored() {
    let report = run("#!/bin/bash\necho \"it's fine\"\n");
    assert_eq!(count_message(&report, "Unclosed single quote"), 0);
    assert_eq!(count_message(&report, "Unclosed double quote"), 0);
}

#[test]
fn unclosed_variable_expansion_is_error() {
    let report = run("#!/bin/bash\necho ${var\n");
    assert_eq!(count_message(&report, "Unclosed variable expansion ${...}"), 1);
    let closed = run("#!/bin/bash\necho ${var}\n");
    assert_eq!(count_message(&closed, "Unclosed variable expansion ${...}"), 0);
}

#[test]
fn unclosed_command_substitution_is_error() {
    let report = run("#!/bin/bash\nout=$(ls\n");
    assert_eq!(count_message(&report, "Unclosed command substitution $(...)"), 1);
    let closed = run("#!/bin/bash\nout=$(ls)\n");
    assert_eq!(count_message(&closed, "Unclosed command substitution $(...)"), 0);
}

#[test]
fn dollar_grouping_not_tracked_as_literal() {
    let report = run("#!/bin/bash\necho ${x}\necho $(y)\n");
    assert_eq!(count_message(&report, "Unclosed brace '{'"), 0);
    assert_eq!(count_message(&report, "Unclosed parenthesis '('"), 0);
}

#[test]
fn literal_brace_and_paren_tracked_across_lines() {
    let report = run("#!/bin/bash\nif true; then {\n");
    assert_eq!(count_message(&report, "Unclosed brace '{'"), 1);
    let report2 = run("#!/bin/bash\n(\n");
    assert_eq!(count_message(&report2, "Unclosed parenthesis '('"), 1);
}

#[test]
fn bracket_closed_on_later_line_not_flagged() {
    let report = run("#!/bin/bash\n[\n]\n");
    assert_eq!(count_message(&report, "Unclosed bracket '['"), 0);
    assert_eq!(count_message(&report, "Unmatched closing bracket ']'"), 0);
}

#[test]
fn comment_lines_skipped_by_scanner() {
    let report = run("#!/bin/bash\n# [ { ( ' \"\n");
    assert_eq!(count_category(&report, "Syntax"), 0);
}

#[test]
fn issue_order_follows_group_order() {
    let report = run("]\n");
    let messages: Vec<&str> = report.issues().iter().map(|i| i.message.as_str()).collect();
    assert_eq!(
        messages,
        vec![
            "Missing shebang line (#!/bin/bash or #!/bin/sh)",
            "Unmatched closing bracket ']'",
            "Consider using 'set -e' to exit on errors",
            "Consider using 'set -u' to treat unset variables as errors",
            "Consider using 'set -o pipefail' to catch errors in pipelines",
        ]
    );
}

#[test]
fn japanese_locale_renders_japanese_messages() {
    let checker = Checker::new("eval x\n", Language::Japanese);
    let report = checker.check();
    assert!(report
        .issues()
        .iter()
        .any(|i| i.message == "'eval' の使用は危険です - 動的なコード実行を避けてください"));
    assert!(report.issues().iter().any(|i| i.category == "セキュリティ"));
}
