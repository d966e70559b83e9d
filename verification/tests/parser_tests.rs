use bashcheck::parser::{is_shell_shebang, ScriptParser};

fn chars(s: &str) -> Vec<char> {
    s.chars().collect()
}

#[test]
fn lines_numbered_from_one() {
    let parser = ScriptParser::new("first\nsecond\nthird\n");
    let lines = parser.lines();
    assert_eq!(lines.len(), 3);
    assert_eq!(lines[0].number, 1);
    assert_eq!(lines[1].number, 2);
    assert_eq!(lines[2].number, 3);
    assert_eq!(lines[0].content, chars("first"));
    assert_eq!(lines[2].content, chars("third"));
}

#[test]
fn trailing_terminator_adds_no_empty_line() {
    assert_eq!(ScriptParser::new("a\nb").lines().len(), 2);
    assert_eq!(ScriptParser::new("a\nb\n").lines().len(), 2);
}

#[test]
fn empty_input_yields_no_lines() {
    assert_eq!(ScriptParser::new("").lines().len(), 0);
}

#[test]
fn lone_newline_yields_one_empty_line() {
    let parser = ScriptParser::new("\n");
    let lines = parser.lines();
    assert_eq!(lines.len(), 1);
    assert_eq!(lines[0].content, chars(""));
}

#[test]
fn carriage_return_stripped_before_newline() {
    let parser = ScriptParser::new("a\r\nb\r");
    let lines = parser.lines();
    assert_eq!(lines.len(), 2);
    assert_eq!(lines[0].content, chars("a"));
    assert_eq!(lines[1].content, chars("b\r"));
}

#[test]
fn trimmed_strips_surrounding_whitespace() {
    let parser = ScriptParser::new("  spaced out  \n\t\ttabbed\nplain\n   \n");
    let lines = parser.lines();
    assert_eq!(lines[0].trimmed, chars("spaced out"));
    assert_eq!(lines[0].content, chars("  spaced out  "));
    assert_eq!(lines[1].trimmed, chars("tabbed"));
    assert_eq!(lines[2].trimmed, chars("plain"));
    assert_eq!(lines[3].trimmed, chars(""));
}

#[test]
fn shell_shebang_recognized() {
    assert!(is_shell_shebang("#!/bin/bash"));
    assert!(is_shell_shebang("#!/bin/sh"));
    assert!(is_shell_shebang("#!/usr/bin/env bash"));
    assert!(is_shell_shebang("#!/usr/bin/env sh"));
    assert!(!is_shell_shebang("#!/usr/bin/python"));
    assert!(!is_shell_shebang("echo hi"));
    assert!(!is_shell_shebang(""));
}
