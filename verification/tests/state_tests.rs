use toggle::state::{check_if_commented, classify_line, LineState};
use toggle::style::CommentStyle;

fn lines(text: &[&str]) -> Vec<String> {
    text.iter().map(|line| line.to_string()).collect()
}

fn style(prefix: &str) -> CommentStyle {
    CommentStyle { single_line: prefix.to_string() }
}

fn commented(text: &[&str], prefix: &str) -> bool {
    check_if_commented(&lines(text), &style(prefix))
}

#[test]
fn first_line_decides() {
    assert!(commented(&["# a"], "#"));
    assert!(commented(&["# a", "b"], "#"));
    assert!(!commented(&["a"], "#"));
    assert!(!commented(&["a", "# b"], "#"));
}

#[test]
fn no_lines_are_not_commented() {
    assert!(!commented(&[], "#"));
}

#[test]
fn blank_lines_are_passed_over() {
    assert!(commented(&["", "   ", "\t", "# a", "b"], "#"));
    assert!(!commented(&["", "   ", "\t", "a", "# b"], "#"));
    assert!(commented(&["\u{3000}\u{a0}", "// a"], "//"));
}

#[test]
fn blank_lines_alone_are_not_commented() {
    assert!(!commented(&["", "  ", "\t\t"], "#"));
}

#[test]
fn marker_lines_are_passed_over() {
    assert!(!commented(&["# toggle:start ID=x", "a"], "#"));
    assert!(commented(&["a toggle:end", "# a"], "#"));
    assert!(!commented(&["// toggle:start ID=x", "// toggle:end ID=x"], "//"));
    assert!(!commented(&["#toggle:start"], "#"));
}

#[test]
fn the_line_is_trimmed_before_it_is_judged() {
    assert!(commented(&["    # a"], "#"));
    assert!(commented(&["\t//a"], "//"));
    assert!(commented(&["  #  "], "#"));
    assert!(!commented(&["  a # b"], "#"));
}

#[test]
fn the_whole_prefix_is_needed() {
    assert!(!commented(&["/ / a"], "//"));
    assert!(!commented(&["/"], "//"));
    assert!(commented(&["//"], "//"));
    assert!(commented(&["///"], "//"));
}

#[test]
fn classify_each_kind_of_line() {
    assert_eq!(classify_line("", "#"), LineState::Skipped);
    assert_eq!(classify_line(" \t ", "#"), LineState::Skipped);
    assert_eq!(classify_line("x toggle:start ID=a", "#"), LineState::Skipped);
    assert_eq!(classify_line("# toggle:end", "#"), LineState::Skipped);
    assert_eq!(classify_line("# a", "#"), LineState::Commented);
    assert_eq!(classify_line("  #a  ", "#"), LineState::Commented);
    assert_eq!(classify_line("a", "#"), LineState::Uncommented);
    assert_eq!(classify_line("a #", "#"), LineState::Uncommented);
    assert_eq!(classify_line("toggle:star", "#"), LineState::Uncommented);
}
