use toggle::engine::{toggle_line_range, toggle_section, SectionReport};
use toggle::error::ToggleError;
use toggle::section::Section;
use toggle::style::CommentStyle;
use toggle::transform::ForceState;

fn lines(text: &[&str]) -> Vec<String> {
    text.iter().map(|line| line.to_string()).collect()
}

fn style(prefix: &str) -> CommentStyle {
    CommentStyle { single_line: prefix.to_string() }
}

#[test]
fn toggle_a_written_range() {
    let mut file = lines(&["a", "b", "c", "d"]);
    assert_eq!(toggle_line_range(&mut file, "2:3", &style("#"), ForceState::Toggle), Ok(true));
    assert_eq!(file, ["a", "#b", "#c", "d"]);
    assert_eq!(toggle_line_range(&mut file, "2:+1", &style("#"), ForceState::Toggle), Ok(true));
    assert_eq!(file, ["a", "b", "#c", "d"]);
    assert_eq!(toggle_line_range(&mut file, "3", &style("#"), ForceState::Comment), Ok(false));
    assert_eq!(file, ["a", "b", "#c", "d"]);
    assert_eq!(toggle_line_range(&mut file, "3:100", &style("#"), ForceState::Uncomment), Ok(true));
    assert_eq!(file, ["a", "b", "c", "d"]);
    assert_eq!(toggle_line_range(&mut file, "4", &style("#"), ForceState::Toggle), Ok(true));
    assert_eq!(file, ["a", "b", "c", "#d"]);
}

#[test]
fn a_range_that_is_turned_down_changes_nothing() {
    let text = ["a", "b", "c", "d"];
    let mut file = lines(&text);
    assert_eq!(
        toggle_line_range(&mut file, "abc:10", &style("#"), ForceState::Toggle),
        Err(ToggleError::InvalidRangeSyntax)
    );
    assert_eq!(
        toggle_line_range(&mut file, "0:2", &style("#"), ForceState::Toggle),
        Err(ToggleError::StartOutOfBounds(0, 4))
    );
    assert_eq!(
        toggle_line_range(&mut file, "5", &style("#"), ForceState::Toggle),
        Err(ToggleError::StartOutOfBounds(5, 4))
    );
    assert_eq!(file, text);
    let mut none: Vec<String> = Vec::new();
    assert_eq!(
        toggle_line_range(&mut none, "1", &style("#"), ForceState::Toggle),
        Err(ToggleError::StartOutOfBounds(1, 0))
    );
}

#[test]
fn a_range_that_ends_before_it_starts_names_no_line() {
    let mut file = lines(&["a", "b", "c", "d"]);
    assert_eq!(toggle_line_range(&mut file, "3:1", &style("#"), ForceState::Uncomment), Ok(false));
    assert_eq!(file, ["a", "b", "c", "d"]);
}

#[test]
fn toggle_a_section() {
    let mut file = lines(&["a", "# toggle:start ID=x", "b", "c", "# toggle:end ID=x", "d"]);
    let report = toggle_section(&mut file, "x", &style("#"), ForceState::Toggle).unwrap();
    assert_eq!(file, ["a", "# toggle:start ID=x", "#b", "#c", "# toggle:end ID=x", "d"]);
    assert_eq!(
        report,
        SectionReport {
            id: "x".to_string(),
            sections: vec![Section {
                id: "x".to_string(),
                content_start: 2,
                content_end: 4,
                closed: true
            }],
            empty_openings: vec![],
            modified: true,
        }
    );
    let report = toggle_section(&mut file, "x", &style("#"), ForceState::Comment).unwrap();
    assert_eq!(file, ["a", "# toggle:start ID=x", "#b", "#c", "# toggle:end ID=x", "d"]);
    assert!(!report.modified);
    assert_eq!(report.sections.len(), 1);
    let report = toggle_section(&mut file, "x", &style("#"), ForceState::Toggle).unwrap();
    assert_eq!(file, ["a", "# toggle:start ID=x", "b", "c", "# toggle:end ID=x", "d"]);
    assert!(report.modified);
}

#[test]
fn a_section_that_is_not_there() {
    let text = ["a", "# toggle:start ID=x", "# toggle:end ID=x", "b", "# toggle:start ID=x"];
    let mut file = lines(&text);
    let report = toggle_section(&mut file, "x", &style("#"), ForceState::Toggle).unwrap();
    assert_eq!(
        report,
        SectionReport {
            id: "x".to_string(),
            sections: vec![],
            empty_openings: vec![1, 4],
            modified: false,
        }
    );
    assert_eq!(report.warning(), Some(ToggleError::SectionNotFound("x".to_string())));
    let report = toggle_section(&mut file, "y", &style("#"), ForceState::Comment).unwrap();
    assert_eq!(
        report,
        SectionReport {
            id: "y".to_string(),
            sections: vec![],
            empty_openings: vec![],
            modified: false,
        }
    );
    assert_eq!(report.warning(), Some(ToggleError::SectionNotFound("y".to_string())));
    assert_eq!(file, text);
}

#[test]
fn an_end_marker_alone_is_no_section_and_no_error() {
    let text = ["a", "toggle:end ID=x", "b"];
    for force in [ForceState::Comment, ForceState::Uncomment, ForceState::Toggle] {
        let mut file = lines(&text);
        let result = toggle_section(&mut file, "x", &style("#"), force);
        let report = result.unwrap();
        assert_eq!(report.sections, vec![]);
        assert_eq!(report.empty_openings, Vec::<usize>::new());
        assert!(!report.modified);
        assert_eq!(report.warning(), Some(ToggleError::SectionNotFound("x".to_string())));
        assert_eq!(file, text);
    }
}

#[test]
fn a_section_without_content_is_skipped_with_a_warning() {
    let text = ["toggle:start ID=x", "toggle:end ID=x", "a"];
    for force in [ForceState::Comment, ForceState::Uncomment, ForceState::Toggle] {
        let mut file = lines(&text);
        let report = toggle_section(&mut file, "x", &style("#"), force).unwrap();
        assert_eq!(report.sections, vec![]);
        assert_eq!(report.empty_openings, vec![0]);
        assert!(!report.modified);
        assert_eq!(report.warning(), Some(ToggleError::SectionNotFound("x".to_string())));
        assert_eq!(file, text);
    }
}

#[test]
fn a_report_with_a_section_calls_for_no_warning() {
    let mut file = lines(&["toggle:start ID=x", "a"]);
    let report = toggle_section(&mut file, "x", &style("#"), ForceState::Toggle).unwrap();
    assert_eq!(report.id, "x");
    assert_eq!(report.warning(), None);
    assert_eq!(file, ["toggle:start ID=x", "#a"]);
}

#[test]
fn sections_are_toggled_one_by_one() {
    let mut file = lines(&[
        "// toggle:start ID=x",
        "// a",
        "// toggle:end ID=x",
        "b",
        "// toggle:start ID=x",
        "c",
        "// toggle:end ID=x",
        "// toggle:start ID=y",
        "d",
    ]);
    let report = toggle_section(&mut file, "x", &style("//"), ForceState::Toggle).unwrap();
    assert_eq!(
        file,
        [
            "// toggle:start ID=x",
            "a",
            "// toggle:end ID=x",
            "b",
            "// toggle:start ID=x",
            "//c",
            "// toggle:end ID=x",
            "// toggle:start ID=y",
            "d",
        ]
    );
    assert!(report.modified);
    assert_eq!(report.sections.len(), 2);
    let report = toggle_section(&mut file, "x", &style("//"), ForceState::Uncomment).unwrap();
    assert!(report.modified);
    assert_eq!(file[5], "c");
    let report = toggle_section(&mut file, "x", &style("//"), ForceState::Uncomment).unwrap();
    assert!(!report.modified);
    let report = toggle_section(&mut file, "y", &style("//"), ForceState::Toggle).unwrap();
    assert_eq!(file[8], "//d");
    assert!(!report.sections[0].closed);
    assert_eq!(report.sections[0].content_end, 9);
}

#[test]
fn sections_without_content_are_reported() {
    let mut file = lines(&[
        "# toggle:start ID=x",
        "# toggle:end ID=x",
        "# toggle:start ID=x",
        "a",
        "# toggle:end ID=x",
        "# toggle:start ID=x",
    ]);
    let report = toggle_section(&mut file, "x", &style("#"), ForceState::Toggle).unwrap();
    assert_eq!(report.sections.len(), 1);
    assert_eq!(report.sections[0].content_start, 3);
    assert_eq!(report.empty_openings, vec![0, 5]);
    assert!(report.modified);
    assert_eq!(file[3], "#a");
}
