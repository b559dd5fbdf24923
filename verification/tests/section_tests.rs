use toggle::section::{locate_sections, scan_sections, Section};

fn lines(text: &[&str]) -> Vec<String> {
    text.iter().map(|line| line.to_string()).collect()
}

fn section(id: &str, content_start: usize, content_end: usize, closed: bool) -> Section {
    Section { id: id.to_string(), content_start, content_end, closed }
}

#[test]
fn one_section_between_its_markers() {
    let file = lines(&["a", "toggle:start ID=x", "b", "c", "toggle:end ID=x", "d"]);
    let found = locate_sections(&file, "x");
    assert_eq!(found, vec![section("x", 2, 4, true)]);
    assert_eq!(file[found[0].content_start..found[0].content_end], ["b", "c"]);
}

#[test]
fn no_lines_no_sections() {
    assert_eq!(locate_sections(&[], "x"), vec![]);
}

#[test]
fn no_marker_no_sections() {
    let file = lines(&["a", "b", "toggle:start", "toggle:start ID=", "toggle:end ID=x"]);
    assert_eq!(locate_sections(&file, "x"), vec![]);
}

#[test]
fn other_identifiers_are_passed_over() {
    let file = lines(&["toggle:start ID=y", "a", "toggle:end ID=y"]);
    assert_eq!(locate_sections(&file, "x"), vec![]);
    assert_eq!(locate_sections(&file, "y"), vec![section("y", 1, 2, true)]);
}

#[test]
fn section_without_end_runs_to_the_last_line() {
    let file = lines(&["toggle:start ID=x", "a", "b"]);
    assert_eq!(locate_sections(&file, "x"), vec![section("x", 1, 3, false)]);
}

#[test]
fn end_marker_of_another_section_does_not_close() {
    let file = lines(&["toggle:start ID=x", "a", "toggle:end ID=y", "b"]);
    assert_eq!(locate_sections(&file, "x"), vec![section("x", 1, 4, false)]);
}

#[test]
fn section_without_content_is_left_out() {
    let file = lines(&["toggle:start ID=x", "toggle:end ID=x", "a"]);
    assert_eq!(locate_sections(&file, "x"), vec![]);
}

#[test]
fn start_marker_on_the_last_line_opens_nothing() {
    let file = lines(&["a", "toggle:start ID=x"]);
    assert_eq!(locate_sections(&file, "x"), vec![]);
}

#[test]
fn markers_inside_comments_count() {
    let file = lines(&["// toggle:start ID=dbg", "log();", "  /* toggle:end ID=dbg */"]);
    assert_eq!(locate_sections(&file, "dbg"), vec![section("dbg", 1, 2, true)]);
}

#[test]
fn the_same_identifier_twice() {
    let file = lines(&[
        "# toggle:start ID=x",
        "a",
        "# toggle:end ID=x",
        "b",
        "# toggle:start ID=x",
        "c",
        "d",
        "# toggle:end ID=x",
    ]);
    assert_eq!(
        locate_sections(&file, "x"),
        vec![section("x", 1, 2, true), section("x", 5, 7, true)]
    );
}

#[test]
fn a_start_marker_inside_a_section_opens_nothing() {
    let file = lines(&[
        "toggle:start ID=x",
        "toggle:start ID=x",
        "a",
        "toggle:end ID=x",
        "b",
        "toggle:end ID=x",
    ]);
    assert_eq!(locate_sections(&file, "x"), vec![section("x", 1, 3, true)]);
}

#[test]
fn the_scan_goes_on_after_the_closing_line() {
    let file = lines(&[
        "toggle:start ID=x",
        "a",
        "toggle:end ID=x toggle:start ID=x",
        "b",
        "toggle:end ID=x",
    ]);
    assert_eq!(locate_sections(&file, "x"), vec![section("x", 1, 2, true)]);
}

#[test]
fn after_a_section_without_content_the_scan_goes_on_with_the_next_line() {
    let file = lines(&[
        "toggle:start ID=x",
        "toggle:end ID=x toggle:start ID=x",
        "a",
        "toggle:end ID=x",
    ]);
    assert_eq!(locate_sections(&file, "x"), vec![section("x", 2, 3, true)]);
}

#[test]
fn an_end_marker_before_the_start_closes_nothing() {
    let file = lines(&["toggle:end ID=x", "toggle:start ID=x", "a"]);
    assert_eq!(locate_sections(&file, "x"), vec![section("x", 2, 3, false)]);
}

#[test]
fn an_identifier_matches_where_it_begins_a_longer_one() {
    let file = lines(&["toggle:start ID=xy", "a", "toggle:end ID=xy"]);
    assert_eq!(locate_sections(&file, "x"), vec![section("x", 1, 2, true)]);
    assert_eq!(locate_sections(&file, "y"), vec![]);
}

#[test]
fn a_marker_is_matched_to_the_letter() {
    let file = lines(&["Toggle:start ID=x", "a", "toggle:start  ID=x", "toggle:start id=x"]);
    assert_eq!(locate_sections(&file, "x"), vec![]);
}

#[test]
fn scan_lists_the_sections_without_content() {
    let file = lines(&[
        "toggle:start ID=x",
        "toggle:end ID=x",
        "a",
        "toggle:start ID=x",
        "b",
        "toggle:end ID=x",
        "toggle:start ID=x",
        "toggle:end ID=x toggle:start ID=x",
        "c",
        "toggle:start ID=x",
    ]);
    let scan = scan_sections(&file, "x");
    assert_eq!(scan.sections, vec![section("x", 4, 5, true), section("x", 8, 10, false)]);
    assert_eq!(scan.empty_openings, vec![0, 6]);
    assert_eq!(locate_sections(&file, "x"), scan.sections);
}

#[test]
fn scan_of_a_file_without_markers() {
    let scan = scan_sections(&lines(&["a", "b"]), "x");
    assert_eq!(scan.sections, vec![]);
    assert_eq!(scan.empty_openings, Vec::<usize>::new());
}
