use splang::diagnostics::{
    Diagnostic, DiagnosticKind, Diagnostics, ElementError, GenerateErrorKind, Level,
};
use splang::loader::FileContents;
use splang::position::Position;
use splang::report::render_reports;

#[test]
fn has_errored_tracks_error_levels_only() {
    let mut diagnostics = Diagnostics::init();
    assert!(!diagnostics.has_errored());
    diagnostics.add_unpositioned(DiagnosticKind::Element(ElementError::UnknownVariable));
    assert!(!diagnostics.has_errored());
    diagnostics.add_unpositioned(DiagnosticKind::Element(ElementError::DoubleDefineVariable));
    assert!(!diagnostics.has_errored());
    diagnostics.add_unpositioned(DiagnosticKind::Element(ElementError::UnexpectedAstKind));
    assert!(diagnostics.has_errored());
    diagnostics.add_unpositioned(DiagnosticKind::Element(ElementError::UnknownVariable));
    assert!(diagnostics.has_errored());
    assert_eq!(diagnostics.len(), 4);
}

#[test]
fn levels_and_descriptions() {
    let unknown = DiagnosticKind::Element(ElementError::UnknownVariable);
    assert_eq!(unknown.level(), Level::Warn);
    assert_eq!(unknown.description(), "Unknown variable");
    let mismatch = DiagnosticKind::Element(ElementError::VariableType {
        expected: "color".to_string(),
        found: "()".to_string(),
    });
    assert_eq!(mismatch.level(), Level::Error);
    assert_eq!(
        mismatch.description(),
        "Variable has type color, but found value of type ()"
    );
    assert_eq!(Level::Warn.name(), "Warning");
    assert_eq!(Level::Error.name(), "Error");
}

#[test]
fn renders_a_caret_snippet() {
    let mut files = FileContents::create_map();
    files
        .insert("test.splang".to_string(), FileContents("abc def\nsecond".to_string()))
        .unwrap();
    let mut diagnostics = Diagnostics::init();
    diagnostics.add(
        Position { file: 0, offset: 4, line: 1, length: 3 },
        DiagnosticKind::Generate(GenerateErrorKind::UnexpectedToken),
    );
    let report = render_reports(&diagnostics, &files);
    assert_eq!(
        report,
        "Error: Unexpected token\n  --> test.splang:1:4\n1   | abc def\n    |     ^^^\n"
    );
}

#[test]
fn renders_unpositioned_diagnostics_without_snippets() {
    let files = FileContents::create_map();
    let mut diagnostics = Diagnostics::init();
    diagnostics.add_unpositioned(DiagnosticKind::Element(ElementError::UnknownVariable));
    let report = render_reports(&diagnostics, &files);
    assert_eq!(report, "Warning: Unknown variable\n");
}

#[test]
fn skips_snippets_for_unknown_files_and_bad_offsets() {
    let mut files = FileContents::create_map();
    files
        .insert("a.splang".to_string(), FileContents("short".to_string()))
        .unwrap();
    let mut diagnostics = Diagnostics::init();
    // file id out of range
    diagnostics.add(
        Position { file: 9, offset: 0, line: 1, length: 1 },
        DiagnosticKind::Generate(GenerateErrorKind::UnexpectedToken),
    );
    // offset past the end of the file
    diagnostics.add(
        Position { file: 0, offset: 99, line: 1, length: 1 },
        DiagnosticKind::Generate(GenerateErrorKind::UnclosedBlock),
    );
    let report = render_reports(&diagnostics, &files);
    assert_eq!(
        report,
        "Error: Unexpected token\nError: Unexpected end of input inside a block\n"
    );
}

#[test]
fn spans_wider_than_the_line_render_only_the_pointer() {
    let mut files = FileContents::create_map();
    files
        .insert("w.splang".to_string(), FileContents("ab\ncd".to_string()))
        .unwrap();
    let mut diagnostics = Diagnostics::init();
    diagnostics.add(
        Position { file: 0, offset: 1, line: 1, length: 4 },
        DiagnosticKind::Generate(GenerateErrorKind::UnexpectedToken),
    );
    let report = render_reports(&diagnostics, &files);
    assert_eq!(report, "Error: Unexpected token\n  --> w.splang:1:1\n");
}
