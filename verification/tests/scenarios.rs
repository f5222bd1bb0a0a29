use splang::color::AtomColor;
use splang::diagnostics::{Diagnostic, Diagnostics, DiagnosticKind, ElementError, EvalError, Level, ParseError};
use splang::element::{Element, JoinFace};
use splang::loader::{load_set, FileContents};

fn compile_one(source: &str) -> (splang::id::IdMap<Element>, Diagnostics) {
    let mut diagnostics = Diagnostics::init();
    let mut elements = Element::create_map();
    splang::compile::parse_file(source, 0, &mut diagnostics, &mut elements);
    (elements, diagnostics)
}

#[test]
fn minimal_element() {
    let (elements, diagnostics) = compile_one("element Bedrock {\n    color = #686868\n}");
    assert!(diagnostics.is_empty());
    let (id, bedrock) = elements.get_full_by_name("Bedrock").unwrap();
    assert_eq!(id, 2);
    assert_eq!(bedrock.color, AtomColor::from_parts(0x68, 0x68, 0x68, 0xff));
    assert_eq!(bedrock.join_face, JoinFace::SameAlpha);
}

#[test]
fn duplicate_element_keeps_first() {
    let mut files = FileContents::create_map();
    files
        .insert("a.splang".to_string(), FileContents("element Foo { color = #f00 }".to_string()))
        .unwrap();
    files
        .insert("b.splang".to_string(), FileContents("element Foo { color = #0f0 }".to_string()))
        .unwrap();
    let mut diagnostics = Diagnostics::init();
    let elements = load_set(&files, &mut diagnostics).unwrap();
    assert_eq!(diagnostics.len(), 1);
    assert!(!diagnostics.has_errored());
    let entry = diagnostics.get(0);
    assert!(matches!(
        entry.1,
        DiagnosticKind::Element(ElementError::DoubleDefineElement(_))
    ));
    assert_eq!(entry.1.level(), Level::Warn);
    let (id, foo) = elements.get_full_by_name("Foo").unwrap();
    assert_eq!(id, 2);
    assert_eq!(foo.color, AtomColor::from_parts(0xff, 0x00, 0x00, 0xff));
}

#[test]
fn malformed_hex() {
    let (elements, diagnostics) = compile_one("element X { color = #12 }");
    assert!(diagnostics.is_empty());
    let (_, x) = elements.get_full_by_name("X").unwrap();
    assert_eq!(x.color, AtomColor::from_parts(0x12, 0x12, 0x12, 0xff));

    let (elements, diagnostics) = compile_one("element Y { color = #1 }");
    assert!(diagnostics.is_empty());
    let (_, y) = elements.get_full_by_name("Y").unwrap();
    assert_eq!(y.color, AtomColor::from_parts(0x11, 0x11, 0x11, 0xff));

    let (elements, diagnostics) = compile_one("element Z { color = #1234567 }");
    assert_eq!(diagnostics.len(), 1);
    assert!(diagnostics.has_errored());
    let entry = diagnostics.get(0);
    assert!(matches!(entry.1, DiagnosticKind::Eval(EvalError::InvalidHexColorLen)));
    let (_, z) = elements.get_full_by_name("Z").unwrap();
    assert_eq!(z.color, AtomColor::invisible());
}

#[test]
fn unknown_property() {
    let (elements, diagnostics) = compile_one("element X { foo = #fff }");
    assert_eq!(diagnostics.len(), 1);
    assert!(!diagnostics.has_errored());
    let entry = diagnostics.get(0);
    assert!(matches!(entry.1, DiagnosticKind::Element(ElementError::UnknownVariable)));
    assert_eq!(entry.1.level(), Level::Warn);
    let (_, x) = elements.get_full_by_name("X").unwrap();
    assert_eq!(x.color, AtomColor::invisible());
    assert_eq!(x.join_face, JoinFace::SameAlpha);
}

#[test]
fn join_face_property() {
    let (elements, diagnostics) = compile_one("element X { join_face = Never }");
    assert!(diagnostics.is_empty());
    let (_, x) = elements.get_full_by_name("X").unwrap();
    assert_eq!(x.join_face, JoinFace::Never);

    let (elements, diagnostics) = compile_one("element Y { join_face = Sometimes }");
    assert_eq!(diagnostics.len(), 1);
    assert!(diagnostics.has_errored());
    let entry = diagnostics.get(0);
    assert!(matches!(
        entry.1,
        DiagnosticKind::Element(ElementError::VariableType { .. })
    ));
    let (_, y) = elements.get_full_by_name("Y").unwrap();
    assert_eq!(y.join_face, JoinFace::SameAlpha);
}

#[test]
fn double_defined_property_warns_and_overwrites() {
    let (elements, diagnostics) = compile_one("element X { color = #111 color = #222 }");
    assert_eq!(diagnostics.len(), 1);
    assert!(!diagnostics.has_errored());
    let entry = diagnostics.get(0);
    assert!(matches!(
        entry.1,
        DiagnosticKind::Element(ElementError::DoubleDefineVariable)
    ));
    let (_, x) = elements.get_full_by_name("X").unwrap();
    assert_eq!(x.color, AtomColor::from_parts(0x22, 0x22, 0x22, 0xff));
}

#[test]
fn non_const_value_is_an_error() {
    let (_, diagnostics) = compile_one("element X { color = { #111 #222 } }");
    assert_eq!(diagnostics.len(), 1);
    assert!(diagnostics.has_errored());
    let entry = diagnostics.get(0);
    assert!(matches!(entry.1, DiagnosticKind::Eval(EvalError::NotConst)));
}

#[test]
fn type_mismatch_on_color() {
    let (_, diagnostics) = compile_one("element X { color = Red }");
    assert_eq!(diagnostics.len(), 1);
    assert!(diagnostics.has_errored());
    let entry = diagnostics.get(0);
    match &entry.1 {
        DiagnosticKind::Element(ElementError::VariableType { expected, found }) => {
            assert_eq!(expected, "color");
            assert_eq!(found, "{ Red }");
        }
        other => panic!("unexpected diagnostic {:?}", other),
    }
}

#[test]
fn top_level_non_element_statements_are_errors() {
    let (_, diagnostics) = compile_one("{} Name color = #fff #fff");
    assert_eq!(diagnostics.len(), 4);
    assert!(diagnostics.has_errored());
    assert!(matches!(diagnostics.get(0).1, DiagnosticKind::Parse(ParseError::UnexpectedBlock)));
    assert!(matches!(diagnostics.get(1).1, DiagnosticKind::Parse(ParseError::UnexpectedIdent)));
    assert!(matches!(diagnostics.get(2).1, DiagnosticKind::Parse(ParseError::UnexpectedIdent)));
    assert!(matches!(diagnostics.get(3).1, DiagnosticKind::Parse(ParseError::UnexpectedValue)));
}

#[test]
fn errored_set_is_not_compiled() {
    let mut files = FileContents::create_map();
    files
        .insert("a.splang".to_string(), FileContents("element Foo {}".to_string()))
        .unwrap();
    let mut diagnostics = Diagnostics::init();
    diagnostics.add_unpositioned(DiagnosticKind::ReadFiles(
        splang::diagnostics::ReadFilesError::ReadDirectory("denied".to_string()),
    ));
    assert!(diagnostics.has_errored());
    assert!(load_set(&files, &mut diagnostics).is_none());
}
