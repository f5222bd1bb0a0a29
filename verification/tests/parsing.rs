use splang::ast::Ast;
use splang::diagnostics::Diagnostics;
use splang::position::{Position, Positioned};

fn pos<T>(object: T) -> Positioned<T> {
    Positioned { object, position: Position { file: 0, offset: 0, line: 0, length: 1 } }
}

fn ident(name: &str) -> Ast {
    Ast::Ident(pos(name.to_string()))
}

fn hex(digits: &str) -> Ast {
    Ast::HexColor(pos(digits.to_string()))
}

fn block(children: Vec<Ast>) -> Ast {
    Ast::Block(pos(children))
}

fn assign(name: &str, value: Ast) -> Ast {
    Ast::VariableAssign {
        variable: pos(name.to_string()),
        value: Box::new(value),
    }
}

fn element_node(name: &str, body: Vec<Ast>) -> Ast {
    Ast::Element {
        name: pos(name.to_string()),
        body: pos(body),
    }
}

fn parsing_test(input: &str, output: &[Ast]) {
    let mut diagnostics = Diagnostics::init();
    let parsed_block = Ast::generate(input, 0, &mut diagnostics);
    if !diagnostics.is_empty() {
        panic!("No diagnostics should appear in a successful parse");
    }
    assert_eq!(parsed_block, output);
}

#[test]
fn ast_literal() {
    parsing_test("Name", &[ident("Name")]);
}

#[test]
fn ast_element() {
    parsing_test(
        "element Bedrock {\n    color = #686868\n}",
        &[element_node("Bedrock", vec![assign("color", hex("686868"))])],
    );
}

#[test]
fn ast_variable_assign() {
    parsing_test("color = #FFFFFF", &[assign("color", hex("FFFFFF"))]);
}

#[test]
fn ast_empty_block() {
    parsing_test("{}", &[block(Vec::new())]);
}

#[test]
fn ast_empty_block_in_block() {
    parsing_test("{{}}", &[block(vec![block(Vec::new())])]);
}

#[test]
fn ast_empty_blocks_many_newlines() {
    parsing_test("\n   {\n \n{  \n}\n}\n\n", &[block(vec![block(Vec::new())])]);
}

#[test]
fn ast_hex_colors() {
    parsing_test(
        "a = #012\nb = #abc\nc = #ABC\nd = #0123\ne = #abcd\nf = #ABCD\ng = #012345\nh = #abcdef\ni = #ABCDEF\nj = #01234567\nk = #abcdefab\nl = #ABCDEfa",
        &[
            assign("a", hex("012")),
            assign("b", hex("abc")),
            assign("c", hex("ABC")),
            assign("d", hex("0123")),
            assign("e", hex("abcd")),
            assign("f", hex("ABCD")),
            assign("g", hex("012345")),
            assign("h", hex("abcdef")),
            assign("i", hex("ABCDEF")),
            assign("j", hex("01234567")),
            assign("k", hex("abcdefab")),
            assign("l", hex("ABCDEfa")),
        ],
    );
}

#[test]
fn ast_enum_variants() {
    parsing_test(
        "a = SameAlpha\nb = OtherThing",
        &[assign("a", ident("SameAlpha")), assign("b", ident("OtherThing"))],
    );
}

#[test]
fn ast_value_in_block() {
    parsing_test(
        "color = { #FFFFFF }",
        &[assign("color", block(vec![hex("FFFFFF")]))],
    );
}

#[test]
fn ast_generation_literal() {
    parsing_test("Name", &[ident("Name")]);
}

#[test]
fn ast_generation_element() {
    parsing_test(
        "element Bedrock {\n    color = #686868\n}",
        &[element_node("Bedrock", vec![assign("color", hex("686868"))])],
    );
}

#[test]
fn ast_generation_variable_assign() {
    parsing_test("color = #FFFFFF", &[assign("color", hex("FFFFFF"))]);
}

#[test]
fn ast_generation_empty_block() {
    parsing_test("{}", &[block(Vec::new())]);
}

#[test]
fn ast_generation_empty_block_in_block() {
    parsing_test("{{}}", &[block(vec![block(Vec::new())])]);
}

#[test]
fn ast_generation_empty_blocks_many_newlines() {
    parsing_test("\n   {\n \n{  \n}\n}\n\n", &[block(vec![block(Vec::new())])]);
}

#[test]
fn ast_generation_hex_colors() {
    parsing_test(
        "a = #012\nb = #abc\nc = #ABC\nd = #0123\ne = #abcd\nf = #ABCD\ng = #012345\nh = #abcdef\ni = #ABCDEF\nj = #01234567\nk = #abcdefab\nl = #ABCDEfa",
        &[
            assign("a", hex("012")),
            assign("b", hex("abc")),
            assign("c", hex("ABC")),
            assign("d", hex("0123")),
            assign("e", hex("abcd")),
            assign("f", hex("ABCD")),
            assign("g", hex("012345")),
            assign("h", hex("abcdef")),
            assign("i", hex("ABCDEF")),
            assign("j", hex("01234567")),
            assign("k", hex("abcdefab")),
            assign("l", hex("ABCDEfa")),
        ],
    );
}

#[test]
fn ast_generation_enum_variants() {
    parsing_test(
        "a = SameAlpha\nb = OtherThing",
        &[assign("a", ident("SameAlpha")), assign("b", ident("OtherThing"))],
    );
}

#[test]
fn ast_generation_value_in_block() {
    parsing_test(
        "color = { #FFFFFF }",
        &[assign("color", block(vec![hex("FFFFFF")]))],
    );
}

#[test]
fn parse_recovers_at_statement_boundaries() {
    let mut diagnostics = Diagnostics::init();
    let parsed = Ast::generate("= Name {}", 0, &mut diagnostics);
    assert_eq!(diagnostics.len(), 1);
    assert!(diagnostics.has_errored());
    assert_eq!(parsed, &[ident("Name"), block(Vec::new())][..]);
}

#[test]
fn parse_reports_unclosed_block() {
    let mut diagnostics = Diagnostics::init();
    let parsed = Ast::generate("element X {", 0, &mut diagnostics);
    assert_eq!(diagnostics.len(), 1);
    assert!(diagnostics.has_errored());
    assert_eq!(parsed, &[element_node("X", Vec::new())][..]);
}

#[test]
fn parse_reports_missing_element_name() {
    let mut diagnostics = Diagnostics::init();
    let parsed = Ast::generate("element {}", 0, &mut diagnostics);
    assert_eq!(diagnostics.len(), 1);
    assert!(diagnostics.has_errored());
    assert_eq!(parsed, &[block(Vec::new())][..]);
}

#[test]
fn parse_reports_unmatched_close_bracket() {
    let mut diagnostics = Diagnostics::init();
    let parsed = Ast::generate("} Name", 0, &mut diagnostics);
    assert_eq!(diagnostics.len(), 1);
    assert!(diagnostics.has_errored());
    assert_eq!(parsed, &[ident("Name")][..]);
}
