use splang::ast::Ast;
use splang::diagnostics::Diagnostics;
use splang::render::render;

fn parse_clean(input: &str) -> Vec<Ast> {
    let mut diagnostics = Diagnostics::init();
    let asts = Ast::generate(input, 0, &mut diagnostics);
    assert!(diagnostics.is_empty(), "unexpected diagnostics for {:?}", input);
    asts
}

fn round_trips(input: &str) {
    let first = parse_clean(input);
    let text = render(&first);
    let second = parse_clean(&text);
    assert_eq!(first, second, "round trip changed the tree for {:?}", input);
}

#[test]
fn render_emits_space_separated_tokens() {
    let asts = parse_clean("element Bedrock {\n    color = #686868\n}");
    assert_eq!(render(&asts), "element Bedrock { color = # 686868 } ");
}

#[test]
fn parse_render_parse_is_identity() {
    round_trips("element Bedrock {\n    color = #686868\n}");
    round_trips("a = SameAlpha\nb = OtherThing");
    round_trips("{{} {} element X { join_face = Never color = #abc }}");
    round_trips("Name");
    round_trips("color = { #FFFFFF }");
    round_trips("");
    round_trips("x = element Inline { color = #1 }");
}
