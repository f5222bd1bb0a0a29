use splang::tokenizer::{skip_whitespace, tokenize, BracketTy, Keyword, Modifier, Operator, Token};

#[test]
fn tokenizes_the_basic_forms() {
    let toks = tokenize("element Bedrock {\n  color = #686868\n}", 7);
    let kinds: Vec<&Token> = toks.iter().map(|tp| &tp.0).collect();
    assert_eq!(kinds.len(), 10);
    assert!(matches!(kinds[0], Token::Keyword(Keyword::Element)));
    assert!(matches!(kinds[1], Token::Literal(s) if s == "Bedrock"));
    assert!(matches!(kinds[2], Token::Bracket { ty: BracketTy::Curvy, open: true }));
    assert!(matches!(kinds[3], Token::Newline));
    assert!(matches!(kinds[4], Token::Literal(s) if s == "color"));
    assert!(matches!(kinds[5], Token::Operator(Operator::Assign)));
    assert!(matches!(kinds[6], Token::Modifier(Modifier::HexColor)));
    assert!(matches!(kinds[7], Token::Literal(s) if s == "686868"));
    assert!(matches!(kinds[8], Token::Newline));
    assert!(matches!(kinds[9], Token::Bracket { ty: BracketTy::Curvy, open: false }));
}

#[test]
fn positions_track_offsets_and_lines() {
    let toks = tokenize("ab cd\n # x", 3);
    assert_eq!(toks.len(), 5);
    // "ab" at the start of line 1
    assert_eq!((toks[0].1.file, toks[0].1.offset, toks[0].1.line, toks[0].1.length), (3, 0, 1, 2));
    // "cd" after one space
    assert_eq!((toks[1].1.offset, toks[1].1.line, toks[1].1.length), (3, 1, 2));
    // the newline itself
    assert!(matches!(toks[2].0, Token::Newline));
    assert_eq!((toks[2].1.offset, toks[2].1.line, toks[2].1.length), (5, 1, 1));
    // "#" on line 2
    assert!(matches!(toks[3].0, Token::Modifier(Modifier::HexColor)));
    assert_eq!((toks[3].1.offset, toks[3].1.line), (7, 2));
    // "x" on line 2
    assert_eq!((toks[4].1.offset, toks[4].1.line, toks[4].1.length), (9, 2, 1));
}

#[test]
fn keyword_must_be_the_exact_run() {
    let toks = tokenize("elements element element2", 0);
    assert!(matches!(&toks[0].0, Token::Literal(s) if s == "elements"));
    assert!(matches!(&toks[1].0, Token::Keyword(Keyword::Element)));
    assert!(matches!(&toks[2].0, Token::Literal(s) if s == "element2"));
}

#[test]
fn skip_whitespace_drops_newlines_only() {
    let toks = tokenize("a\n\nb\n{", 0);
    assert_eq!(toks.len(), 6);
    let filtered = skip_whitespace(toks);
    assert_eq!(filtered.len(), 3);
    assert!(matches!(&filtered[0].0, Token::Literal(s) if s == "a"));
    assert!(matches!(&filtered[1].0, Token::Literal(s) if s == "b"));
    assert!(matches!(&filtered[2].0, Token::Bracket { open: true, .. }));
}

#[test]
fn token_variant_names() {
    assert_eq!(Keyword::Element.variant_name(), "Element");
    assert_eq!(Operator::Assign.variant_name(), "Assign");
    assert_eq!(Modifier::HexColor.variant_name(), "HexColor");
    assert_eq!(BracketTy::Curvy.variant_name(), "Curvy");
}
