use splang::ast::Ast;
use splang::color::AtomColor;
use splang::diagnostics::EvalError;
use splang::position::{Position, Positioned};
use splang::value::ValueUntyped;

fn hex_node(digits: &str, offset: usize) -> Ast {
    Ast::HexColor(Positioned {
        object: digits.to_string(),
        position: Position { file: 0, offset, line: 1, length: digits.chars().count() },
    })
}

fn eval_color(digits: &str) -> AtomColor {
    match hex_node(digits, 0).const_eval() {
        Ok(ValueUntyped::Color(c)) => c,
        other => panic!("expected a color for #{}, got {:?}", digits, other),
    }
}

#[test]
fn hex_digit_counts() {
    assert_eq!(eval_color("a"), AtomColor::from_parts(0xaa, 0xaa, 0xaa, 0xff));
    assert_eq!(eval_color("ab"), AtomColor::from_parts(0xab, 0xab, 0xab, 0xff));
    assert_eq!(eval_color("abc"), AtomColor::from_parts(0xaa, 0xbb, 0xcc, 0xff));
    assert_eq!(eval_color("abcd"), AtomColor::from_parts(0xaa, 0xbb, 0xcc, 0xdd));
    assert_eq!(eval_color("12d4f6"), AtomColor::from_parts(0x12, 0xd4, 0xf6, 0xff));
    assert_eq!(eval_color("12d4f6a0"), AtomColor::from_parts(0x12, 0xd4, 0xf6, 0xa0));
    assert_eq!(eval_color("ABC"), AtomColor::from_parts(0xaa, 0xbb, 0xcc, 0xff));
}

#[test]
fn every_hex_digit_in_every_valid_count() {
    let digits = "0123456789abcdefABCDEF";
    for d in digits.chars() {
        for count in [1usize, 2, 3, 4, 6, 8] {
            let run: String = std::iter::repeat(d).take(count).collect();
            match hex_node(&run, 0).const_eval() {
                Ok(ValueUntyped::Color(_)) => {}
                other => panic!("expected a color for #{}, got {:?}", run, other),
            }
        }
    }
}

#[test]
fn invalid_hex_lengths() {
    for count in [0usize, 5, 7, 9, 12] {
        let run: String = std::iter::repeat('a').take(count).collect();
        match hex_node(&run, 3).const_eval() {
            Err(e) => {
                assert!(matches!(e.object, EvalError::InvalidHexColorLen));
                assert_eq!(e.position.offset, 3);
            }
            other => panic!("expected a length error for {} digits, got {:?}", count, other),
        }
    }
}

#[test]
fn invalid_hex_digit_is_positioned() {
    match hex_node("12g4", 10).const_eval() {
        Err(e) => {
            assert!(matches!(e.object, EvalError::InvalidHexDigit));
            assert_eq!(e.position.offset, 12);
            assert_eq!(e.position.length, 1);
        }
        other => panic!("expected a digit error, got {:?}", other),
    }
}

#[test]
fn blocks_evaluate_to_their_single_statement() {
    let pos = Position { file: 0, offset: 0, line: 1, length: 1 };
    let empty = Ast::Block(Positioned { object: Vec::new(), position: pos });
    assert!(matches!(empty.const_eval(), Ok(ValueUntyped::Unit)));

    let single = Ast::Block(Positioned { object: vec![hex_node("ff", 0)], position: pos });
    match single.const_eval() {
        Ok(ValueUntyped::Color(c)) => assert_eq!(c, AtomColor::from_parts(0xff, 0xff, 0xff, 0xff)),
        other => panic!("expected a color, got {:?}", other),
    }

    let double = Ast::Block(Positioned {
        object: vec![hex_node("ff", 0), hex_node("00", 3)],
        position: pos,
    });
    match double.const_eval() {
        Err(e) => assert!(matches!(e.object, EvalError::NotConst)),
        other => panic!("expected a non-const error, got {:?}", other),
    }
}

#[test]
fn idents_evaluate_to_enum_variants() {
    let node = Ast::Ident(Positioned {
        object: "Never".to_string(),
        position: Position { file: 0, offset: 0, line: 1, length: 5 },
    });
    match node.const_eval() {
        Ok(ValueUntyped::EnumVariant(v)) => assert_eq!(v, "Never"),
        other => panic!("expected an enum variant, got {:?}", other),
    }
}

#[test]
fn value_variant_names() {
    assert_eq!(ValueUntyped::Color(AtomColor::white()).variant_name(), "Color");
    assert_eq!(ValueUntyped::EnumVariant("Foo".to_string()).variant_name(), "{ Foo }");
    assert_eq!(ValueUntyped::Unit.variant_name(), "()");
}

#[test]
fn color_constructors() {
    assert_eq!(AtomColor::from_u32(0x11223344), AtomColor::from_parts(0x11, 0x22, 0x33, 0x44));
    assert_eq!(AtomColor::from_grey(0x7f), AtomColor::from_parts(0x7f, 0x7f, 0x7f, 0xff));
    assert_eq!(AtomColor::invisible(), AtomColor::from_u32(0));
    assert_eq!(AtomColor::white(), AtomColor::from_u32(0xffffffff));
}
