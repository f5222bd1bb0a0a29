//! Const-evaluation: reducing literal syntax nodes to typed values.
//!
//! An empty block is the unit value; a one-statement block evaluates to its
//! statement; a bare identifier is a nullary enum tag; a hex color literal
//! of 1, 2, 3, 4, 6 or 8 hex digits is a color, with single nibbles doubled
//! into bytes and alpha defaulting to fully opaque.

use vstd::prelude::*;

use crate::ast::{Ast, AstV};
use crate::color::AtomColor;
use crate::diagnostics::EvalError;
use crate::position::{sat_add, Position, Positioned};
use crate::value::{ValueUntyped, ValueV};

verus! {

/// Whether `c` is an ASCII hex digit.
pub open spec fn is_hex_digit(c: char) -> bool {
    ('0' <= c && c <= '9') || ('a' <= c && c <= 'f') || ('A' <= c && c <= 'F')
}

/// The numeric value of a hex digit.
pub open spec fn hex_val(c: char) -> int {
    if '0' <= c && c <= '9' {
        c as int - '0' as int
    } else if 'a' <= c && c <= 'f' {
        c as int - 'a' as int + 10
    } else if 'A' <= c && c <= 'F' {
        c as int - 'A' as int + 10
    } else {
        0
    }
}

/// A nibble doubled into a byte: `0xA` becomes `0xAA`.
pub open spec fn nibble_dup(v: int) -> u8 {
    (v * 17) as u8
}

/// A byte from its two hex digits.
pub open spec fn byte_of(hi: int, lo: int) -> u8 {
    (hi * 16 + lo) as u8
}

/// Whether a digit run of this length forms a color.
pub open spec fn valid_hex_len(n: int) -> bool {
    n == 1 || n == 2 || n == 3 || n == 4 || n == 6 || n == 8
}

/// The index of the first non-hex character, if any.
pub open spec fn first_non_hex(digits: Seq<char>) -> Option<int>
    decreases digits.len(),
{
    if digits.len() == 0 {
        None
    } else if !is_hex_digit(digits[0]) {
        Some(0)
    } else {
        match first_non_hex(digits.skip(1)) {
            Some(k) => Some(k + 1),
            None => None,
        }
    }
}

/// [`first_non_hex`] finds exactly the least index of a non-hex character.
pub proof fn lemma_first_non_hex(digits: Seq<char>)
    ensures
        match first_non_hex(digits) {
            None => forall|k: int| 0 <= k < digits.len() ==> is_hex_digit(#[trigger] digits[k]),
            Some(k) => {
                &&& 0 <= k < digits.len()
                &&& !is_hex_digit(digits[k])
                &&& forall|j: int| 0 <= j < k ==> is_hex_digit(#[trigger] digits[j])
            },
        },
    decreases digits.len(),
{
    if digits.len() > 0 && is_hex_digit(digits[0]) {
        lemma_first_non_hex(digits.skip(1));
        match first_non_hex(digits.skip(1)) {
            None => {
                assert forall|k: int| 0 <= k < digits.len() implies is_hex_digit(
                    #[trigger] digits[k]) by {
                    if k > 0 {
                        assert(is_hex_digit(digits.skip(1)[k - 1]));
                    }
                }
            },
            Some(k) => {
                assert(digits.skip(1)[k] == digits[k + 1]);
                assert forall|j: int| 0 <= j < k + 1 implies is_hex_digit(#[trigger] digits[j])
                    by {
                    if j > 0 {
                        assert(is_hex_digit(digits.skip(1)[j - 1]));
                    }
                }
            },
        }
    }
}

/// The color a valid digit run of a valid length denotes.
pub open spec fn hex_color_value(d: Seq<char>) -> AtomColor {
    if d.len() == 1 {
        AtomColor::from_grey_spec(nibble_dup(hex_val(d[0])))
    } else if d.len() == 2 {
        AtomColor::from_grey_spec(byte_of(hex_val(d[0]), hex_val(d[1])))
    } else if d.len() == 3 {
        AtomColor {
            r: nibble_dup(hex_val(d[0])),
            g: nibble_dup(hex_val(d[1])),
            b: nibble_dup(hex_val(d[2])),
            a: 0xff,
        }
    } else if d.len() == 4 {
        AtomColor {
            r: nibble_dup(hex_val(d[0])),
            g: nibble_dup(hex_val(d[1])),
            b: nibble_dup(hex_val(d[2])),
            a: nibble_dup(hex_val(d[3])),
        }
    } else if d.len() == 6 {
        AtomColor {
            r: byte_of(hex_val(d[0]), hex_val(d[1])),
            g: byte_of(hex_val(d[2]), hex_val(d[3])),
            b: byte_of(hex_val(d[4]), hex_val(d[5])),
            a: 0xff,
        }
    } else {
        AtomColor {
            r: byte_of(hex_val(d[0]), hex_val(d[1])),
            g: byte_of(hex_val(d[2]), hex_val(d[3])),
            b: byte_of(hex_val(d[4]), hex_val(d[5])),
            a: byte_of(hex_val(d[6]), hex_val(d[7])),
        }
    }
}

/// What a hex color literal evaluates to: the first invalid digit is
/// reported at its own position; then an invalid digit count; else the
/// color.
pub open spec fn spec_eval_hex(digits: Seq<char>, pos: Position) -> Result<
    ValueV,
    (EvalError, Position),
> {
    match first_non_hex(digits) {
        Some(k) => Err((EvalError::InvalidHexDigit, pos.char_inline_spec(k as usize))),
        None => if valid_hex_len(digits.len() as int) {
            Ok(ValueV::Color(hex_color_value(digits)))
        } else {
            Err((EvalError::InvalidHexColorLen, pos))
        },
    }
}

/// What a node const-evaluates to.
pub open spec fn spec_const_eval(v: AstV) -> Result<ValueV, (EvalError, Position)>
    decreases v,
{
    match v {
        AstV::Block { nodes, pos } => {
            if nodes.len() == 0 {
                Ok(ValueV::Unit)
            } else if nodes.len() == 1 {
                spec_const_eval(nodes[0])
            } else {
                Err((EvalError::NotConst, pos))
            }
        },
        AstV::Ident { name, .. } => Ok(ValueV::EnumVariant(name)),
        AstV::HexColor { digits, pos } => spec_eval_hex(digits, pos),
        AstV::Element { .. } => Ok(ValueV::Unit),
        AstV::VariableAssign { .. } => Ok(ValueV::Unit),
    }
}

/// Executable test for [`is_hex_digit`].
pub fn hex_digit_char(c: char) -> (r: bool)
    ensures
        r == is_hex_digit(c),
{
    ('0' <= c && c <= '9') || ('a' <= c && c <= 'f') || ('A' <= c && c <= 'F')
}

/// The numeric value of a hex digit.
fn hex_digit_val(c: char) -> (r: u8)
    requires
        is_hex_digit(c),
    ensures
        r as int == hex_val(c),
        r < 16,
{
    if '0' <= c && c <= '9' {
        (c as u8) - 48
    } else if 'a' <= c && c <= 'f' {
        (c as u8) - 97 + 10
    } else {
        (c as u8) - 65 + 10
    }
}

/// A nibble doubled into a byte.
fn dup_nibble(v: u8) -> (r: u8)
    requires
        v < 16,
    ensures
        r == nibble_dup(v as int),
{
    v * 17
}

/// A byte from its two hex digit values.
fn pair_byte(hi: u8, lo: u8) -> (r: u8)
    requires
        hi < 16,
        lo < 16,
    ensures
        r == byte_of(hi as int, lo as int),
{
    hi * 16 + lo
}

impl Ast {
    /// Reduces this literal node to a typed value, or reports why it is
    /// not a constant.
    pub fn const_eval(&self) -> (r: Result<ValueUntyped, Positioned<EvalError>>)
        ensures
            match r {
                Ok(v) => spec_const_eval(self@) == Ok::<ValueV, (EvalError, Position)>(v@),
                Err(e) => spec_const_eval(self@) == Err::<ValueV, (EvalError, Position)>((
                    e.object,
                    e.position,
                )),
            },
        decreases *self,
    {
        match self {
            Ast::Block(b) => {
                proof {
                    assert(self@ == AstV::Block { nodes: crate::ast::asts_view(b.object@), pos:
                        b.position });
                    crate::ast::lemma_asts_view_index(b.object@);
                }
                if b.object.len() == 0 {
                    Ok(ValueUntyped::Unit)
                } else if b.object.len() == 1 {
                    proof {
                        crate::ast::lemma_asts_view_index(b.object@);
                    }
                    b.object[0].const_eval()
                } else {
                    Err(b.position.position(EvalError::NotConst))
                }
            },
            Ast::Ident(i) => {
                proof {
                    assert(self@ == AstV::Ident { name: i.object@, pos: i.position });
                }
                Ok(ValueUntyped::EnumVariant(i.object.clone()))
            },
            Ast::HexColor(c) => {
                proof {
                    assert(self@ == AstV::HexColor { digits: c.object@, pos: c.position });
                }
                let digits = c.object.as_str();
                let pos = c.position;
                let n = digits.unicode_len();
                let mut k: usize = 0;
                while k < n
                    invariant
                        k <= n,
                        n == digits@.len(),
                        self@ == (AstV::HexColor { digits: digits@, pos: pos }),
                        forall|j: int| 0 <= j < k ==> is_hex_digit(#[trigger] digits@[j]),
                    decreases n - k,
                {
                    let ch = digits.get_char(k);
                    if !hex_digit_char(ch) {
                        proof {
                            lemma_first_non_hex(digits@);
                            assert(digits@[k as int] == ch);
                            match first_non_hex(digits@) {
                                None => {
                                    assert(is_hex_digit(digits@[k as int]));
                                },
                                Some(b) => {
                                    if b < k {
                                        assert(is_hex_digit(digits@[b]));
                                    }
                                    if b > k {
                                        assert(is_hex_digit(digits@[k as int]));
                                    }
                                    assert(b == k as int);
                                },
                            }
                        }
                        let bad = Position {
                            file: pos.file,
                            offset: sat_add(pos.offset, k),
                            line: pos.line,
                            length: 1,
                        };
                        proof {
                            assert(bad == pos.char_inline_spec(k));
                            assert(spec_eval_hex(digits@, pos) == Err::<
                                ValueV,
                                (EvalError, Position),
                            >((EvalError::InvalidHexDigit, bad)));
                            assert(spec_const_eval(self@) == spec_eval_hex(digits@, pos));
                        }
                        return Err(Positioned { object: EvalError::InvalidHexDigit, position:
                            bad });
                    }
                    k = k + 1;
                }
                proof {
                    lemma_first_non_hex(digits@);
                    if first_non_hex(digits@) is Some {
                        let b = first_non_hex(digits@)->Some_0;
                        assert(is_hex_digit(digits@[b]));
                    }
                }
                if n == 1 {
                    let g = dup_nibble(hex_digit_val(digits.get_char(0)));
                    Ok(ValueUntyped::Color(AtomColor::from_grey(g)))
                } else if n == 2 {
                    let g = pair_byte(hex_digit_val(digits.get_char(0)), hex_digit_val(
                        digits.get_char(1)));
                    Ok(ValueUntyped::Color(AtomColor::from_grey(g)))
                } else if n == 3 {
                    let r = dup_nibble(hex_digit_val(digits.get_char(0)));
                    let g = dup_nibble(hex_digit_val(digits.get_char(1)));
                    let b = dup_nibble(hex_digit_val(digits.get_char(2)));
                    Ok(ValueUntyped::Color(AtomColor::from_parts(r, g, b, 0xff)))
                } else if n == 4 {
                    let r = dup_nibble(hex_digit_val(digits.get_char(0)));
                    let g = dup_nibble(hex_digit_val(digits.get_char(1)));
                    let b = dup_nibble(hex_digit_val(digits.get_char(2)));
                    let a = dup_nibble(hex_digit_val(digits.get_char(3)));
                    Ok(ValueUntyped::Color(AtomColor::from_parts(r, g, b, a)))
                } else if n == 6 {
                    let r = pair_byte(hex_digit_val(digits.get_char(0)), hex_digit_val(
                        digits.get_char(1)));
                    let g = pair_byte(hex_digit_val(digits.get_char(2)), hex_digit_val(
                        digits.get_char(3)));
                    let b = pair_byte(hex_digit_val(digits.get_char(4)), hex_digit_val(
                        digits.get_char(5)));
                    Ok(ValueUntyped::Color(AtomColor::from_parts(r, g, b, 0xff)))
                } else if n == 8 {
                    let r = pair_byte(hex_digit_val(digits.get_char(0)), hex_digit_val(
                        digits.get_char(1)));
                    let g = pair_byte(hex_digit_val(digits.get_char(2)), hex_digit_val(
                        digits.get_char(3)));
                    let b = pair_byte(hex_digit_val(digits.get_char(4)), hex_digit_val(
                        digits.get_char(5)));
                    let a = pair_byte(hex_digit_val(digits.get_char(6)), hex_digit_val(
                        digits.get_char(7)));
                    Ok(ValueUntyped::Color(AtomColor::from_parts(r, g, b, a)))
                } else {
                    Err(Positioned { object: EvalError::InvalidHexColorLen, position: pos })
                }
            },
            Ast::Element { .. } => Ok(ValueUntyped::Unit),
            Ast::VariableAssign { .. } => Ok(ValueUntyped::Unit),
        }
    }
}

/// For every digit count in {1, 2, 3, 4, 6, 8} and any hex digits,
/// evaluation yields exactly the color [`hex_color_value`] gives; for any
/// other count of hex digits it yields exactly an `InvalidHexColorLen`
/// error at the literal; and for a run with a non-hex character it yields
/// exactly an `InvalidHexDigit` error positioned at the first such
/// character.
pub proof fn lemma_hex_color_completeness(digits: Seq<char>, pos: Position)
    ensures
        (forall|k: int| 0 <= k < digits.len() ==> is_hex_digit(#[trigger] digits[k]))
            && valid_hex_len(digits.len() as int) ==> spec_eval_hex(digits, pos) == Ok::<
            ValueV,
            (EvalError, Position),
        >(ValueV::Color(hex_color_value(digits))),
        (forall|k: int| 0 <= k < digits.len() ==> is_hex_digit(#[trigger] digits[k]))
            && !valid_hex_len(digits.len() as int) ==> spec_eval_hex(digits, pos) == Err::<
            ValueV,
            (EvalError, Position),
        >((EvalError::InvalidHexColorLen, pos)),
        !(forall|k: int| 0 <= k < digits.len() ==> is_hex_digit(#[trigger] digits[k])) ==> {
            let bad = first_non_hex(digits)->Some_0;
            &&& spec_eval_hex(digits, pos) == Err::<ValueV, (EvalError, Position)>((
                EvalError::InvalidHexDigit,
                pos.char_inline_spec(bad as usize),
            ))
            &&& 0 <= bad < digits.len()
            &&& !is_hex_digit(digits[bad])
            &&& forall|j: int| 0 <= j < bad ==> is_hex_digit(#[trigger] digits[j])
        },
{
    lemma_first_non_hex(digits);
    match first_non_hex(digits) {
        None => {
        },
        Some(k) => {
            assert(!is_hex_digit(digits[k]));
        },
    }
}

} // verus!
