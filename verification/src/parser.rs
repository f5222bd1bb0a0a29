//! Parsing: a positioned token stream to untyped syntax trees.
//!
//! The grammar is the brace-block one: a file is a sequence of statements;
//! a statement is a `{ ... }` block, an `element <name> { ... }`
//! declaration, a `<variable> = <value>` assignment, a bare identifier, or
//! a `#` hex-color literal; a value is any of those except another
//! assignment.  Newlines are insignificant.  Parsing recovers at statement
//! boundaries: an unexpected token is reported at its own position and
//! skipped; `element` without a name or without a `{` is reported with a
//! specific error; a file that ends inside a `{` block is reported and the
//! partial block is kept.

use vstd::prelude::*;

use crate::ast::{asts_view, Ast, AstV};
use crate::diagnostics::{DiagView, DiagnosticKind, Diagnostics, GenerateErrorKind};
use crate::position::{FileId, Position};
use crate::tokenizer::{skip_whitespace, spec_skip_newlines, spec_tokenize, tokenize, toks_view,
    Token, TokenV};

verus! {

/// Positioned diagnostics as a parse result component.
pub type DiagSeq = Seq<(Option<Position>, DiagView)>;

/// The spec-level outcome of parsing one statement or value.
pub struct StmtOut {
    /// The node produced, if the tokens formed one.
    pub node: Option<AstV>,
    /// The diagnostics reported while parsing it.
    pub diags: DiagSeq,
    /// The index of the first token after it.
    pub next: int,
}

/// The spec-level outcome of parsing a statement sequence.
pub struct BlockOut {
    /// The statements parsed, in order.
    pub nodes: Seq<AstV>,
    /// The diagnostics reported, in order.
    pub diags: DiagSeq,
    /// The index of the first token after the sequence.
    pub next: int,
    /// The position of the closing `}`, or of the opening `{` when the
    /// input ended before one was found.
    pub close_pos: Position,
}

/// Clamps an index into `[lo, hi]`; parse results stay inside the token
/// stream, so in well-formed composition the clamp is the identity.
pub open spec fn clamp_idx(x: int, lo: int, hi: int) -> int {
    if x < lo {
        lo
    } else if x > hi {
        hi
    } else {
        x
    }
}

/// One diagnostic at a position, as a parse result component.
pub open spec fn gen_diag(pos: Position, kind: GenerateErrorKind) -> (Option<Position>, DiagView) {
    (Some(pos), DiagView::Generate(kind))
}

/// Parses a statement sequence starting at token `i`: the body of a `{`
/// block when `closing` (with `open_pos` the position of its `{`), or a
/// whole file otherwise.
pub open spec fn spec_parse_stmts(toks: Seq<(TokenV, Position)>, i: int, closing: bool, open_pos:
    Position) -> BlockOut
    decreases toks.len() - i, 3int,
{
    if i < 0 || i >= toks.len() {
        if closing {
            BlockOut {
                nodes: Seq::empty(),
                diags: seq![gen_diag(open_pos, GenerateErrorKind::UnclosedBlock)],
                next: i,
                close_pos: open_pos,
            }
        } else {
            BlockOut { nodes: Seq::empty(), diags: Seq::empty(), next: i, close_pos: open_pos }
        }
    } else {
        let pos = toks[i].1;
        match toks[i].0 {
            TokenV::Bracket { open: false, .. } => {
                if closing {
                    BlockOut { nodes: Seq::empty(), diags: Seq::empty(), next: i + 1, close_pos:
                        pos }
                } else {
                    let rest = spec_parse_stmts(toks, i + 1, closing, open_pos);
                    BlockOut {
                        nodes: rest.nodes,
                        diags: seq![gen_diag(pos, GenerateErrorKind::UnmatchedCloseBracket)]
                            + rest.diags,
                        next: rest.next,
                        close_pos: rest.close_pos,
                    }
                }
            },
            _ => {
                let s = spec_parse_stmt(toks, i);
                let j = clamp_idx(s.next, i + 1, toks.len() as int);
                let rest = spec_parse_stmts(toks, j, closing, open_pos);
                let head: Seq<AstV> = match s.node {
                    Some(n) => seq![n],
                    None => Seq::empty(),
                };
                BlockOut {
                    nodes: head + rest.nodes,
                    diags: s.diags + rest.diags,
                    next: rest.next,
                    close_pos: rest.close_pos,
                }
            },
        }
    }
}

/// Parses one statement starting at token `i` (not a closing `}`, which
/// [`spec_parse_stmts`] handles itself).
pub open spec fn spec_parse_stmt(toks: Seq<(TokenV, Position)>, i: int) -> StmtOut
    decreases toks.len() - i, 2int,
{
    if i < 0 || i >= toks.len() {
        StmtOut { node: None, diags: Seq::empty(), next: i }
    } else {
        let pos = toks[i].1;
        match toks[i].0 {
            TokenV::Newline => StmtOut { node: None, diags: Seq::empty(), next: i + 1 },
            TokenV::Bracket { open: true, .. } => {
                let b = spec_parse_stmts(toks, i + 1, true, pos);
                StmtOut {
                    node: Some(AstV::Block { nodes: b.nodes, pos: pos.span_to(b.close_pos) }),
                    diags: b.diags,
                    next: clamp_idx(b.next, i + 1, toks.len() as int),
                }
            },
            TokenV::Bracket { open: false, .. } => StmtOut {
                node: None,
                diags: seq![gen_diag(pos, GenerateErrorKind::UnmatchedCloseBracket)],
                next: i + 1,
            },
            TokenV::Operator(_) => StmtOut {
                node: None,
                diags: seq![gen_diag(pos, GenerateErrorKind::UnexpectedToken)],
                next: i + 1,
            },
            TokenV::Modifier(_) => {
                if i + 1 < toks.len() && toks[i + 1].0 is Literal {
                    StmtOut {
                        node: Some(AstV::HexColor {
                            digits: toks[i + 1].0->Literal_0,
                            pos: toks[i + 1].1,
                        }),
                        diags: Seq::empty(),
                        next: i + 2,
                    }
                } else {
                    StmtOut {
                        node: None,
                        diags: seq![gen_diag(pos, GenerateErrorKind::ExpectedHexLiteral)],
                        next: i + 1,
                    }
                }
            },
            TokenV::Keyword(_) => spec_parse_element(toks, i),
            TokenV::Literal(t) => {
                if i + 1 < toks.len() && toks[i + 1].0 is Operator {
                    let v = spec_parse_value(toks, i + 2);
                    match v.node {
                        Some(value) => StmtOut {
                            node: Some(AstV::VariableAssign {
                                variable: t,
                                var_pos: pos,
                                value: Box::new(value),
                            }),
                            diags: v.diags,
                            next: clamp_idx(v.next, i + 2, toks.len() as int),
                        },
                        None => StmtOut {
                            node: Some(AstV::Ident { name: t, pos }),
                            diags: Seq::empty(),
                            next: i + 1,
                        },
                    }
                } else {
                    StmtOut { node: Some(AstV::Ident { name: t, pos }), diags: Seq::empty(),
                        next: i + 1 }
                }
            },
        }
    }
}

/// Parses an `element <name> { ... }` declaration whose keyword sits at
/// token `i`.  A missing name or missing `{` is reported with a specific
/// positioned error; in the latter case an empty-bodied element stands in.
pub open spec fn spec_parse_element(toks: Seq<(TokenV, Position)>, i: int) -> StmtOut
    decreases toks.len() - i, 0int,
{
    if 0 <= i && i + 1 < toks.len() && toks[i + 1].0 is Literal {
        let name = toks[i + 1].0->Literal_0;
        let name_pos = toks[i + 1].1;
        if i + 2 < toks.len() && toks[i + 2].0 == (TokenV::Bracket { ty:
            crate::tokenizer::BracketTy::Curvy, open: true }) {
            let open_pos = toks[i + 2].1;
            let b = spec_parse_stmts(toks, i + 3, true, open_pos);
            StmtOut {
                node: Some(AstV::Element {
                    name,
                    name_pos,
                    nodes: b.nodes,
                    body_pos: open_pos.span_to(b.close_pos),
                }),
                diags: b.diags,
                next: clamp_idx(b.next, i + 3, toks.len() as int),
            }
        } else {
            let diag_pos = if i + 2 < toks.len() {
                toks[i + 2].1
            } else {
                name_pos
            };
            StmtOut {
                node: Some(AstV::Element {
                    name,
                    name_pos,
                    nodes: Seq::empty(),
                    body_pos: name_pos,
                }),
                diags: seq![gen_diag(diag_pos, GenerateErrorKind::ExpectedOpenBracket)],
                next: i + 2,
            }
        }
    } else {
        let diag_pos = if 0 <= i && i + 1 < toks.len() {
            toks[i + 1].1
        } else if 0 <= i && i < toks.len() {
            toks[i].1
        } else {
            Position::top_of_spec(0)
        };
        StmtOut {
            node: None,
            diags: seq![gen_diag(diag_pos, GenerateErrorKind::ExpectedElementName)],
            next: i + 1,
        }
    }
}

/// Parses the right-hand side of an assignment: a block, an element, an
/// identifier or a hex color, but never another assignment.  When no value
/// starts at token `i` nothing is consumed and nothing is reported; the
/// assignment then falls back to a bare identifier and the leftover tokens
/// are the statement loop's to report.
pub open spec fn spec_parse_value(toks: Seq<(TokenV, Position)>, i: int) -> StmtOut
    decreases toks.len() - i, 1int,
{
    if i < 0 || i >= toks.len() {
        StmtOut { node: None, diags: Seq::empty(), next: i }
    } else {
        let pos = toks[i].1;
        match toks[i].0 {
            TokenV::Bracket { open: true, .. } => {
                let b = spec_parse_stmts(toks, i + 1, true, pos);
                StmtOut {
                    node: Some(AstV::Block { nodes: b.nodes, pos: pos.span_to(b.close_pos) }),
                    diags: b.diags,
                    next: clamp_idx(b.next, i + 1, toks.len() as int),
                }
            },
            TokenV::Keyword(_) => {
                if i + 1 < toks.len() && toks[i + 1].0 is Literal {
                    spec_parse_element(toks, i)
                } else {
                    StmtOut { node: None, diags: Seq::empty(), next: i }
                }
            },
            TokenV::Literal(t) => StmtOut {
                node: Some(AstV::Ident { name: t, pos }),
                diags: Seq::empty(),
                next: i + 1,
            },
            TokenV::Modifier(_) => {
                if i + 1 < toks.len() && toks[i + 1].0 is Literal {
                    StmtOut {
                        node: Some(AstV::HexColor {
                            digits: toks[i + 1].0->Literal_0,
                            pos: toks[i + 1].1,
                        }),
                        diags: Seq::empty(),
                        next: i + 2,
                    }
                } else {
                    StmtOut { node: None, diags: Seq::empty(), next: i }
                }
            },
            _ => StmtOut { node: None, diags: Seq::empty(), next: i },
        }
    }
}

/// The statements and diagnostics a whole source file parses to.
pub open spec fn spec_generate(code: Seq<char>, file: FileId) -> BlockOut {
    let toks = spec_skip_newlines(spec_tokenize(code, file));
    spec_parse_stmts(toks, 0, false, Position::top_of_spec(file))
}

/// Parses a statement sequence, reporting into `diagnostics`; returns the
/// statements, the index after the sequence, and the close position.
fn parse_block(toks: &Vec<(Token, Position)>, i: usize, closing: bool, open_pos: Position,
    diagnostics: &mut Diagnostics) -> (r: (Vec<Ast>, usize, Position))
    requires
        i <= toks@.len(),
        old(diagnostics).wf(),
    ensures
        final(diagnostics).wf(),
        i <= r.1 <= toks@.len(),
        ({
            let out = spec_parse_stmts(toks_view(toks@), i as int, closing, open_pos);
            &&& asts_view(r.0@) == out.nodes
            &&& final(diagnostics)@ == old(diagnostics)@ + out.diags
            &&& r.1 as int == out.next
            &&& r.2 == out.close_pos
        }),
    decreases toks@.len() - i, 3int,
{
    let ghost tv = toks_view(toks@);
    let ghost out = spec_parse_stmts(tv, i as int, closing, open_pos);
    let len = toks.len();
    if i >= len {
        if closing {
            diagnostics.add(open_pos, DiagnosticKind::Generate(GenerateErrorKind::UnclosedBlock));
            proof {
                assert(diagnostics@ =~= old(diagnostics)@ + out.diags);
            }
        } else {
            proof {
                assert(diagnostics@ =~= old(diagnostics)@ + out.diags);
            }
        }
        proof {
            assert(asts_view(Seq::<Ast>::empty()) =~= out.nodes);
        }
        return (Vec::new(), i, open_pos);
    }
    proof {
        assert(tv[i as int] == (toks@[i as int].0@, toks@[i as int].1));
    }
    let pos = toks[i].1;
    let close = matches!(toks[i].0, Token::Bracket { open: false, .. });
    if close {
        if closing {
            proof {
                assert(diagnostics@ =~= old(diagnostics)@ + out.diags);
                assert(asts_view(Seq::<Ast>::empty()) =~= out.nodes);
            }
            return (Vec::new(), i + 1, pos);
        }
        diagnostics.add(pos, DiagnosticKind::Generate(GenerateErrorKind::UnmatchedCloseBracket));
        let rest = parse_block(toks, i + 1, closing, open_pos, diagnostics);
        proof {
            let restout = spec_parse_stmts(tv, i + 1, closing, open_pos);
            assert(diagnostics@ =~= old(diagnostics)@ + out.diags);
        }
        return rest;
    }
    let (node, next) = parse_statement(toks, i, diagnostics);
    let ghost s = spec_parse_stmt(tv, i as int);
    proof {
        assert(clamp_idx(s.next, i + 1, tv.len() as int) == s.next);
    }
    let (mut nodes, rnext, rclose) = parse_block(toks, next, closing, open_pos, diagnostics);
    proof {
        let restout = spec_parse_stmts(tv, s.next, closing, open_pos);
        assert(diagnostics@ =~= old(diagnostics)@ + out.diags);
    }
    match node {
        Some(n) => {
            let ghost nv = n@;
            let ghost before = nodes@;
            nodes.insert(0, n);
            proof {
                crate::ast::lemma_asts_view_index(before);
                crate::ast::lemma_asts_view_index(nodes@);
                assert forall|k: int| 0 <= k < nodes@.len() implies asts_view(nodes@)[k]
                    == out.nodes[k] by {
                    if k > 0 {
                        assert(nodes@[k] == before[k - 1]);
                    }
                }
                assert(asts_view(nodes@) =~= out.nodes);
            }
        },
        None => {
            proof {
                assert(asts_view(nodes@) =~= out.nodes);
            }
        },
    }
    (nodes, rnext, rclose)
}

/// Parses one statement, reporting into `diagnostics`; returns the node it
/// forms, if any, and the index after it.
fn parse_statement(toks: &Vec<(Token, Position)>, i: usize, diagnostics: &mut Diagnostics) -> (r:
    (Option<Ast>, usize))
    requires
        i < toks@.len(),
        old(diagnostics).wf(),
    ensures
        final(diagnostics).wf(),
        i < r.1 <= toks@.len(),
        ({
            let s = spec_parse_stmt(toks_view(toks@), i as int);
            &&& match r.0 {
                Some(a) => s.node == Some(a@),
                None => s.node is None,
            }
            &&& final(diagnostics)@ == old(diagnostics)@ + s.diags
            &&& r.1 as int == s.next
        }),
    decreases toks@.len() - i, 2int,
{
    let ghost tv = toks_view(toks@);
    let ghost s = spec_parse_stmt(tv, i as int);
    let len = toks.len();
    proof {
        assert(tv[i as int] == (toks@[i as int].0@, toks@[i as int].1));
    }
    let pos = toks[i].1;
    match &toks[i].0 {
        Token::Newline => {
            proof {
                assert(diagnostics@ =~= old(diagnostics)@ + s.diags);
            }
            (None, i + 1)
        },
        Token::Bracket { open: true, .. } => {
            let (body, bnext, close_pos) = parse_block(toks, i + 1, true, pos, diagnostics);
            let node = Ast::Block(pos.span_to_clamped(close_pos).position(body));
            proof {
                let b = spec_parse_stmts(tv, i + 1, true, pos);
                assert(node@ == AstV::Block { nodes: b.nodes, pos: pos.span_to(b.close_pos) });
                assert(clamp_idx(b.next, i + 1, tv.len() as int) == b.next);
            }
            (Some(node), bnext)
        },
        Token::Bracket { open: false, .. } => {
            diagnostics.add(pos, DiagnosticKind::Generate(
                GenerateErrorKind::UnmatchedCloseBracket));
            proof {
                assert(diagnostics@ =~= old(diagnostics)@ + s.diags);
            }
            (None, i + 1)
        },
        Token::Operator(_) => {
            diagnostics.add(pos, DiagnosticKind::Generate(GenerateErrorKind::UnexpectedToken));
            proof {
                assert(diagnostics@ =~= old(diagnostics)@ + s.diags);
            }
            (None, i + 1)
        },
        Token::Modifier(_) => {
            if i + 1 < len {
                let is_lit = matches!(toks[i + 1].0, Token::Literal(_));
                proof {
                    assert(tv[i + 1] == (toks@[i + 1].0@, toks@[i + 1].1));
                }
                if is_lit {
                    let digits = match &toks[i + 1].0 {
                        Token::Literal(d) => d.clone(),
                        _ => {
                            proof {
                                assert(false);
                            }
                            String::new()
                        },
                    };
                    let node = Ast::HexColor(toks[i + 1].1.position(digits));
                    proof {
                        assert(diagnostics@ =~= old(diagnostics)@ + s.diags);
                        assert(s.node == Some(node@));
                    }
                    return (Some(node), i + 2);
                }
            }
            diagnostics.add(pos, DiagnosticKind::Generate(GenerateErrorKind::ExpectedHexLiteral));
            proof {
                assert(diagnostics@ =~= old(diagnostics)@ + s.diags);
            }
            (None, i + 1)
        },
        Token::Keyword(_) => parse_element_decl(toks, i, diagnostics),
        Token::Literal(t) => {
            let name = t.clone();
            let assign_next = if i + 1 < len {
                matches!(toks[i + 1].0, Token::Operator(_))
            } else {
                false
            };
            proof {
                if i + 1 < len {
                    assert(tv[i + 1] == (toks@[i + 1].0@, toks@[i + 1].1));
                }
            }
            if assign_next {
                let (value, vnext) = parse_value(toks, i + 2, diagnostics);
                let ghost v = spec_parse_value(tv, i + 2);
                match value {
                    Some(val) => {
                        let node = Ast::VariableAssign {
                            variable: pos.position(name),
                            value: Box::new(val),
                        };
                        proof {
                            assert(clamp_idx(v.next, i + 2, tv.len() as int) == v.next);
                            assert(s.node == Some(node@));
                        }
                        (Some(node), vnext)
                    },
                    None => {
                        proof {
                            assert(v.diags =~= Seq::<(Option<Position>, DiagView)>::empty());
                            assert(diagnostics@ =~= old(diagnostics)@ + s.diags);
                        }
                        (Some(Ast::Ident(pos.position(name))), i + 1)
                    },
                }
            } else {
                proof {
                    assert(diagnostics@ =~= old(diagnostics)@ + s.diags);
                }
                (Some(Ast::Ident(pos.position(name))), i + 1)
            }
        },
    }
}

/// Parses an `element <name> { ... }` declaration at the keyword token.
fn parse_element_decl(toks: &Vec<(Token, Position)>, i: usize, diagnostics: &mut Diagnostics)
    -> (r: (Option<Ast>, usize))
    requires
        i < toks@.len(),
        old(diagnostics).wf(),
    ensures
        final(diagnostics).wf(),
        i < r.1 <= toks@.len(),
        ({
            let s = spec_parse_element(toks_view(toks@), i as int);
            &&& match r.0 {
                Some(a) => s.node == Some(a@),
                None => s.node is None,
            }
            &&& final(diagnostics)@ == old(diagnostics)@ + s.diags
            &&& r.1 as int == s.next
        }),
    decreases toks@.len() - i, 0int,
{
    let ghost tv = toks_view(toks@);
    let ghost s = spec_parse_element(tv, i as int);
    let len = toks.len();
    proof {
        assert(tv[i as int] == (toks@[i as int].0@, toks@[i as int].1));
        if i + 1 < len {
            assert(tv[i + 1] == (toks@[i + 1].0@, toks@[i + 1].1));
        }
        if i + 2 < len {
            assert(tv[i + 2] == (toks@[i + 2].0@, toks@[i + 2].1));
        }
    }
    if i + 1 < len {
        let name = match &toks[i + 1].0 {
            Token::Literal(t) => Some(t.clone()),
            _ => None,
        };
        if let Some(name) = name {
            let name_pos = toks[i + 1].1;
            if i + 2 < len && matches!(toks[i + 2].0, Token::Bracket { open: true, .. }) {
                let open_pos = toks[i + 2].1;
                let (body, bnext, close_pos) = parse_block(toks, i + 3, true, open_pos,
                    diagnostics);
                let node = Ast::Element {
                    name: name_pos.position(name),
                    body: open_pos.span_to_clamped(close_pos).position(body),
                };
                proof {
                    let b = spec_parse_stmts(tv, i + 3, true, open_pos);
                    assert(s.node == Some(node@));
                    assert(clamp_idx(b.next, i + 3, tv.len() as int) == b.next);
                }
                return (Some(node), bnext);
            }
            let diag_pos = if i + 2 < len {
                toks[i + 2].1
            } else {
                name_pos
            };
            diagnostics.add(diag_pos, DiagnosticKind::Generate(
                GenerateErrorKind::ExpectedOpenBracket));
            let node = Ast::Element {
                name: name_pos.position(name),
                body: name_pos.position(Vec::new()),
            };
            proof {
                assert(asts_view(Seq::<Ast>::empty()) =~= Seq::<AstV>::empty());
                assert(s.node == Some(node@));
                assert(diagnostics@ =~= old(diagnostics)@ + s.diags);
            }
            return (Some(node), i + 2);
        }
    }
    let diag_pos = if i + 1 < len {
        toks[i + 1].1
    } else {
        toks[i].1
    };
    diagnostics.add(diag_pos, DiagnosticKind::Generate(GenerateErrorKind::ExpectedElementName));
    proof {
        assert(diagnostics@ =~= old(diagnostics)@ + s.diags);
    }
    (None, i + 1)
}

/// Parses the value of an assignment; consumes nothing when no value
/// starts at token `i`.
fn parse_value(toks: &Vec<(Token, Position)>, i: usize, diagnostics: &mut Diagnostics) -> (r:
    (Option<Ast>, usize))
    requires
        i <= toks@.len(),
        old(diagnostics).wf(),
    ensures
        final(diagnostics).wf(),
        i <= r.1 <= toks@.len(),
        r.0 is Some ==> i < r.1,
        ({
            let v = spec_parse_value(toks_view(toks@), i as int);
            &&& match r.0 {
                Some(a) => v.node == Some(a@),
                None => v.node is None,
            }
            &&& final(diagnostics)@ == old(diagnostics)@ + v.diags
            &&& r.1 as int == v.next
        }),
    decreases toks@.len() - i, 1int,
{
    let ghost tv = toks_view(toks@);
    let ghost v = spec_parse_value(tv, i as int);
    let len = toks.len();
    if i >= len {
        proof {
            assert(diagnostics@ =~= old(diagnostics)@ + v.diags);
        }
        return (None, i);
    }
    proof {
        assert(tv[i as int] == (toks@[i as int].0@, toks@[i as int].1));
        if i + 1 < len {
            assert(tv[i + 1] == (toks@[i + 1].0@, toks@[i + 1].1));
        }
    }
    let pos = toks[i].1;
    match &toks[i].0 {
        Token::Bracket { open: true, .. } => {
            let (body, bnext, close_pos) = parse_block(toks, i + 1, true, pos, diagnostics);
            let node = Ast::Block(pos.span_to_clamped(close_pos).position(body));
            proof {
                let b = spec_parse_stmts(tv, i + 1, true, pos);
                assert(v.node == Some(node@));
                assert(clamp_idx(b.next, i + 1, tv.len() as int) == b.next);
            }
            (Some(node), bnext)
        },
        Token::Keyword(_) => {
            let name_next = if i + 1 < len {
                matches!(toks[i + 1].0, Token::Literal(_))
            } else {
                false
            };
            if name_next {
                parse_element_decl(toks, i, diagnostics)
            } else {
                proof {
                    assert(diagnostics@ =~= old(diagnostics)@ + v.diags);
                }
                (None, i)
            }
        },
        Token::Literal(t) => {
            let node = Ast::Ident(pos.position(t.clone()));
            proof {
                assert(v.node == Some(node@));
                assert(diagnostics@ =~= old(diagnostics)@ + v.diags);
            }
            (Some(node), i + 1)
        },
        Token::Modifier(_) => {
            if i + 1 < len {
                let digits = match &toks[i + 1].0 {
                    Token::Literal(d) => Some(d.clone()),
                    _ => None,
                };
                if let Some(digits) = digits {
                    let node = Ast::HexColor(toks[i + 1].1.position(digits));
                    proof {
                        assert(v.node == Some(node@));
                        assert(diagnostics@ =~= old(diagnostics)@ + v.diags);
                    }
                    return (Some(node), i + 2);
                }
            }
            proof {
                assert(diagnostics@ =~= old(diagnostics)@ + v.diags);
            }
            (None, i)
        },
        _ => {
            proof {
                assert(diagnostics@ =~= old(diagnostics)@ + v.diags);
            }
            (None, i)
        },
    }
}

impl Ast {
    /// Lexes and parses one file's text into its top-level statements,
    /// reporting every problem into `diagnostics`.
    pub fn generate(contents: &str, file: FileId, diagnostics: &mut Diagnostics) -> (r: Vec<Ast>)
        requires
            contents@.len() < usize::MAX,
            old(diagnostics).wf(),
        ensures
            final(diagnostics).wf(),
            asts_view(r@) == spec_generate(contents@, file).nodes,
            final(diagnostics)@ == old(diagnostics)@ + spec_generate(contents@, file).diags,
    {
        let raw = tokenize(contents, file);
        let toks = skip_whitespace(raw);
        let (nodes, _, _) = parse_block(&toks, 0, false, Position::top_of(file), diagnostics);
        nodes
    }
}

} // verus!
