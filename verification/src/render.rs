//! Rendering: a syntax tree back to minimal source text, and the proof
//! that parsing such a rendering gives the tree back.
//!
//! A tree renders as its token sequence, each token followed by one space.
//! For any well-formed tree the round trip holds: lexing and parsing the
//! rendering yields an equal tree (positions aside) and no diagnostics.

use vstd::assert_seqs_equal;
use vstd::prelude::*;

use crate::ast::{asts_view, strip, strips, Ast, AstShape, AstV};
use crate::diagnostics::DiagView;
use crate::parser::{clamp_idx, spec_generate, spec_parse_element, spec_parse_stmt,
    spec_parse_stmts, spec_parse_value};
use crate::position::{FileId, Position};
use crate::tokenizer::{is_hspace, is_space, lemma_literal_len_cut, lemma_literal_len_unique,
    literal_len, spec_skip_newlines, spec_tokenize, spec_tokenize_at, BracketTy, Keyword,
    Modifier, Operator, TokenV};

verus! {

/// The token sequence one node renders to.
pub open spec fn render_tokens(s: AstShape) -> Seq<TokenV>
    decreases s,
{
    match s {
        AstShape::Ident(name) => seq![TokenV::Literal(name)],
        AstShape::HexColor(digits) => seq![
            TokenV::Modifier(Modifier::HexColor),
            TokenV::Literal(digits),
        ],
        AstShape::Block(children) => seq![
            TokenV::Bracket { ty: BracketTy::Curvy, open: true },
        ] + render_tokens_seq(children) + seq![TokenV::Bracket { ty: BracketTy::Curvy, open:
            false }],
        AstShape::Element { name, body } => seq![
            TokenV::Keyword(Keyword::Element),
            TokenV::Literal(name),
            TokenV::Bracket { ty: BracketTy::Curvy, open: true },
        ] + render_tokens_seq(body) + seq![TokenV::Bracket { ty: BracketTy::Curvy, open: false }],
        AstShape::VariableAssign { variable, value } => seq![
            TokenV::Literal(variable),
            TokenV::Operator(Operator::Assign),
        ] + render_tokens(*value),
    }
}

/// The token sequence a statement sequence renders to.
pub open spec fn render_tokens_seq(ss: Seq<AstShape>) -> Seq<TokenV>
    decreases ss,
{
    if ss.len() == 0 {
        Seq::empty()
    } else {
        render_tokens(ss[0]) + render_tokens_seq(ss.skip(1))
    }
}

/// The text of one token.
pub open spec fn token_text(t: TokenV) -> Seq<char> {
    match t {
        TokenV::Newline => seq!['\n'],
        TokenV::Keyword(_) => seq!['e', 'l', 'e', 'm', 'e', 'n', 't'],
        TokenV::Operator(_) => seq!['='],
        TokenV::Modifier(_) => seq!['#'],
        TokenV::Bracket { open: true, .. } => seq!['{'],
        TokenV::Bracket { open: false, .. } => seq!['}'],
        TokenV::Literal(l) => l,
    }
}

/// The text a token sequence renders to: each token followed by a space.
pub open spec fn untokenize(ts: Seq<TokenV>) -> Seq<char>
    decreases ts,
{
    if ts.len() == 0 {
        Seq::empty()
    } else {
        token_text(ts[0]) + seq![' '] + untokenize(ts.skip(1))
    }
}

/// A literal that lexes back to itself: non-empty, free of whitespace, not
/// the keyword, and not starting with a marker character.
pub open spec fn wf_lit(s: Seq<char>) -> bool {
    &&& s.len() > 0
    &&& forall|k: int| 0 <= k < s.len() ==> !is_space(#[trigger] s[k])
    &&& s != "element"@
    &&& s[0] != '{'
    &&& s[0] != '}'
    &&& s[0] != '='
    &&& s[0] != '#'
}

/// A tree the renderer can round-trip: its literals are well formed and no
/// assignment stands as another assignment's value (the parser never
/// produces one).
pub open spec fn wf_shape(s: AstShape) -> bool
    decreases s,
{
    match s {
        AstShape::Ident(name) => wf_lit(name),
        AstShape::HexColor(digits) => wf_lit(digits),
        AstShape::Block(children) => wf_shapes(children),
        AstShape::Element { name, body } => wf_lit(name) && wf_shapes(body),
        AstShape::VariableAssign { variable, value } => wf_lit(variable) && !(*value
            is VariableAssign) && wf_shape(*value),
    }
}

/// Every statement of the sequence is well formed.
pub open spec fn wf_shapes(ss: Seq<AstShape>) -> bool
    decreases ss,
{
    if ss.len() == 0 {
        true
    } else {
        wf_shape(ss[0]) && wf_shapes(ss.skip(1))
    }
}

/// A token stream the renderer can emit: no newlines, and every literal
/// well formed.
pub open spec fn wf_tokens(ts: Seq<TokenV>) -> bool {
    forall|k: int| 0 <= k < ts.len() ==> match #[trigger] ts[k] {
        TokenV::Newline => false,
        TokenV::Literal(l) => wf_lit(l),
        _ => true,
    }
}

/// The shapes of a positioned token stream.
pub open spec fn tok_shapes(toks: Seq<(TokenV, Position)>) -> Seq<TokenV> {
    toks.map(|_i: int, tp: (TokenV, Position)| tp.0)
}

/// [`untokenize`] distributes over concatenation.
pub proof fn lemma_untokenize_concat(a: Seq<TokenV>, b: Seq<TokenV>)
    ensures
        untokenize(a + b) == untokenize(a) + untokenize(b),
    decreases a.len(),
{
    if a.len() == 0 {
        assert(a + b =~= b);
        assert(untokenize(a) + untokenize(b) =~= untokenize(b));
    } else {
        lemma_untokenize_concat(a.skip(1), b);
        assert((a + b).skip(1) =~= a.skip(1) + b);
        assert((a + b)[0] == a[0]);
        assert(token_text(a[0]) + seq![' '] + (untokenize(a.skip(1)) + untokenize(b)) =~= (
        token_text(a[0]) + seq![' '] + untokenize(a.skip(1))) + untokenize(b));
    }
}

/// [`wf_shapes`] holds of each element, index by index.
pub proof fn lemma_wf_shapes_index(ss: Seq<AstShape>)
    requires
        wf_shapes(ss),
    ensures
        forall|k: int| 0 <= k < ss.len() ==> wf_shape(#[trigger] ss[k]),
    decreases ss.len(),
{
    if ss.len() > 0 {
        lemma_wf_shapes_index(ss.skip(1));
        assert forall|k: int| 0 <= k < ss.len() implies wf_shape(#[trigger] ss[k]) by {
            if k > 0 {
                assert(wf_shape(ss.skip(1)[k - 1]));
            }
        }
    }
}

/// A rendered node is at least one token long, starts with neither an
/// assignment operator nor a closing bracket, and renders only well-formed
/// tokens.
pub proof fn lemma_render_head(s: AstShape)
    requires
        wf_shape(s),
    ensures
        render_tokens(s).len() >= 1,
        !(render_tokens(s)[0] is Operator),
        !(render_tokens(s)[0] matches TokenV::Bracket { open: false, .. }),
        wf_tokens(render_tokens(s)),
    decreases s,
{
    match s {
        AstShape::Ident(_) => {
        },
        AstShape::HexColor(_) => {
        },
        AstShape::Block(children) => {
            lemma_render_seq_wf(children);
        },
        AstShape::Element { body, .. } => {
            lemma_render_seq_wf(body);
        },
        AstShape::VariableAssign { value, .. } => {
            lemma_render_head(*value);
        },
    }
}

/// A rendered statement sequence renders only well-formed tokens.
pub proof fn lemma_render_seq_wf(ss: Seq<AstShape>)
    requires
        wf_shapes(ss),
    ensures
        wf_tokens(render_tokens_seq(ss)),
    decreases ss,
{
    if ss.len() > 0 {
        lemma_render_head(ss[0]);
        lemma_render_seq_wf(ss.skip(1));
    }
}

/// Dropping newlines from a stream without newlines changes nothing.
pub proof fn lemma_skip_newlines_id(toks: Seq<(TokenV, Position)>)
    requires
        forall|k: int| 0 <= k < toks.len() ==> !((#[trigger] toks[k]).0 is Newline),
    ensures
        spec_skip_newlines(toks) == toks,
    decreases toks.len(),
{
    if toks.len() > 0 {
        lemma_skip_newlines_id(toks.skip(1));
        assert(spec_skip_newlines(toks) =~= toks);
    }
}

/// Lexing the rendering of a well-formed token stream gives back exactly
/// that stream, whatever position the lexer starts at.
pub proof fn lemma_tokenize_untokenize(ts: Seq<TokenV>, file: FileId, offset: int, line: int)
    requires
        wf_tokens(ts),
    ensures
        tok_shapes(spec_tokenize_at(untokenize(ts), file, offset, line)) == ts,
    decreases ts.len(), 0int,
{
    reveal_strlit("element");
    let u = untokenize(ts);
    if ts.len() == 0 {
        assert(tok_shapes(spec_tokenize_at(u, file, offset, line)) =~= ts);
    } else {
        let t0 = ts[0];
        let text = token_text(t0);
        let sep_rest = seq![' '] + untokenize(ts.skip(1));
        assert(u =~= text + sep_rest);
        let n = text.len() as int;
        assert(forall|k: int| 0 <= k < n ==> u[k] == text[k]);
        assert(u[n] == ' ');
        match t0 {
            TokenV::Newline => {
                assert(false);
            },
            TokenV::Literal(l) => {
                assert(!is_space(u[0]) && u[0] != '{' && u[0] != '}' && u[0] != '=' && u[0]
                    != '#' && u[0] != '\n');
                lemma_literal_len_unique(u, n);
                assert(literal_len(u) == 1 + literal_len(u.skip(1)));
                let n_spec = (1 + literal_len(u.skip(1))) as int;
                assert(n_spec == n);
                assert(u.take(n) =~= l);
                assert(u.take(n) != "element"@);
                assert(u.skip(n) =~= sep_rest);
                lemma_step_space(ts.skip(1), file, offset + n, line);
                let rec = spec_tokenize_at(u.skip(n), file, offset + n, line);
                assert(tok_shapes(rec) == ts.skip(1));
                let produced = spec_tokenize_at(u, file, offset, line);
                assert(produced == seq![(t0, Position { file, offset: offset as usize, line:
                    line as usize, length: n as usize })] + rec);
                assert(rec.len() == ts.len() - 1);
                assert_seqs_equal!(tok_shapes(produced) == ts, k => {
                    if k > 0 {
                        assert(tok_shapes(rec)[k - 1] == ts.skip(1)[k - 1]);
                    }
                });
            },
            TokenV::Keyword(kwv) => {
                assert(kwv == Keyword::Element);
                assert(t0 == TokenV::Keyword(Keyword::Element));
                assert(text == "element"@) by {
                    assert(text =~= "element"@);
                }
                assert(!is_space(u[0]) && u[0] != '{' && u[0] != '}' && u[0] != '=' && u[0]
                    != '#' && u[0] != '\n');
                lemma_literal_len_unique(u, n);
                assert(literal_len(u) == 1 + literal_len(u.skip(1)));
                let n_spec = (1 + literal_len(u.skip(1))) as int;
                assert(n_spec == n);
                assert(u.take(n) =~= text);
                assert(u.skip(n) =~= sep_rest);
                lemma_step_space(ts.skip(1), file, offset + n, line);
                let rec = spec_tokenize_at(u.skip(n), file, offset + n, line);
                assert(tok_shapes(rec) == ts.skip(1));
                let produced = spec_tokenize_at(u, file, offset, line);
                assert(produced == seq![(t0, Position { file, offset: offset as usize, line:
                    line as usize, length: n as usize })] + rec);
                assert(rec.len() == ts.len() - 1);
                assert_seqs_equal!(tok_shapes(produced) == ts, k => {
                    if k > 0 {
                        assert(tok_shapes(rec)[k - 1] == ts.skip(1)[k - 1]);
                    }
                });
            },
            _ => {
                // the four single-character tokens
                assert(n == 1);
                assert(u.skip(1) =~= sep_rest);
                lemma_step_space(ts.skip(1), file, offset + 1, line);
                let rec = spec_tokenize_at(u.skip(1), file, offset + 1, line);
                assert(tok_shapes(rec) == ts.skip(1));
                let produced = spec_tokenize_at(u, file, offset, line);
                match t0 {
                    TokenV::Operator(o) => {
                        assert(o == Operator::Assign);
                        assert(u[0] == '=');
                    },
                    TokenV::Modifier(m) => {
                        assert(m == Modifier::HexColor);
                        assert(u[0] == '#');
                    },
                    TokenV::Bracket { ty, .. } => {
                        assert(ty == BracketTy::Curvy);
                    },
                    _ => {
                        assert(false);
                    },
                }
                assert(produced == seq![(t0, Position { file, offset: offset as usize, line:
                    line as usize, length: 1 })] + rec);
                assert(rec.len() == ts.len() - 1);
                assert_seqs_equal!(tok_shapes(produced) == ts, k => {
                    if k > 0 {
                        assert(tok_shapes(rec)[k - 1] == ts.skip(1)[k - 1]);
                    }
                });
            },
        }
    }
}

/// Helper: lexing a space followed by a rendered stream skips the space.
proof fn lemma_step_space(rest: Seq<TokenV>, file: FileId, offset: int, line: int)
    requires
        wf_tokens(rest),
    ensures
        tok_shapes(spec_tokenize_at(seq![' '] + untokenize(rest), file, offset, line)) == rest,
    decreases rest.len(), 1int,
{
    let u = seq![' '] + untokenize(rest);
    assert(u[0] == ' ');
    assert(u.skip(1) =~= untokenize(rest));
    lemma_tokenize_untokenize(rest, file, offset + 1, line);
}


/// Parsing an `element` declaration rendered from a well-formed tree gives
/// that tree back.
proof fn lemma_parse_element_render(s: AstShape, toks: Seq<(TokenV, Position)>, i: int)
    requires
        wf_shape(s),
        s is Element,
        0 <= i,
        i + render_tokens(s).len() <= toks.len(),
        forall|k: int| 0 <= k < render_tokens(s).len() ==> toks[i + k].0 == #[trigger]
            render_tokens(s)[k],
    ensures
        ({
            let out = spec_parse_element(toks, i);
            &&& out.node is Some
            &&& strip(out.node->Some_0) == s
            &&& out.diags == Seq::<(Option<Position>, DiagView)>::empty()
            &&& out.next == i + render_tokens(s).len()
        }),
    decreases s, 0int,
{
    let rt = render_tokens(s);
    let name = s->Element_name;
    let body = s->Element_body;
    let brt = render_tokens_seq(body);
    assert(rt =~= seq![
        TokenV::Keyword(Keyword::Element),
        TokenV::Literal(name),
        TokenV::Bracket { ty: BracketTy::Curvy, open: true },
    ] + brt + seq![TokenV::Bracket { ty: BracketTy::Curvy, open: false }]);
    assert(rt.len() == 4 + brt.len());
    assert(toks[i].0 == rt[0] && rt[0] == TokenV::Keyword(Keyword::Element));
    assert(toks[i + 1].0 == rt[1] && rt[1] == TokenV::Literal(name));
    assert(toks[i + 2].0 == rt[2] && rt[2] == (TokenV::Bracket { ty: BracketTy::Curvy, open:
        true }));
    assert(toks[i + 3 + brt.len()].0 == rt[3 + brt.len() as int] && rt[3 + brt.len() as int]
        == (TokenV::Bracket { ty: BracketTy::Curvy, open: false }));
    assert forall|k: int| 0 <= k < brt.len() implies toks[i + 3 + k].0 == #[trigger] brt[k] by {
        assert(rt[3 + k] == brt[k]);
        assert(toks[i + (3 + k)].0 == rt[3 + k]);
    }
    let open_pos = toks[i + 2].1;
    lemma_parse_stmts_render(body, toks, i + 3, true, open_pos);
    let b = spec_parse_stmts(toks, i + 3, true, open_pos);
    assert(b.next == i + 3 + brt.len() + 1);
    assert(clamp_idx(b.next, i + 3, toks.len() as int) == b.next);
    let out = spec_parse_element(toks, i);
    assert(out.node == Some(AstV::Element {
        name,
        name_pos: toks[i + 1].1,
        nodes: b.nodes,
        body_pos: open_pos.span_to(b.close_pos),
    }));
    assert(strip(out.node->Some_0) == (AstShape::Element { name, body: strips(b.nodes) }));
}

/// Parsing a value rendered from a well-formed non-assignment tree gives
/// that tree back, consuming exactly its tokens and reporting nothing.
proof fn lemma_parse_value_render(s: AstShape, toks: Seq<(TokenV, Position)>, i: int)
    requires
        wf_shape(s),
        !(s is VariableAssign),
        0 <= i,
        i + render_tokens(s).len() <= toks.len(),
        forall|k: int| 0 <= k < render_tokens(s).len() ==> toks[i + k].0 == #[trigger]
            render_tokens(s)[k],
    ensures
        ({
            let out = spec_parse_value(toks, i);
            &&& out.node is Some
            &&& strip(out.node->Some_0) == s
            &&& out.diags == Seq::<(Option<Position>, DiagView)>::empty()
            &&& out.next == i + render_tokens(s).len()
        }),
    decreases s, 1int,
{
    let rt = render_tokens(s);
    match s {
        AstShape::Ident(name) => {
            assert(toks[i].0 == rt[0] && rt[0] == TokenV::Literal(name));
        },
        AstShape::HexColor(digits) => {
            assert(toks[i].0 == rt[0] && rt[0] == TokenV::Modifier(Modifier::HexColor));
            assert(toks[i + 1].0 == rt[1] && rt[1] == TokenV::Literal(digits));
        },
        AstShape::Block(children) => {
            let brt = render_tokens_seq(children);
            assert(rt =~= seq![TokenV::Bracket { ty: BracketTy::Curvy, open: true }] + brt
                + seq![TokenV::Bracket { ty: BracketTy::Curvy, open: false }]);
            assert(toks[i].0 == rt[0] && rt[0] == (TokenV::Bracket { ty: BracketTy::Curvy, open:
                true }));
            assert(toks[i + 1 + brt.len()].0 == rt[1 + brt.len() as int] && rt[1 + brt.len() as int]
                == (TokenV::Bracket { ty: BracketTy::Curvy, open: false }));
            assert forall|k: int| 0 <= k < brt.len() implies toks[i + 1 + k].0 == #[trigger]
                brt[k] by {
                assert(rt[1 + k] == brt[k]);
                assert(toks[i + (1 + k)].0 == rt[1 + k]);
            }
            let open_pos = toks[i].1;
            lemma_parse_stmts_render(children, toks, i + 1, true, open_pos);
            let b = spec_parse_stmts(toks, i + 1, true, open_pos);
            assert(clamp_idx(b.next, i + 1, toks.len() as int) == b.next);
            let out = spec_parse_value(toks, i);
            assert(strip(out.node->Some_0) == (AstShape::Block(strips(b.nodes))));
        },
        AstShape::Element { .. } => {
            assert(toks[i].0 == rt[0] && rt[0] == TokenV::Keyword(Keyword::Element));
            assert(toks[i + 1].0 == rt[1] && rt[1] == TokenV::Literal(s->Element_name));
            lemma_parse_element_render(s, toks, i);
        },
        AstShape::VariableAssign { .. } => {
            assert(false);
        },
    }
}

/// Parsing a statement rendered from a well-formed tree gives that tree
/// back, provided no stray assignment operator follows it.
proof fn lemma_parse_stmt_render(s: AstShape, toks: Seq<(TokenV, Position)>, i: int)
    requires
        wf_shape(s),
        0 <= i,
        i + render_tokens(s).len() <= toks.len(),
        forall|k: int| 0 <= k < render_tokens(s).len() ==> toks[i + k].0 == #[trigger]
            render_tokens(s)[k],
        i + render_tokens(s).len() == toks.len() || !(toks[i + render_tokens(s).len()].0
            is Operator),
    ensures
        ({
            let out = spec_parse_stmt(toks, i);
            &&& out.node is Some
            &&& strip(out.node->Some_0) == s
            &&& out.diags == Seq::<(Option<Position>, DiagView)>::empty()
            &&& out.next == i + render_tokens(s).len()
        }),
    decreases s, 2int,
{
    let rt = render_tokens(s);
    match s {
        AstShape::Ident(name) => {
            assert(toks[i].0 == rt[0] && rt[0] == TokenV::Literal(name));
            if i + 1 < toks.len() {
                assert(!(toks[i + 1].0 is Operator));
            }
        },
        AstShape::HexColor(digits) => {
            assert(toks[i].0 == rt[0] && rt[0] == TokenV::Modifier(Modifier::HexColor));
            assert(toks[i + 1].0 == rt[1] && rt[1] == TokenV::Literal(digits));
        },
        AstShape::Block(children) => {
            let brt = render_tokens_seq(children);
            assert(rt =~= seq![TokenV::Bracket { ty: BracketTy::Curvy, open: true }] + brt
                + seq![TokenV::Bracket { ty: BracketTy::Curvy, open: false }]);
            assert(toks[i].0 == rt[0] && rt[0] == (TokenV::Bracket { ty: BracketTy::Curvy, open:
                true }));
            assert(toks[i + 1 + brt.len()].0 == rt[1 + brt.len() as int] && rt[1 + brt.len() as int]
                == (TokenV::Bracket { ty: BracketTy::Curvy, open: false }));
            assert forall|k: int| 0 <= k < brt.len() implies toks[i + 1 + k].0 == #[trigger]
                brt[k] by {
                assert(rt[1 + k] == brt[k]);
                assert(toks[i + (1 + k)].0 == rt[1 + k]);
            }
            let open_pos = toks[i].1;
            lemma_parse_stmts_render(children, toks, i + 1, true, open_pos);
            let b = spec_parse_stmts(toks, i + 1, true, open_pos);
            assert(clamp_idx(b.next, i + 1, toks.len() as int) == b.next);
            let out = spec_parse_stmt(toks, i);
            assert(strip(out.node->Some_0) == (AstShape::Block(strips(b.nodes))));
        },
        AstShape::Element { .. } => {
            assert(toks[i].0 == rt[0] && rt[0] == TokenV::Keyword(Keyword::Element));
            lemma_parse_element_render(s, toks, i);
        },
        AstShape::VariableAssign { variable, value } => {
            let vrt = render_tokens(*value);
            assert(rt =~= seq![TokenV::Literal(variable), TokenV::Operator(Operator::Assign)]
                + vrt);
            assert(toks[i].0 == rt[0] && rt[0] == TokenV::Literal(variable));
            assert(toks[i + 1].0 == rt[1] && rt[1] == TokenV::Operator(Operator::Assign));
            assert forall|k: int| 0 <= k < vrt.len() implies toks[i + 2 + k].0 == #[trigger]
                vrt[k] by {
                assert(rt[2 + k] == vrt[k]);
                assert(toks[i + (2 + k)].0 == rt[2 + k]);
            }
            lemma_render_head(*value);
            lemma_parse_value_render(*value, toks, i + 2);
            let v = spec_parse_value(toks, i + 2);
            assert(v.next == i + rt.len());
            assert(clamp_idx(v.next, i + 2, toks.len() as int) == v.next);
            let out = spec_parse_stmt(toks, i);
            assert(out.node == Some(AstV::VariableAssign {
                variable,
                var_pos: toks[i as int].1,
                value: Box::new(v.node->Some_0),
            }));
            assert(strip(out.node->Some_0) == (AstShape::VariableAssign {
                variable,
                value: Box::new(strip(v.node->Some_0)),
            }));
        },
    }
}

/// Parsing a statement sequence rendered from well-formed trees gives the
/// trees back: the whole file when `closing` is false and the input ends
/// with the rendering, or a brace block's body when a `}` follows it.
proof fn lemma_parse_stmts_render(ss: Seq<AstShape>, toks: Seq<(TokenV, Position)>, i: int,
    closing: bool, open_pos: Position)
    requires
        wf_shapes(ss),
        0 <= i,
        closing ==> i + render_tokens_seq(ss).len() < toks.len() && toks[i + render_tokens_seq(
            ss).len()].0 matches TokenV::Bracket { open: false, .. },
        !closing ==> i + render_tokens_seq(ss).len() == toks.len(),
        forall|k: int| 0 <= k < render_tokens_seq(ss).len() ==> toks[i + k].0 == #[trigger]
            render_tokens_seq(ss)[k],
    ensures
        ({
            let out = spec_parse_stmts(toks, i, closing, open_pos);
            &&& strips(out.nodes) == ss
            &&& out.diags == Seq::<(Option<Position>, DiagView)>::empty()
            &&& out.next == i + render_tokens_seq(ss).len() + if closing {
                1int
            } else {
                0int
            }
            &&& closing ==> out.close_pos == toks[i + render_tokens_seq(ss).len()].1
        }),
    decreases ss, 3int,
{
    let rts = render_tokens_seq(ss);
    let out = spec_parse_stmts(toks, i, closing, open_pos);
    if ss.len() == 0 {
        assert(rts.len() == 0);
        if closing {
            assert(strips(out.nodes) =~= ss);
        } else {
            assert(i >= toks.len());
            assert(strips(out.nodes) =~= ss);
        }
    } else {
        let s0 = ss[0];
        let rt0 = render_tokens(s0);
        let rest_ss = ss.skip(1);
        let rts_rest = render_tokens_seq(rest_ss);
        assert(rts == rt0 + rts_rest);
        lemma_render_head(s0);
        assert forall|k: int| 0 <= k < rt0.len() implies toks[i + k].0 == #[trigger] rt0[k] by {
            assert(rts[k] == rt0[k]);
        }
        // the follower of the first statement is never an assignment operator
        if rts_rest.len() > 0 {
            lemma_wf_shapes_index(ss);
            assert(wf_shapes(rest_ss));
            if rest_ss.len() > 0 {
                lemma_render_head(rest_ss[0]);
                assert(rts_rest[0] == render_tokens(rest_ss[0])[0]);
                assert(rts[rt0.len() as int] == rts_rest[0]);
                assert(toks[i + rt0.len()].0 == rts[rt0.len() as int]);
                assert(!(toks[i + rt0.len()].0 is Operator));
            }
        } else {
            if closing {
                assert(toks[i + rt0.len()].0 matches TokenV::Bracket { open: false, .. });
            }
        }
        lemma_parse_stmt_render(s0, toks, i);
        let st = spec_parse_stmt(toks, i);
        assert(i < toks.len()) by {
            assert(rt0.len() >= 1);
        }
        assert(!(toks[i].0 matches TokenV::Bracket { open: false, .. })) by {
            assert(toks[i].0 == rt0[0]);
        }
        let j = clamp_idx(st.next, i + 1, toks.len() as int);
        assert(j == i + rt0.len());
        assert forall|k: int| 0 <= k < rts_rest.len() implies toks[j + k].0 == #[trigger]
            rts_rest[k] by {
            assert(rts[rt0.len() + k] == rts_rest[k]);
            assert(toks[i + (rt0.len() + k)].0 == rts[rt0.len() + k]);
        }
        lemma_parse_stmts_render(rest_ss, toks, j, closing, open_pos);
        let rest = spec_parse_stmts(toks, j, closing, open_pos);
        assert(out.nodes == seq![st.node->Some_0] + rest.nodes);
        crate::ast::lemma_strips_index(out.nodes);
        crate::ast::lemma_strips_index(rest.nodes);
        assert forall|k: int| 0 <= k < out.nodes.len() implies #[trigger] strips(out.nodes)[k]
            == ss[k] by {
            assert(strips(out.nodes)[k] == strip(out.nodes[k]));
            if k > 0 {
                assert(out.nodes[k] == rest.nodes[k - 1]);
                assert(strips(rest.nodes)[k - 1] == strip(rest.nodes[k - 1]));
                assert(rest_ss[k - 1] == ss[k]);
            }
        }
        assert(strips(out.nodes).len() == ss.len());
        assert(strips(out.nodes) =~= ss);
        assert(out.diags =~= Seq::<(Option<Position>, DiagView)>::empty());
    }
}


/// Round-trip idempotence: lexing and parsing the rendering of any
/// well-formed statement sequence yields an equal sequence of syntax
/// trees (positions aside) and reports no diagnostic at all.
pub proof fn lemma_parse_render_round_trip(ss: Seq<AstShape>, file: FileId)
    requires
        wf_shapes(ss),
    ensures
        ({
            let out = spec_generate(untokenize(render_tokens_seq(ss)), file);
            &&& strips(out.nodes) == ss
            &&& out.diags == Seq::<(Option<Position>, DiagView)>::empty()
        }),
{
    let rts = render_tokens_seq(ss);
    let text = untokenize(rts);
    lemma_render_seq_wf(ss);
    lemma_tokenize_untokenize(rts, file, 0, 1);
    let raw = spec_tokenize(text, file);
    assert(tok_shapes(raw) == rts);
    assert(raw.len() == rts.len());
    assert forall|k: int| 0 <= k < raw.len() implies !((#[trigger] raw[k]).0 is Newline) by {
        assert(tok_shapes(raw)[k] == raw[k].0);
        assert(wf_tokens(rts));
    }
    lemma_skip_newlines_id(raw);
    assert forall|k: int| 0 <= k < rts.len() implies raw[k].0 == #[trigger] rts[k] by {
        assert(tok_shapes(raw)[k] == raw[k].0);
    }
    lemma_parse_stmts_render(ss, raw, 0, false, Position::top_of_spec(file));
}

/// One token renders as its text plus the separating space.
pub proof fn lemma_untokenize_one(t: TokenV)
    ensures
        untokenize(seq![t]) == token_text(t) + seq![' '],
{
    let s = seq![t];
    assert(s.skip(1) =~= Seq::<TokenV>::empty());
    assert(untokenize(Seq::<TokenV>::empty()) =~= Seq::<char>::empty());
    assert(untokenize(s) =~= token_text(t) + seq![' ']);
}

/// Writes one node's rendering onto `out`: its tokens, each followed by a
/// space.
fn render_node(a: &Ast, out: &mut String)
    ensures
        final(out)@ == old(out)@ + untokenize(render_tokens(strip(a@))),
    decreases *a, 0int,
{
    let ghost start = out@;
    match a {
        Ast::Ident(i) => {
            out.append(i.object.as_str());
            out.append(" ");
            proof {
                reveal_strlit(" ");
                assert(" "@ =~= seq![' ']);
                let rt = render_tokens(strip(a@));
                assert(rt == seq![TokenV::Literal(i.object@)]);
                lemma_untokenize_one(TokenV::Literal(i.object@));
                assert(out@ =~= start + untokenize(rt));
            }
        },
        Ast::HexColor(c) => {
            out.append("#");
            out.append(" ");
            out.append(c.object.as_str());
            out.append(" ");
            proof {
                reveal_strlit(" ");
                reveal_strlit("#");
                assert(" "@ =~= seq![' ']);
                assert("#"@ =~= seq!['#']);
                let rt = render_tokens(strip(a@));
                assert(rt =~= seq![TokenV::Modifier(Modifier::HexColor)] + seq![TokenV::Literal(
                    c.object@)]);
                lemma_untokenize_concat(seq![TokenV::Modifier(Modifier::HexColor)], seq![
                    TokenV::Literal(c.object@)]);
                lemma_untokenize_one(TokenV::Modifier(Modifier::HexColor));
                lemma_untokenize_one(TokenV::Literal(c.object@));
                assert(out@ =~= start + untokenize(rt));
            }
        },
        Ast::Block(b) => {
            out.append("{");
            out.append(" ");
            render_nodes(&b.object, 0, out);
            out.append("}");
            out.append(" ");
            proof {
                reveal_strlit(" ");
                reveal_strlit("{");
                reveal_strlit("}");
                assert(" "@ =~= seq![' ']);
                assert("{"@ =~= seq!['{']);
                assert("}"@ =~= seq!['}']);
                let children = strips(asts_view(b.object@));
                assert(children.skip(0) =~= children);
                let rt = render_tokens(strip(a@));
                let open_tok = seq![TokenV::Bracket { ty: BracketTy::Curvy, open: true }];
                let close_tok = seq![TokenV::Bracket { ty: BracketTy::Curvy, open: false }];
                assert(rt == open_tok + render_tokens_seq(children) + close_tok);
                lemma_untokenize_concat(open_tok + render_tokens_seq(children), close_tok);
                lemma_untokenize_concat(open_tok, render_tokens_seq(children));
                lemma_untokenize_one(TokenV::Bracket { ty: BracketTy::Curvy, open: true });
                lemma_untokenize_one(TokenV::Bracket { ty: BracketTy::Curvy, open: false });
                assert(out@ =~= start + untokenize(rt));
            }
        },
        Ast::Element { name, body } => {
            out.append("element");
            out.append(" ");
            out.append(name.object.as_str());
            out.append(" ");
            out.append("{");
            out.append(" ");
            render_nodes(&body.object, 0, out);
            out.append("}");
            out.append(" ");
            proof {
                reveal_strlit(" ");
                reveal_strlit("{");
                reveal_strlit("}");
                reveal_strlit("element");
                assert(" "@ =~= seq![' ']);
                assert("{"@ =~= seq!['{']);
                assert("}"@ =~= seq!['}']);
                assert("element"@ =~= seq!['e', 'l', 'e', 'm', 'e', 'n', 't']);
                let children = strips(asts_view(body.object@));
                assert(children.skip(0) =~= children);
                let rt = render_tokens(strip(a@));
                let head = seq![
                    TokenV::Keyword(Keyword::Element),
                    TokenV::Literal(name.object@),
                    TokenV::Bracket { ty: BracketTy::Curvy, open: true },
                ];
                let close_tok = seq![TokenV::Bracket { ty: BracketTy::Curvy, open: false }];
                assert(rt == head + render_tokens_seq(children) + close_tok);
                lemma_untokenize_concat(head + render_tokens_seq(children), close_tok);
                lemma_untokenize_concat(head, render_tokens_seq(children));
                assert(head =~= seq![TokenV::Keyword(Keyword::Element)] + seq![TokenV::Literal(
                    name.object@)] + seq![TokenV::Bracket { ty: BracketTy::Curvy, open: true }]);
                lemma_untokenize_concat(seq![TokenV::Keyword(Keyword::Element)] + seq![
                    TokenV::Literal(name.object@)], seq![TokenV::Bracket { ty: BracketTy::Curvy,
                    open: true }]);
                lemma_untokenize_concat(seq![TokenV::Keyword(Keyword::Element)], seq![
                    TokenV::Literal(name.object@)]);
                lemma_untokenize_one(TokenV::Keyword(Keyword::Element));
                lemma_untokenize_one(TokenV::Literal(name.object@));
                lemma_untokenize_one(TokenV::Bracket { ty: BracketTy::Curvy, open: true });
                lemma_untokenize_one(TokenV::Bracket { ty: BracketTy::Curvy, open: false });
                assert(out@ =~= start + untokenize(rt));
            }
        },
        Ast::VariableAssign { variable, value } => {
            out.append(variable.object.as_str());
            out.append(" ");
            out.append("=");
            out.append(" ");
            render_node(value, out);
            proof {
                reveal_strlit(" ");
                reveal_strlit("=");
                assert(" "@ =~= seq![' ']);
                assert("="@ =~= seq!['=']);
                let rt = render_tokens(strip(a@));
                let head = seq![
                    TokenV::Literal(variable.object@),
                    TokenV::Operator(Operator::Assign),
                ];
                assert(rt == head + render_tokens(strip(crate::ast::ast_view(**value))));
                lemma_untokenize_concat(head, render_tokens(strip(crate::ast::ast_view(
                    **value))));
                assert(head =~= seq![TokenV::Literal(variable.object@)] + seq![TokenV::Operator(
                    Operator::Assign)]);
                lemma_untokenize_concat(seq![TokenV::Literal(variable.object@)], seq![
                    TokenV::Operator(Operator::Assign)]);
                lemma_untokenize_one(TokenV::Literal(variable.object@));
                lemma_untokenize_one(TokenV::Operator(Operator::Assign));
                assert(out@ =~= start + untokenize(rt));
            }
        },
    }
}

/// Writes the renderings of the statements from `i` on onto `out`.
fn render_nodes(v: &Vec<Ast>, i: usize, out: &mut String)
    requires
        i <= v@.len(),
    ensures
        final(out)@ == old(out)@ + untokenize(render_tokens_seq(strips(asts_view(v@)).skip(i as
            int))),
    decreases v@, v@.len() - i,
{
    let ghost start = out@;
    let ghost ss = strips(asts_view(v@));
    proof {
        crate::ast::lemma_asts_view_index(v@);
        crate::ast::lemma_strips_index(asts_view(v@));
    }
    if i < v.len() {
        render_node(&v[i], out);
        render_nodes(v, i + 1, out);
        proof {
            assert(ss.skip(i as int)[0] == ss[i as int]);
            assert(ss[i as int] == strip(crate::ast::ast_view(v@[i as int])));
            assert(ss.skip(i as int).skip(1) =~= ss.skip(i + 1));
            let rts = render_tokens_seq(ss.skip(i as int));
            assert(rts == render_tokens(ss[i as int]) + render_tokens_seq(ss.skip(i + 1)));
            lemma_untokenize_concat(render_tokens(ss[i as int]), render_tokens_seq(ss.skip(i
                + 1)));
            assert(out@ =~= start + untokenize(rts));
        }
    } else {
        proof {
            assert(ss.skip(i as int).len() == 0);
            assert(out@ =~= start + untokenize(render_tokens_seq(ss.skip(i as int))));
        }
    }
}

/// Renders a sequence of top-level statements back to minimal source
/// text: every token of every tree, each followed by one space.
pub fn render(asts: &Vec<Ast>) -> (r: String)
    ensures
        r@ == untokenize(render_tokens_seq(strips(asts_view(asts@)))),
{
    let mut out = String::new();
    render_nodes(asts, 0, &mut out);
    proof {
        assert(strips(asts_view(asts@)).skip(0) =~= strips(asts_view(asts@)));
    }
    out
}


/// Every literal token in a stream is a well-formed literal run.
pub open spec fn literals_wf(ts: Seq<(TokenV, Position)>) -> bool {
    forall|k: int| 0 <= k < ts.len() ==> match (#[trigger] ts[k]).0 {
        TokenV::Literal(l) => wf_lit(l),
        _ => true,
    }
}

/// The lexer only ever produces well-formed literal runs: non-empty,
/// whitespace-free, not the keyword, and not starting with a marker.
pub proof fn lemma_tokenize_literals_wf(code: Seq<char>, file: FileId, offset: int, line: int)
    ensures
        literals_wf(spec_tokenize_at(code, file, offset, line)),
    decreases code.len(),
{
    reveal_strlit("element");
    let out = spec_tokenize_at(code, file, offset, line);
    if code.len() == 0 {
    } else if is_hspace(code[0]) {
        lemma_tokenize_literals_wf(code.skip(1), file, offset + 1, line);
    } else if code[0] == '\n' || code[0] == '{' || code[0] == '}' || code[0] == '=' || code[0]
        == '#' {
        lemma_tokenize_literals_wf(code.skip(1), file, offset + 1, line);
        let rec = if code[0] == '\n' {
            spec_tokenize_at(code.skip(1), file, offset + 1, line + 1)
        } else {
            spec_tokenize_at(code.skip(1), file, offset + 1, line)
        };
        if code[0] == '\n' {
            lemma_tokenize_literals_wf(code.skip(1), file, offset + 1, line + 1);
        }
        assert forall|k: int| 0 <= k < out.len() implies match (#[trigger] out[k]).0 {
            TokenV::Literal(l) => wf_lit(l),
            _ => true,
        } by {
            if k > 0 {
                assert(out[k] == rec[k - 1]);
            }
        }
    } else {
        lemma_literal_len_cut(code);
        lemma_literal_len_cut(code.skip(1));
        let n = (1 + literal_len(code.skip(1))) as int;
        assert(literal_len(code) == n);
        assert(1 <= n <= code.len());
        let text = code.take(n);
        lemma_tokenize_literals_wf(code.skip(n), file, offset + n, line);
        let rec = spec_tokenize_at(code.skip(n), file, offset + n, line);
        if text != "element"@ {
            assert(wf_lit(text)) by {
                assert(text.len() == n >= 1);
                assert forall|j: int| 0 <= j < text.len() implies !is_space(#[trigger] text[j])
                    by {
                    assert(text[j] == code[j]);
                    assert(!is_space(code[j]));
                }
                assert(text[0] == code[0]);
            }
        }
        assert forall|k: int| 0 <= k < out.len() implies match (#[trigger] out[k]).0 {
            TokenV::Literal(l) => wf_lit(l),
            _ => true,
        } by {
            if k > 0 {
                assert(out[k] == rec[k - 1]);
            }
        }
    }
}

/// Dropping newlines from a stream of well-formed literals leaves a
/// stream the renderer could have emitted.
pub proof fn lemma_skip_newlines_wf(toks: Seq<(TokenV, Position)>)
    requires
        literals_wf(toks),
    ensures
        wf_tokens(tok_shapes(spec_skip_newlines(toks))),
    decreases toks.len(),
{
    let out = spec_skip_newlines(toks);
    if toks.len() == 0 {
    } else {
        assert(literals_wf(toks.skip(1))) by {
            assert forall|k: int| 0 <= k < toks.skip(1).len() implies match (#[trigger] toks.skip(
                1)[k]).0 {
                TokenV::Literal(l) => wf_lit(l),
                _ => true,
            } by {
                assert(toks.skip(1)[k] == toks[k + 1]);
            }
        }
        lemma_skip_newlines_wf(toks.skip(1));
        let rec = spec_skip_newlines(toks.skip(1));
        if toks[0].0 is Newline {
            assert(out =~= rec);
        } else {
            assert forall|k: int| 0 <= k < tok_shapes(out).len() implies match #[trigger]
                tok_shapes(out)[k] {
                TokenV::Newline => false,
                TokenV::Literal(l) => wf_lit(l),
                _ => true,
            } by {
                assert(tok_shapes(out)[k] == out[k].0);
                if k == 0 {
                    assert(out[0] == toks[0]);
                } else {
                    assert(out[k] == rec[k - 1]);
                    assert(tok_shapes(rec)[k - 1] == rec[k - 1].0);
                }
            }
        }
    }
}

/// An `element` declaration parsed from well-formed tokens is itself
/// well-formed.
proof fn lemma_parse_element_wf(toks: Seq<(TokenV, Position)>, i: int)
    requires
        wf_tokens(tok_shapes(toks)),
    ensures
        ({
            let out = spec_parse_element(toks, i);
            out.node matches Some(n) ==> wf_shape(strip(n)) && strip(n) is Element
        }),
    decreases toks.len() - i, 0int,
{
    if 0 <= i && i + 1 < toks.len() && toks[i + 1].0 is Literal {
        assert(tok_shapes(toks)[i + 1] == toks[i + 1].0);
        if i + 2 < toks.len() && toks[i + 2].0 == (TokenV::Bracket { ty:
            crate::tokenizer::BracketTy::Curvy, open: true }) {
            lemma_parse_stmts_wf(toks, i + 3, true, toks[i + 2].1);
        } else {
            assert(wf_shapes(Seq::<AstShape>::empty()));
            assert(strips(Seq::<AstV>::empty()) =~= Seq::<AstShape>::empty());
        }
    }
}

/// A value parsed from well-formed tokens is well-formed and never an
/// assignment.
proof fn lemma_parse_value_wf(toks: Seq<(TokenV, Position)>, i: int)
    requires
        wf_tokens(tok_shapes(toks)),
    ensures
        ({
            let out = spec_parse_value(toks, i);
            out.node matches Some(n) ==> wf_shape(strip(n)) && !(strip(n) is VariableAssign)
        }),
    decreases toks.len() - i, 1int,
{
    if 0 <= i && i < toks.len() {
        assert(tok_shapes(toks)[i] == toks[i].0);
        match toks[i].0 {
            TokenV::Bracket { open: true, .. } => {
                lemma_parse_stmts_wf(toks, i + 1, true, toks[i].1);
            },
            TokenV::Keyword(_) => {
                if i + 1 < toks.len() && toks[i + 1].0 is Literal {
                    lemma_parse_element_wf(toks, i);
                }
            },
            TokenV::Modifier(_) => {
                if i + 1 < toks.len() && toks[i + 1].0 is Literal {
                    assert(tok_shapes(toks)[i + 1] == toks[i + 1].0);
                }
            },
            _ => {
            },
        }
    }
}

/// A statement parsed from well-formed tokens is well-formed.
proof fn lemma_parse_stmt_wf(toks: Seq<(TokenV, Position)>, i: int)
    requires
        wf_tokens(tok_shapes(toks)),
    ensures
        ({
            let out = spec_parse_stmt(toks, i);
            out.node matches Some(n) ==> wf_shape(strip(n))
        }),
    decreases toks.len() - i, 2int,
{
    if 0 <= i && i < toks.len() {
        assert(tok_shapes(toks)[i] == toks[i].0);
        match toks[i].0 {
            TokenV::Bracket { open: true, .. } => {
                lemma_parse_stmts_wf(toks, i + 1, true, toks[i].1);
            },
            TokenV::Keyword(_) => {
                lemma_parse_element_wf(toks, i);
            },
            TokenV::Modifier(_) => {
                if i + 1 < toks.len() && toks[i + 1].0 is Literal {
                    assert(tok_shapes(toks)[i + 1] == toks[i + 1].0);
                }
            },
            TokenV::Literal(_) => {
                if i + 1 < toks.len() && toks[i + 1].0 is Operator {
                    lemma_parse_value_wf(toks, i + 2);
                }
            },
            _ => {
            },
        }
    }
}

/// A statement sequence parsed from well-formed tokens is well-formed.
proof fn lemma_parse_stmts_wf(toks: Seq<(TokenV, Position)>, i: int, closing: bool, open_pos:
    Position)
    requires
        wf_tokens(tok_shapes(toks)),
    ensures
        wf_shapes(strips(spec_parse_stmts(toks, i, closing, open_pos).nodes)),
    decreases toks.len() - i, 3int,
{
    let out = spec_parse_stmts(toks, i, closing, open_pos);
    if i < 0 || i >= toks.len() {
        assert(strips(out.nodes) =~= Seq::<AstShape>::empty());
    } else {
        match toks[i].0 {
            TokenV::Bracket { open: false, .. } => {
                if closing {
                    assert(strips(out.nodes) =~= Seq::<AstShape>::empty());
                } else {
                    lemma_parse_stmts_wf(toks, i + 1, closing, open_pos);
                }
            },
            _ => {
                lemma_parse_stmt_wf(toks, i);
                let s = spec_parse_stmt(toks, i);
                let j = clamp_idx(s.next, i + 1, toks.len() as int);
                lemma_parse_stmts_wf(toks, j, closing, open_pos);
                let rest = spec_parse_stmts(toks, j, closing, open_pos);
                match s.node {
                    Some(n) => {
                        crate::ast::lemma_strips_index(out.nodes);
                        assert(out.nodes[0] == n);
                        assert(strips(out.nodes)[0] == strip(n));
                        assert(strips(out.nodes).skip(1) =~= strips(rest.nodes)) by {
                            crate::ast::lemma_strips_index(rest.nodes);
                            assert forall|k: int| 0 <= k < rest.nodes.len() implies strips(
                                out.nodes).skip(1)[k] == strips(rest.nodes)[k] by {
                                assert(out.nodes[k + 1] == rest.nodes[k]);
                            }
                        }
                    },
                    None => {
                        assert(out.nodes =~= rest.nodes);
                    },
                }
            },
        }
    }
}

/// Everything a parse produces is well-formed, so the round-trip law
/// covers every parser output.
pub proof fn lemma_generate_wf(code: Seq<char>, file: FileId)
    ensures
        wf_shapes(strips(spec_generate(code, file).nodes)),
{
    lemma_tokenize_literals_wf(code, file, 0, 1);
    lemma_skip_newlines_wf(spec_tokenize(code, file));
    lemma_parse_stmts_wf(spec_skip_newlines(spec_tokenize(code, file)), 0, false,
        Position::top_of_spec(file));
}

/// Round-trip idempotence for parser output: re-parsing the rendering of
/// the trees any parse produced yields equal trees (positions aside) and
/// no diagnostics at all.
pub proof fn lemma_round_trip_of_parse(code: Seq<char>, file: FileId, refile: FileId)
    ensures
        ({
            let first = strips(spec_generate(code, file).nodes);
            let again = spec_generate(untokenize(render_tokens_seq(first)), refile);
            &&& strips(again.nodes) == first
            &&& again.diags == Seq::<(Option<Position>, DiagView)>::empty()
        }),
{
    lemma_generate_wf(code, file);
    lemma_parse_render_round_trip(strips(spec_generate(code, file).nodes), refile);
}

} // verus!
