//! Lexing: raw source text to a flat stream of positioned tokens.
//!
//! Horizontal whitespace separates tokens and is dropped; newlines produce
//! their own tokens so that a consumer may treat them as separators or skip
//! them.  `{`, `}`, `=` and `#` are single-character tokens; any other run
//! of non-whitespace characters is a literal, except the exact run
//! `element`, which is the language's one keyword.

use vstd::prelude::*;

use crate::position::{FileId, Position};
use crate::text::str_eq;

verus! {

#[derive(Debug, Clone, Copy, PartialEq, Eq, Structural)]
pub enum Keyword {
    Element,
}

impl Keyword {
    pub fn variant_name(self) -> (r: &'static str)
        ensures
            r@ == "Element"@,
    {
        "Element"
    }
}

#[derive(Debug, Clone, Copy, PartialEq, Eq, Structural)]
pub enum Operator {
    Assign,
}

impl Operator {
    pub fn variant_name(self) -> (r: &'static str)
        ensures
            r@ == "Assign"@,
    {
        "Assign"
    }
}

#[derive(Debug, Clone, Copy, PartialEq, Eq, Structural)]
pub enum Modifier {
    HexColor,
}

impl Modifier {
    pub fn variant_name(self) -> (r: &'static str)
        ensures
            r@ == "HexColor"@,
    {
        "HexColor"
    }
}

#[derive(Debug, Clone, Copy, PartialEq, Eq, Structural)]
pub enum BracketTy {
    Curvy,
}

impl BracketTy {
    pub fn variant_name(self) -> (r: &'static str)
        ensures
            r@ == "Curvy"@,
    {
        "Curvy"
    }
}

/// One lexed token.
#[derive(Debug, Clone)]
pub enum Token {
    Newline,
    Keyword(Keyword),
    Operator(Operator),
    Modifier(Modifier),
    Bracket { ty: BracketTy, open: bool },
    Literal(String),
}

/// Spec-level shape of a [`Token`], with the literal text as a character
/// sequence.
pub enum TokenV {
    Newline,
    Keyword(Keyword),
    Operator(Operator),
    Modifier(Modifier),
    Bracket { ty: BracketTy, open: bool },
    Literal(Seq<char>),
}

impl View for Token {
    type V = TokenV;

    open spec fn view(&self) -> TokenV {
        match self {
            Token::Newline => TokenV::Newline,
            Token::Keyword(k) => TokenV::Keyword(*k),
            Token::Operator(o) => TokenV::Operator(*o),
            Token::Modifier(m) => TokenV::Modifier(*m),
            Token::Bracket { ty, open } => TokenV::Bracket { ty: *ty, open: *open },
            Token::Literal(l) => TokenV::Literal(l@),
        }
    }
}

/// The view of a token stream: each token's shape beside its position.
pub open spec fn toks_view(toks: Seq<(Token, Position)>) -> Seq<(TokenV, Position)> {
    toks.map(|_i: int, tp: (Token, Position)| (tp.0@, tp.1))
}

/// Whitespace that separates tokens without producing one.
pub open spec fn is_hspace(c: char) -> bool {
    c == ' ' || c == '\t' || c == '\r' || c == '\x0c'
}

/// Any whitespace, token-separating or newline.
pub open spec fn is_space(c: char) -> bool {
    is_hspace(c) || c == '\n'
}

/// Executable test for [`is_hspace`].
pub fn hspace_char(c: char) -> (r: bool)
    ensures
        r == is_hspace(c),
{
    c == ' ' || c == '\t' || c == '\r' || c == '\x0c'
}

/// Executable test for [`is_space`].
pub fn space_char(c: char) -> (r: bool)
    ensures
        r == is_space(c),
{
    hspace_char(c) || c == '\n'
}

/// Length of the maximal literal run at the head of `code`: its prefix of
/// non-whitespace characters.
pub open spec fn literal_len(code: Seq<char>) -> nat
    decreases code.len(),
{
    if code.len() == 0 || is_space(code[0]) {
        0
    } else {
        1 + literal_len(code.skip(1))
    }
}

/// [`literal_len`] is the unique cut: everything before it is
/// non-whitespace and it stops at the end or at whitespace.
pub proof fn lemma_literal_len_cut(code: Seq<char>)
    ensures
        literal_len(code) <= code.len(),
        forall|k: int| 0 <= k < literal_len(code) ==> !is_space(#[trigger] code[k]),
        literal_len(code) == code.len() || is_space(code[literal_len(code) as int]),
    decreases code.len(),
{
    if code.len() == 0 || is_space(code[0]) {
    } else {
        lemma_literal_len_cut(code.skip(1));
        let n = literal_len(code);
        assert forall|k: int| 0 <= k < n implies !is_space(#[trigger] code[k]) by {
            if k > 0 {
                assert(!is_space(code.skip(1)[k - 1]));
            }
        }
        if n < code.len() {
            assert(is_space(code.skip(1)[n - 1]));
        }
    }
}

/// Any cut with the properties of [`lemma_literal_len_cut`] is
/// [`literal_len`].
pub proof fn lemma_literal_len_unique(code: Seq<char>, n: int)
    requires
        0 <= n <= code.len(),
        forall|k: int| 0 <= k < n ==> !is_space(#[trigger] code[k]),
        n == code.len() || is_space(code[n]),
    ensures
        literal_len(code) == n,
    decreases code.len(),
{
    if n == 0 {
    } else {
        assert(!is_space(code[0]));
        assert forall|k: int| 0 <= k < n - 1 implies !is_space(#[trigger] code.skip(1)[k]) by {
            assert(code.skip(1)[k] == code[k + 1]);
        }
        if n < code.len() {
            assert(code.skip(1)[n - 1] == code[n]);
        }
        lemma_literal_len_unique(code.skip(1), n - 1);
    }
}

/// The token stream of `code`, with positions starting at character offset
/// `offset` on line `line`.
pub open spec fn spec_tokenize_at(code: Seq<char>, file: FileId, offset: int, line: int) -> Seq<
    (TokenV, Position),
>
    decreases code.len(),
    via spec_tokenize_at_decreases
{
    if code.len() == 0 {
        Seq::empty()
    } else if is_hspace(code[0]) {
        spec_tokenize_at(code.skip(1), file, offset + 1, line)
    } else {
        let pos1 = Position {
            file,
            offset: offset as usize,
            line: line as usize,
            length: 1,
        };
        if code[0] == '\n' {
            seq![(TokenV::Newline, pos1)] + spec_tokenize_at(code.skip(1), file, offset + 1, line
                + 1)
        } else if code[0] == '{' {
            seq![(TokenV::Bracket { ty: BracketTy::Curvy, open: true }, pos1)] + spec_tokenize_at(
                code.skip(1), file, offset + 1, line)
        } else if code[0] == '}' {
            seq![(TokenV::Bracket { ty: BracketTy::Curvy, open: false }, pos1)]
                + spec_tokenize_at(code.skip(1), file, offset + 1, line)
        } else if code[0] == '=' {
            seq![(TokenV::Operator(Operator::Assign), pos1)] + spec_tokenize_at(code.skip(1),
                file, offset + 1, line)
        } else if code[0] == '#' {
            seq![(TokenV::Modifier(Modifier::HexColor), pos1)] + spec_tokenize_at(code.skip(1),
                file, offset + 1, line)
        } else {
            let n = (1 + literal_len(code.skip(1))) as int;
            let text = code.take(n);
            let tok = if text == "element"@ {
                TokenV::Keyword(Keyword::Element)
            } else {
                TokenV::Literal(text)
            };
            let pos = Position {
                file,
                offset: offset as usize,
                line: line as usize,
                length: n as usize,
            };
            seq![(tok, pos)] + spec_tokenize_at(code.skip(n), file, offset + n, line)
        }
    }
}

#[via_fn]
proof fn spec_tokenize_at_decreases(code: Seq<char>, file: FileId, offset: int, line: int) {
    if code.len() > 0 {
        lemma_literal_len_cut(code.skip(1));
    }
}

/// The token stream of a whole file.
pub open spec fn spec_tokenize(code: Seq<char>, file: FileId) -> Seq<(TokenV, Position)> {
    spec_tokenize_at(code, file, 0, 1)
}

/// Lexes `code` into its positioned token stream.
pub fn tokenize(code: &str, file: FileId) -> (r: Vec<(Token, Position)>)
    requires
        code@.len() < usize::MAX,
    ensures
        toks_view(r@) == spec_tokenize(code@, file),
{
    let len = code.unicode_len();
    let mut out: Vec<(Token, Position)> = Vec::new();
    let mut i: usize = 0;
    let mut line: usize = 1;
    proof {
        assert(code@.skip(0) =~= code@);
        assert(toks_view(out@) =~= Seq::<(TokenV, Position)>::empty());
    }
    while i < len
        invariant
            i <= len,
            1 <= line <= i + 1,
            len == code@.len(),
            len < usize::MAX,
            spec_tokenize(code@, file) =~= toks_view(out@) + spec_tokenize_at(code@.skip(i as
                int), file, i as int, line as int),
        decreases len - i,
    {
        let ghost rest = code@.skip(i as int);
        let ghost done = toks_view(out@);
        let c = code.get_char(i);
        proof {
            assert(rest[0] == c);
            assert(rest.skip(1) =~= code@.skip(i + 1));
        }
        if hspace_char(c) {
            i = i + 1;
        } else if c == '\n' {
            let pos = Position { file, offset: i, line, length: 1 };
            out.push((Token::Newline, pos));
            proof {
                assert(toks_view(out@) =~= done + seq![(TokenV::Newline, pos)]);
                assert(done + (seq![(TokenV::Newline, pos)] + spec_tokenize_at(rest.skip(1), file,
                    i + 1, line + 1)) =~= (done + seq![(TokenV::Newline, pos)])
                    + spec_tokenize_at(rest.skip(1), file, i + 1, line + 1));
            }
            i = i + 1;
            line = line + 1;
        } else if c == '{' || c == '}' || c == '=' || c == '#' {
            let tok = if c == '{' {
                Token::Bracket { ty: BracketTy::Curvy, open: true }
            } else if c == '}' {
                Token::Bracket { ty: BracketTy::Curvy, open: false }
            } else if c == '=' {
                Token::Operator(Operator::Assign)
            } else {
                Token::Modifier(Modifier::HexColor)
            };
            let ghost tv = tok@;
            let pos = Position { file, offset: i, line, length: 1 };
            out.push((tok, pos));
            proof {
                assert(toks_view(out@) =~= done + seq![(tv, pos)]);
                assert(done + (seq![(tv, pos)] + spec_tokenize_at(rest.skip(1), file, i + 1, line
                    as int)) =~= (done + seq![(tv, pos)]) + spec_tokenize_at(rest.skip(1), file, i
                    + 1, line as int));
            }
            i = i + 1;
        } else {
            let mut j: usize = i + 1;
            while j < len
                invariant
                    i < j <= len,
                    len == code@.len(),
                    forall|k: int| i <= k < j ==> !is_space(#[trigger] code@[k]),
                ensures
                    i < j <= len,
                    forall|k: int| i <= k < j ==> !is_space(#[trigger] code@[k]),
                    j == len || is_space(code@[j as int]),
                decreases len - j,
            {
                if space_char(code.get_char(j)) {
                    break ;
                }
                j = j + 1;
            }
            proof {
                assert forall|k: int| 0 <= k < j - i implies !is_space(#[trigger] rest[k]) by {
                    assert(rest[k] == code@[i + k]);
                }
                if j < len {
                    assert(rest[j - i] == code@[j as int]);
                }
                lemma_literal_len_unique(rest, j - i);
                assert(rest.take(j - i) =~= code@.subrange(i as int, j as int));
                assert(rest.skip(j - i) =~= code@.skip(j as int));
            }
            let lit = code.substring_char(i, j);
            let is_kw = str_eq(lit, "element");
            let tok = if is_kw {
                Token::Keyword(Keyword::Element)
            } else {
                Token::Literal(lit.to_owned())
            };
            let ghost tv = tok@;
            let pos = Position { file, offset: i, line, length: j - i };
            out.push((tok, pos));
            proof {
                assert(toks_view(out@) =~= done + seq![(tv, pos)]);
                assert(done + (seq![(tv, pos)] + spec_tokenize_at(code@.skip(j as int), file, j as
                    int, line as int)) =~= (done + seq![(tv, pos)]) + spec_tokenize_at(code@.skip(
                    j as int), file, j as int, line as int));
            }
            i = j;
        }
    }
    proof {
        assert(code@.skip(len as int) =~= Seq::<char>::empty());
        assert(toks_view(out@) + Seq::<(TokenV, Position)>::empty() =~= toks_view(out@));
    }
    out
}

/// The token stream with `Newline` tokens dropped, for grammars in which
/// line breaks are insignificant.
pub open spec fn spec_skip_newlines(toks: Seq<(TokenV, Position)>) -> Seq<(TokenV, Position)>
    decreases toks.len(),
{
    if toks.len() == 0 {
        Seq::empty()
    } else {
        let head: Seq<(TokenV, Position)> = if toks[0].0 is Newline {
            Seq::empty()
        } else {
            seq![toks[0]]
        };
        head + spec_skip_newlines(toks.skip(1))
    }
}

/// Drops every `Newline` token from the stream.
pub fn skip_whitespace(tokens: Vec<(Token, Position)>) -> (r: Vec<(Token, Position)>)
    ensures
        toks_view(r@) == spec_skip_newlines(toks_view(tokens@)),
{
    let ghost orig = toks_view(tokens@);
    let mut rest = tokens;
    let mut out: Vec<(Token, Position)> = Vec::new();
    proof {
        assert(toks_view(out@) =~= Seq::<(TokenV, Position)>::empty());
    }
    while rest.len() > 0
        invariant
            spec_skip_newlines(orig) =~= toks_view(out@) + spec_skip_newlines(toks_view(rest@)),
        decreases rest@.len(),
    {
        let ghost rv = toks_view(rest@);
        let ghost done = toks_view(out@);
        let t = rest.remove(0);
        proof {
            assert(rv[0] == (t.0@, t.1));
            assert(toks_view(rest@) =~= rv.skip(1));
        }
        match t.0 {
            Token::Newline => {
                proof {
                    assert(Seq::<(TokenV, Position)>::empty() + spec_skip_newlines(rv.skip(1))
                        =~= spec_skip_newlines(rv.skip(1)));
                }
            },
            _ => {
                let ghost tv = (t.0@, t.1);
                out.push(t);
                proof {
                    assert(toks_view(out@) =~= done + seq![tv]);
                    assert(done + (seq![tv] + spec_skip_newlines(rv.skip(1))) =~= (done
                        + seq![tv]) + spec_skip_newlines(rv.skip(1)));
                }
            },
        }
    }
    proof {
        assert(toks_view(out@) + spec_skip_newlines(toks_view(rest@)) =~= toks_view(out@));
    }
    out
}

} // verus!
