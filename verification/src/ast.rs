//! The untyped syntax tree produced by the parser.
//!
//! Equality over syntax trees deliberately ignores source positions, so two
//! parses of the same text written at different places compare equal.

use vstd::prelude::*;

use crate::position::{Position, Positioned};

verus! {

/// One syntax node.
#[derive(Debug)]
pub enum Ast {
    /// An ordered sequence of child statements, spanning its brace or file
    /// extent.
    Block(Positioned<Vec<Ast>>),
    /// A bare identifier.
    Ident(Positioned<String>),
    /// A hex color literal; the span covers the digits, not the leading
    /// `#`.
    HexColor(Positioned<String>),
    /// `element <name> { ... }`.
    Element { name: Positioned<String>, body: Positioned<Vec<Ast>> },
    /// `<variable> = <value>`.
    VariableAssign { variable: Positioned<String>, value: Box<Ast> },
}

/// Spec-level shape of an [`Ast`], positions included.
pub enum AstV {
    Block { nodes: Seq<AstV>, pos: Position },
    Ident { name: Seq<char>, pos: Position },
    HexColor { digits: Seq<char>, pos: Position },
    Element { name: Seq<char>, name_pos: Position, nodes: Seq<AstV>, body_pos: Position },
    VariableAssign { variable: Seq<char>, var_pos: Position, value: Box<AstV> },
}

/// Spec-level shape of an [`Ast`] with every position forgotten: the value
/// that syntax-tree equality compares.
pub enum AstShape {
    Block(Seq<AstShape>),
    Ident(Seq<char>),
    HexColor(Seq<char>),
    Element { name: Seq<char>, body: Seq<AstShape> },
    VariableAssign { variable: Seq<char>, value: Box<AstShape> },
}

/// The view of one node.
pub open spec fn ast_view(ast: Ast) -> AstV
    decreases ast,
{
    match ast {
        Ast::Block(b) => AstV::Block { nodes: asts_view(b.object@), pos: b.position },
        Ast::Ident(i) => AstV::Ident { name: i.object@, pos: i.position },
        Ast::HexColor(c) => AstV::HexColor { digits: c.object@, pos: c.position },
        Ast::Element { name, body } => AstV::Element {
            name: name.object@,
            name_pos: name.position,
            nodes: asts_view(body.object@),
            body_pos: body.position,
        },
        Ast::VariableAssign { variable, value } => AstV::VariableAssign {
            variable: variable.object@,
            var_pos: variable.position,
            value: Box::new(ast_view(*value)),
        },
    }
}

/// The view of a statement sequence.
pub open spec fn asts_view(asts: Seq<Ast>) -> Seq<AstV>
    decreases asts,
{
    if asts.len() == 0 {
        Seq::empty()
    } else {
        seq![ast_view(asts[0])] + asts_view(asts.skip(1))
    }
}

impl View for Ast {
    type V = AstV;

    open spec fn view(&self) -> AstV {
        ast_view(*self)
    }
}

/// Forgets the positions of one node view.
pub open spec fn strip(v: AstV) -> AstShape
    decreases v,
{
    match v {
        AstV::Block { nodes, .. } => AstShape::Block(strips(nodes)),
        AstV::Ident { name, .. } => AstShape::Ident(name),
        AstV::HexColor { digits, .. } => AstShape::HexColor(digits),
        AstV::Element { name, nodes, .. } => AstShape::Element { name, body: strips(nodes) },
        AstV::VariableAssign { variable, value, .. } => AstShape::VariableAssign {
            variable,
            value: Box::new(strip(*value)),
        },
    }
}

/// Forgets the positions of a sequence of node views.
pub open spec fn strips(vs: Seq<AstV>) -> Seq<AstShape>
    decreases vs,
{
    if vs.len() == 0 {
        Seq::empty()
    } else {
        seq![strip(vs[0])] + strips(vs.skip(1))
    }
}

/// The view of an `Ast` with its positions forgotten.
pub open spec fn shape(ast: Ast) -> AstShape {
    strip(ast_view(ast))
}

/// [`asts_view`] maps [`ast_view`] over the sequence, index by index.
pub proof fn lemma_asts_view_index(asts: Seq<Ast>)
    ensures
        asts_view(asts).len() == asts.len(),
        forall|i: int| 0 <= i < asts.len() ==> asts_view(asts)[i] == ast_view(#[trigger] asts[i]),
    decreases asts.len(),
{
    if asts.len() > 0 {
        lemma_asts_view_index(asts.skip(1));
        assert forall|i: int| 0 <= i < asts.len() implies asts_view(asts)[i] == ast_view(
            #[trigger] asts[i]) by {
            if i > 0 {
                assert(asts_view(asts.skip(1))[i - 1] == ast_view(asts.skip(1)[i - 1]));
                assert(asts.skip(1)[i - 1] == asts[i]);
            }
        }
    }
}

/// [`strips`] maps [`strip`] over the sequence, index by index.
pub proof fn lemma_strips_index(vs: Seq<AstV>)
    ensures
        strips(vs).len() == vs.len(),
        forall|i: int| 0 <= i < vs.len() ==> strips(vs)[i] == strip(#[trigger] vs[i]),
    decreases vs.len(),
{
    if vs.len() > 0 {
        lemma_strips_index(vs.skip(1));
        assert forall|i: int| 0 <= i < vs.len() implies strips(vs)[i] == strip(#[trigger] vs[i])
            by {
            if i > 0 {
                assert(strips(vs.skip(1))[i - 1] == strip(vs.skip(1)[i - 1]));
                assert(vs.skip(1)[i - 1] == vs[i]);
            }
        }
    }
}

/// Position-insensitive equality of child sequences.
fn asts_eq(a: &Vec<Ast>, b: &Vec<Ast>) -> (r: bool)
    ensures
        r == (strips(asts_view(a@)) == strips(asts_view(b@))),
    decreases a@,
{
    proof {
        lemma_asts_view_index(a@);
        lemma_asts_view_index(b@);
        lemma_strips_index(asts_view(a@));
        lemma_strips_index(asts_view(b@));
    }
    if a.len() != b.len() {
        proof {
            assert(strips(asts_view(a@)).len() != strips(asts_view(b@)).len());
        }
        return false;
    }
    let mut i: usize = 0;
    while i < a.len()
        invariant
            i <= a@.len(),
            a@.len() == b@.len(),
            strips(asts_view(a@)).len() == a@.len(),
            strips(asts_view(b@)).len() == b@.len(),
            forall|j: int| 0 <= j < a@.len() ==> strips(asts_view(a@))[j] == strip(ast_view(
                #[trigger] a@[j])),
            forall|j: int| 0 <= j < b@.len() ==> strips(asts_view(b@))[j] == strip(ast_view(
                #[trigger] b@[j])),
            forall|j: int| 0 <= j < i ==> strips(asts_view(a@))[j] == strips(asts_view(b@))[j],
        decreases a@.len() - i,
    {
        if !ast_eq(&a[i], &b[i]) {
            proof {
                assert(strips(asts_view(a@))[i as int] != strips(asts_view(b@))[i as int]);
            }
            return false;
        }
        i = i + 1;
    }
    proof {
        assert(strips(asts_view(a@)) =~= strips(asts_view(b@)));
    }
    true
}

/// Position-insensitive equality of two nodes.
fn ast_eq(a: &Ast, b: &Ast) -> (r: bool)
    ensures
        r == (shape(*a) == shape(*b)),
    decreases *a,
{
    match (a, b) {
        (Ast::Block(x), Ast::Block(y)) => asts_eq(&x.object, &y.object),
        (Ast::Ident(x), Ast::Ident(y)) => crate::text::str_eq(x.object.as_str(),
            y.object.as_str()),
        (Ast::HexColor(x), Ast::HexColor(y)) => crate::text::str_eq(x.object.as_str(),
            y.object.as_str()),
        (
            Ast::Element { name: a_name, body: a_body },
            Ast::Element { name: b_name, body: b_body },
        ) => {
            let names = crate::text::str_eq(a_name.object.as_str(), b_name.object.as_str());
            names && asts_eq(&a_body.object, &b_body.object)
        },
        (
            Ast::VariableAssign { variable: a_var, value: a_val },
            Ast::VariableAssign { variable: b_var, value: b_val },
        ) => {
            let vars = crate::text::str_eq(a_var.object.as_str(), b_var.object.as_str());
            vars && ast_eq(a_val, b_val)
        },
        _ => {
            proof {
                assert(shape(*a) != shape(*b));
            }
            false
        },
    }
}

impl PartialEq for Ast {
    /// Structural equality of the trees, ignoring every position.
    fn eq(&self, other: &Ast) -> bool {
        ast_eq(self, other)
    }
}

impl Eq for Ast {}

impl vstd::std_specs::cmp::PartialEqSpecImpl for Ast {
    open spec fn obeys_eq_spec() -> bool {
        true
    }

    open spec fn eq_spec(&self, other: &Ast) -> bool {
        shape(*self) == shape(*other)
    }
}

impl Ast {
    /// The span this node covers, rebuilt from the positions its parts
    /// carry.  A hex color's span is extended backwards over its leading
    /// `#`; compound nodes span from their first part to the end of their
    /// last.
    pub open spec fn spec_position(v: AstV) -> Position
        decreases v,
    {
        match v {
            AstV::Block { pos, .. } => pos,
            AstV::Ident { pos, .. } => pos,
            AstV::HexColor { pos, .. } => pos.extend_back_spec(1),
            AstV::Element { name_pos, body_pos, .. } => name_pos.span_to(body_pos),
            AstV::VariableAssign { var_pos, value, .. } => var_pos.span_to(Ast::spec_position(
                *value)),
        }
    }

    /// The span this node covers.
    pub fn position(&self) -> (r: Position)
        ensures
            r == Ast::spec_position(self@),
        decreases *self,
    {
        match self {
            Ast::Block(b) => b.position,
            Ast::Ident(i) => i.position,
            Ast::HexColor(c) => c.position.extend_back_clamped(1),
            Ast::Element { name, body } => name.position.span_to_clamped(body.position),
            Ast::VariableAssign { variable, value } => {
                let value_pos = value.position();
                variable.position.span_to_clamped(value_pos)
            },
        }
    }
}

} // verus!
