//! The element compiler: walks parsed statements, evaluates property
//! assignments, and fills the element registry.
//!
//! Inside an `element` body only `color` and `join_face` assignments are
//! understood; a second assignment of one property warns and overwrites
//! (last write wins); unknown properties warn and are ignored.  At file
//! scope only `element` declarations are valid.  A name defined twice
//! warns and keeps the first definition; a full registry warns and drops
//! the new element.

use vstd::prelude::*;

use crate::ast::{asts_view, Ast, AstV};
use crate::diagnostics::{DiagView, DiagnosticKind, Diagnostics, ElementError, ElementErrorV,
    ParseError};
use crate::element::{Element, JoinFace};
use crate::eval::spec_const_eval;
use crate::id::{IdMap, InsertError};
use crate::parser::{spec_generate, DiagSeq};
use crate::position::{FileId, Position};
use crate::text::str_eq;
use crate::value::{ValueUntyped, ValueV};

verus! {

/// The compiler's state while walking one `element` body.
pub struct ElementStep {
    pub element: Element,
    pub color_set: bool,
    pub join_face_set: bool,
    pub diags: DiagSeq,
}

/// How one body statement changes the element under construction.
pub open spec fn spec_element_step(stmt: AstV, el: Element, color_set: bool, join_face_set: bool)
    -> ElementStep {
    match stmt {
        AstV::VariableAssign { variable, var_pos, value } => {
            if variable == "color"@ {
                let dd: DiagSeq = if color_set {
                    seq![
                        (
                            Some(Ast::spec_position(*value)),
                            DiagView::Element(ElementErrorV::DoubleDefineVariable),
                        ),
                    ]
                } else {
                    Seq::empty()
                };
                match spec_const_eval(*value) {
                    Ok(ValueV::Color(c)) => ElementStep {
                        element: Element { color: c, ..el },
                        color_set: true,
                        join_face_set,
                        diags: dd,
                    },
                    Ok(v) => ElementStep {
                        element: el,
                        color_set: true,
                        join_face_set,
                        diags: dd + seq![
                            (
                                Some(Ast::spec_position(*value)),
                                DiagView::Element(ElementErrorV::VariableType {
                                    expected: "color"@,
                                    found: v.variant_name_spec(),
                                }),
                            ),
                        ],
                    },
                    Err((e, p)) => ElementStep {
                        element: el,
                        color_set: true,
                        join_face_set,
                        diags: dd + seq![(Some(p), DiagView::Eval(e))],
                    },
                }
            } else if variable == "join_face"@ {
                let dd: DiagSeq = if join_face_set {
                    seq![
                        (
                            Some(Ast::spec_position(*value)),
                            DiagView::Element(ElementErrorV::DoubleDefineVariable),
                        ),
                    ]
                } else {
                    Seq::empty()
                };
                match spec_const_eval(*value) {
                    Ok(ValueV::EnumVariant(v)) => {
                        if v == "Never"@ {
                            ElementStep {
                                element: Element { join_face: JoinFace::Never, ..el },
                                color_set,
                                join_face_set: true,
                                diags: dd,
                            }
                        } else if v == "SameAlpha"@ {
                            ElementStep {
                                element: Element { join_face: JoinFace::SameAlpha, ..el },
                                color_set,
                                join_face_set: true,
                                diags: dd,
                            }
                        } else {
                            ElementStep {
                                element: el,
                                color_set,
                                join_face_set: true,
                                diags: dd + seq![
                                    (
                                        Some(Ast::spec_position(*value)),
                                        DiagView::Element(ElementErrorV::VariableType {
                                            expected: "{ Never | SameAlpha }"@,
                                            found: ValueV::EnumVariant(v).variant_name_spec(),
                                        }),
                                    ),
                                ],
                            }
                        }
                    },
                    Ok(v) => ElementStep {
                        element: el,
                        color_set,
                        join_face_set: true,
                        diags: dd + seq![
                            (
                                Some(Ast::spec_position(*value)),
                                DiagView::Element(ElementErrorV::VariableType {
                                    expected: "{ Never | SameAlpha }"@,
                                    found: v.variant_name_spec(),
                                }),
                            ),
                        ],
                    },
                    Err((e, p)) => ElementStep {
                        element: el,
                        color_set,
                        join_face_set: true,
                        diags: dd + seq![(Some(p), DiagView::Eval(e))],
                    },
                }
            } else {
                ElementStep {
                    element: el,
                    color_set,
                    join_face_set,
                    diags: seq![
                        (Some(var_pos), DiagView::Element(ElementErrorV::UnknownVariable)),
                    ],
                }
            }
        },
        _ => ElementStep {
            element: el,
            color_set,
            join_face_set,
            diags: seq![
                (
                    Some(Ast::spec_position(stmt)),
                    DiagView::Element(ElementErrorV::UnexpectedAstKind),
                ),
            ],
        },
    }
}

/// Folds [`spec_element_step`] over the body statements from `i` on.
pub open spec fn spec_parse_element_at(body: Seq<AstV>, i: int, el: Element, color_set: bool,
    join_face_set: bool) -> (Element, DiagSeq)
    decreases body.len() - i,
{
    if i < 0 || i >= body.len() {
        (el, Seq::empty())
    } else {
        let step = spec_element_step(body[i], el, color_set, join_face_set);
        let rest = spec_parse_element_at(body, i + 1, step.element, step.color_set,
            step.join_face_set);
        (rest.0, step.diags + rest.1)
    }
}

/// The element one body compiles to, starting from the defaults.
pub open spec fn spec_parse_element(body: Seq<AstV>) -> Element {
    spec_parse_element_at(body, 0, Element::default_spec(), false, false).0
}

/// The diagnostics one body compiles with.
pub open spec fn spec_element_diags(body: Seq<AstV>) -> DiagSeq {
    spec_parse_element_at(body, 0, Element::default_spec(), false, false).1
}

/// Compiles one `element` body into an element record, reporting property
/// problems into `diagnostics`.
pub fn parse_element(body: &Vec<Ast>, diagnostics: &mut Diagnostics) -> (r: Element)
    requires
        old(diagnostics).wf(),
    ensures
        final(diagnostics).wf(),
        r == spec_parse_element(asts_view(body@)),
        final(diagnostics)@ == old(diagnostics)@ + spec_element_diags(asts_view(body@)),
{
    let ghost bodyv = asts_view(body@);
    proof {
        crate::ast::lemma_asts_view_index(body@);
    }
    let mut element = Element::default();
    let mut color_set = false;
    let mut join_face_set = false;
    let mut i: usize = 0;
    while i < body.len()
        invariant
            i <= body@.len(),
            bodyv == asts_view(body@),
            bodyv.len() == body@.len(),
            forall|j: int| 0 <= j < body@.len() ==> bodyv[j] == crate::ast::ast_view(
                #[trigger] body@[j]),
            diagnostics.wf(),
            ({
                let full = spec_parse_element_at(bodyv, 0, Element::default_spec(), false, false);
                let rem = spec_parse_element_at(bodyv, i as int, element, color_set,
                    join_face_set);
                &&& full.0 == rem.0
                &&& old(diagnostics)@ + full.1 =~= diagnostics@ + rem.1
            }),
        decreases body@.len() - i,
    {
        let ghost el0 = element;
        let ghost cs0 = color_set;
        let ghost js0 = join_face_set;
        let ghost step = spec_element_step(bodyv[i as int], el0, cs0, js0);
        let ghost diags0 = diagnostics@;
        let ast = &body[i];
        match ast {
            Ast::VariableAssign { variable, value } => {
                if str_eq(variable.object.as_str(), "color") {
                    if color_set {
                        let p = value.position();
                        diagnostics.add(p, DiagnosticKind::Element(
                            ElementError::DoubleDefineVariable));
                    }
                    color_set = true;
                    match value.const_eval() {
                        Ok(ValueUntyped::Color(val)) => {
                            element.color = val;
                        },
                        Ok(val) => {
                            let found = val.variant_name();
                            let p = value.position();
                            diagnostics.add(p, DiagnosticKind::Element(ElementError::VariableType {
                                expected: "color".to_owned(),
                                found,
                            }));
                        },
                        Err(e) => {
                            diagnostics.add(e.position, DiagnosticKind::Eval(e.object));
                        },
                    }
                } else if str_eq(variable.object.as_str(), "join_face") {
                    if join_face_set {
                        let p = value.position();
                        diagnostics.add(p, DiagnosticKind::Element(
                            ElementError::DoubleDefineVariable));
                    }
                    join_face_set = true;
                    match value.const_eval() {
                        Ok(ValueUntyped::EnumVariant(v)) => {
                            if str_eq(v.as_str(), "Never") {
                                element.join_face = JoinFace::Never;
                            } else if str_eq(v.as_str(), "SameAlpha") {
                                element.join_face = JoinFace::SameAlpha;
                            } else {
                                let found = ValueUntyped::EnumVariant(v).variant_name();
                                let p = value.position();
                                diagnostics.add(p, DiagnosticKind::Element(
                                    ElementError::VariableType {
                                    expected: "{ Never | SameAlpha }".to_owned(),
                                    found,
                                }));
                            }
                        },
                        Ok(val) => {
                            let found = val.variant_name();
                            let p = value.position();
                            diagnostics.add(p, DiagnosticKind::Element(ElementError::VariableType {
                                expected: "{ Never | SameAlpha }".to_owned(),
                                found,
                            }));
                        },
                        Err(e) => {
                            diagnostics.add(e.position, DiagnosticKind::Eval(e.object));
                        },
                    }
                } else {
                    diagnostics.add(variable.position, DiagnosticKind::Element(
                        ElementError::UnknownVariable));
                }
            },
            _ => {
                let p = ast.position();
                diagnostics.add(p, DiagnosticKind::Element(ElementError::UnexpectedAstKind));
            },
        }
        proof {
            assert(element == step.element);
            assert(color_set == step.color_set);
            assert(join_face_set == step.join_face_set);
            assert(diagnostics@ =~= diags0 + step.diags);
            let full = spec_parse_element_at(bodyv, 0, Element::default_spec(), false, false);
            let rem0 = spec_parse_element_at(bodyv, i as int, el0, cs0, js0);
            let rem1 = spec_parse_element_at(bodyv, i + 1, element, color_set, join_face_set);
            assert(old(diagnostics)@ + full.1 =~= diagnostics@ + rem1.1);
        }
        i = i + 1;
    }
    proof {
        let full = spec_parse_element_at(bodyv, 0, Element::default_spec(), false, false);
        let rem = spec_parse_element_at(bodyv, i as int, element, color_set, join_face_set);
        assert(rem.1 =~= Seq::<(Option<Position>, DiagView)>::empty());
        assert(old(diagnostics)@ + full.1 =~= diagnostics@);
    }
    element
}

/// How one top-level statement changes the registry: an `element` node is
/// compiled and interned; anything else is rejected with a positioned
/// error.
pub open spec fn spec_compile_stmt(stmt: AstV, names: Seq<Seq<char>>, values: Seq<Element>) -> (
    Seq<Seq<char>>,
    Seq<Element>,
    DiagSeq,
) {
    match stmt {
        AstV::Element { name, name_pos, nodes, body_pos } => {
            let el = spec_parse_element(nodes);
            let ediags = spec_element_diags(nodes);
            let pos = Ast::spec_position(stmt);
            if exists|k: int| 0 <= k < names.len() && names[k] == name {
                (
                    names,
                    values,
                    ediags + seq![
                        (Some(pos), DiagView::Element(ElementErrorV::DoubleDefineElement(name))),
                    ],
                )
            } else if names.len() >= 255 {
                (
                    names,
                    values,
                    ediags + seq![
                        (Some(pos), DiagView::Element(ElementErrorV::ElementLimitReached)),
                    ],
                )
            } else {
                (names + seq![name], values + seq![el], ediags)
            }
        },
        AstV::Block { pos, .. } => (
            names,
            values,
            seq![(Some(pos), DiagView::Parse(ParseError::UnexpectedBlock))],
        ),
        AstV::Ident { pos, .. } => (
            names,
            values,
            seq![(Some(pos), DiagView::Parse(ParseError::UnexpectedIdent))],
        ),
        AstV::VariableAssign { var_pos, .. } => (
            names,
            values,
            seq![(Some(var_pos), DiagView::Parse(ParseError::UnexpectedIdent))],
        ),
        AstV::HexColor { pos, .. } => (
            names,
            values,
            seq![(Some(pos), DiagView::Parse(ParseError::UnexpectedValue))],
        ),
    }
}

/// Folds [`spec_compile_stmt`] over the top-level statements from `i` on.
pub open spec fn spec_compile_file_at(nodes: Seq<AstV>, i: int, names: Seq<Seq<char>>, values:
    Seq<Element>) -> (Seq<Seq<char>>, Seq<Element>, DiagSeq)
    decreases nodes.len() - i,
{
    if i < 0 || i >= nodes.len() {
        (names, values, Seq::empty())
    } else {
        let step = spec_compile_stmt(nodes[i], names, values);
        let rest = spec_compile_file_at(nodes, i + 1, step.0, step.1);
        (rest.0, rest.1, step.2 + rest.2)
    }
}

/// Parses one file's text and compiles every top-level `element`
/// declaration into the shared registry, reporting every problem.
pub fn parse_file(code: &str, file: FileId, diagnostics: &mut Diagnostics, elements: &mut IdMap<
    Element>)
    requires
        code@.len() < usize::MAX,
        old(diagnostics).wf(),
        old(elements).wf(),
    ensures
        final(diagnostics).wf(),
        final(elements).wf(),
        ({
            let gen = spec_generate(code@, file);
            let out = spec_compile_file_at(gen.nodes, 0, old(elements).spec_names(), old(
                elements).spec_values());
            &&& final(elements).spec_names() == out.0
            &&& final(elements).spec_values() == out.1
            &&& final(diagnostics)@ == old(diagnostics)@ + gen.diags + out.2
        }),
{
    let asts = Ast::generate(code, file, diagnostics);
    let ghost nodes = asts_view(asts@);
    let ghost diags_after_gen = diagnostics@;
    proof {
        crate::ast::lemma_asts_view_index(asts@);
    }
    let mut i: usize = 0;
    while i < asts.len()
        invariant
            i <= asts@.len(),
            nodes == asts_view(asts@),
            nodes.len() == asts@.len(),
            forall|j: int| 0 <= j < asts@.len() ==> nodes[j] == crate::ast::ast_view(
                #[trigger] asts@[j]),
            diagnostics.wf(),
            elements.wf(),
            ({
                let full = spec_compile_file_at(nodes, 0, old(elements).spec_names(), old(
                    elements).spec_values());
                let rem = spec_compile_file_at(nodes, i as int, elements.spec_names(),
                    elements.spec_values());
                &&& full.0 == rem.0
                &&& full.1 == rem.1
                &&& diags_after_gen + full.2 =~= diagnostics@ + rem.2
            }),
        decreases asts@.len() - i,
    {
        let ghost names0 = elements.spec_names();
        let ghost values0 = elements.spec_values();
        let ghost step = spec_compile_stmt(nodes[i as int], names0, values0);
        let ghost diags0 = diagnostics@;
        let ast = &asts[i];
        match ast {
            Ast::Element { name, body } => {
                let element = parse_element(&body.object, diagnostics);
                let pos = ast.position();
                match elements.insert(name.object.clone(), element) {
                    Ok(_) => {},
                    Err(InsertError::DuplicateName) => {
                        diagnostics.add(pos, DiagnosticKind::Element(
                            ElementError::DoubleDefineElement(name.object.clone())));
                    },
                    Err(InsertError::NoMoreIds) => {
                        diagnostics.add(pos, DiagnosticKind::Element(
                            ElementError::ElementLimitReached));
                    },
                }
            },
            Ast::Block(b) => {
                diagnostics.add(b.position, DiagnosticKind::Parse(ParseError::UnexpectedBlock));
            },
            Ast::Ident(ident) => {
                diagnostics.add(ident.position, DiagnosticKind::Parse(ParseError::UnexpectedIdent));
            },
            Ast::VariableAssign { variable, .. } => {
                diagnostics.add(variable.position, DiagnosticKind::Parse(
                    ParseError::UnexpectedIdent));
            },
            Ast::HexColor(c) => {
                diagnostics.add(c.position, DiagnosticKind::Parse(ParseError::UnexpectedValue));
            },
        }
        proof {
            assert(elements.spec_names() =~= step.0);
            assert(elements.spec_values() =~= step.1);
            assert(diagnostics@ =~= diags0 + step.2);
            let full = spec_compile_file_at(nodes, 0, old(elements).spec_names(), old(
                elements).spec_values());
            let rem1 = spec_compile_file_at(nodes, i + 1, elements.spec_names(),
                elements.spec_values());
            assert(diags_after_gen + full.2 =~= diagnostics@ + rem1.2);
        }
        i = i + 1;
    }
    proof {
        let full = spec_compile_file_at(nodes, 0, old(elements).spec_names(), old(
            elements).spec_values());
        let rem = spec_compile_file_at(nodes, i as int, elements.spec_names(),
            elements.spec_values());
        assert(rem.2 =~= Seq::<(Option<Position>, DiagView)>::empty());
        assert(diags_after_gen + full.2 =~= diagnostics@);
    }
}

} // verus!
