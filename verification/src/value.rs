//! Typed values produced by const-evaluating literal syntax nodes.

use vstd::prelude::*;

use crate::color::AtomColor;

verus! {

/// The result of const-evaluating a literal node.
#[derive(Debug, Clone)]
pub enum ValueUntyped {
    /// A color literal.
    Color(AtomColor),
    /// A bare identifier, read as a nullary enum tag.
    EnumVariant(String),
    /// An empty block, or a structural node standing where a value was
    /// expected.
    Unit,
}

/// Spec-level shape of a [`ValueUntyped`].
pub enum ValueV {
    Color(AtomColor),
    EnumVariant(Seq<char>),
    Unit,
}

impl View for ValueUntyped {
    type V = ValueV;

    open spec fn view(&self) -> ValueV {
        match self {
            ValueUntyped::Color(c) => ValueV::Color(*c),
            ValueUntyped::EnumVariant(v) => ValueV::EnumVariant(v@),
            ValueUntyped::Unit => ValueV::Unit,
        }
    }
}

impl ValueV {
    /// The type name a diagnostic prints for this value.
    pub open spec fn variant_name_spec(self) -> Seq<char> {
        match self {
            ValueV::Color(_) => "Color"@,
            ValueV::EnumVariant(v) => "{ "@ + v + " }"@,
            ValueV::Unit => "()"@,
        }
    }
}

impl ValueUntyped {
    /// The type name a diagnostic prints for this value.
    pub fn variant_name(&self) -> (r: String)
        ensures
            r@ == self@.variant_name_spec(),
    {
        match self {
            ValueUntyped::Color(_) => "Color".to_owned(),
            ValueUntyped::EnumVariant(v) => {
                let mut r = "{ ".to_owned();
                r.append(v.as_str());
                r.append(" }");
                r
            },
            ValueUntyped::Unit => "()".to_owned(),
        }
    }
}

} // verus!
