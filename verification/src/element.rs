//! Element records: named material definitions produced by the compiler.

use vstd::prelude::*;

use crate::color::AtomColor;
use crate::id::{CreateInstanceWithId, IdMap, InsertError, MappedToId};

verus! {

/// Whether adjacent faces of equal alpha are culled during meshing.
#[derive(Debug, Clone, Copy, PartialEq, Eq, Structural)]
pub enum JoinFace {
    Never,
    SameAlpha,
}

impl JoinFace {
    /// The join-face rule elements start out with.
    pub fn default_rule() -> (r: JoinFace)
        ensures
            r == JoinFace::default_spec(),
    {
        JoinFace::SameAlpha
    }

    pub open spec fn default_spec() -> JoinFace {
        JoinFace::SameAlpha
    }
}

/// A material definition: a color and a face-joining rule.
#[derive(Debug, Clone, Copy, PartialEq, Eq, Structural)]
pub struct Element {
    pub color: AtomColor,
    pub join_face: JoinFace,
}

/// Dense id of an element inside its registry.
pub type ElementId = u8;

impl Element {
    /// Id of the builtin `Void` element.
    pub const VOID_ID: ElementId = 0;

    /// Id of the builtin `Air` element; an alias of the same reserved slot.
    pub const AIR_ID: ElementId = 0;

    /// The element every compiled `element` block starts from: fully
    /// transparent, with the default join-face rule.
    pub open spec fn default_spec() -> Element {
        Element { color: AtomColor::invisible_spec(), join_face: JoinFace::default_spec() }
    }

    /// A fresh element registry, seeded with the two builtin fully
    /// transparent elements `Void` and `Air`.
    pub fn create_map() -> (r: IdMap<Element>)
        ensures
            r.wf(),
            r.spec_names() =~= seq!["Void"@, "Air"@],
            r.spec_values() =~= seq![Element::default_spec(), Element::default_spec()],
    {
        let mut map: IdMap<Element> = IdMap::new();
        let void = Element { color: AtomColor::invisible(), join_face: JoinFace::default_rule() };
        let air = Element { color: AtomColor::invisible(), join_face: JoinFace::default_rule() };
        proof {
            reveal_strlit("Void");
            reveal_strlit("Air");
            assert("Void"@.len() == 4 && "Air"@.len() == 3);
        }
        let name_void = "Void".to_owned();
        let name_air = "Air".to_owned();
        let r1 = map.insert(name_void, void);
        proof {
            assert(!(r1 matches Err(InsertError::DuplicateName)));
            assert(!(r1 matches Err(InsertError::NoMoreIds)));
            assert(map.spec_names() =~= seq!["Void"@]);
        }
        proof {
            assert(!map.spec_contains_name("Air"@));
        }
        let r2 = map.insert(name_air, air);
        proof {
            assert(map.spec_names() =~= seq!["Void"@, "Air"@]);
            assert(map.spec_values() =~= seq![Element::default_spec(), Element::default_spec()]);
        }
        map
    }
}

impl Default for Element {
    /// The fully transparent element with the default join-face rule.
    fn default() -> (r: Element)
        ensures
            r == Element::default_spec(),
    {
        Element { color: AtomColor::invisible(), join_face: JoinFace::default_rule() }
    }
}

impl MappedToId for Element {
    type Id = ElementId;
}

/// One voxel instance: an element reference plus per-instance fields that
/// start out equal to the element's own.
#[derive(Debug, Clone, Copy, PartialEq, Eq, Structural)]
pub struct Atom {
    pub color: AtomColor,
    pub join_face: JoinFace,
    pub element: ElementId,
}

impl Atom {
    /// Whether the atom is drawn at all.
    pub fn is_visible(&self) -> (r: bool)
        ensures
            r == (self.color.a > 0),
    {
        self.color.a > 0
    }

    /// Whether the atom hides everything behind it.
    pub fn is_opaque(&self) -> (r: bool)
        ensures
            r == (self.color.a == 255),
    {
        self.color.a == u8::MAX
    }

    /// Whether the atom is drawn but shows what is behind it.
    pub fn is_transparent(&self) -> (r: bool)
        ensures
            r == (0 < self.color.a < 255),
    {
        self.color.a < u8::MAX && self.color.a > 0
    }
}

impl CreateInstanceWithId for Element {
    type Instance = Atom;

    open spec fn spec_create_instance(&self, id: ElementId) -> Atom {
        Atom { color: self.color, join_face: self.join_face, element: id }
    }

    fn create_instance(&self, id: ElementId) -> (r: Atom)
        ensures
            r == self.spec_create_instance(id),
    {
        Atom { color: self.color, join_face: self.join_face, element: id }
    }
}

impl IdMap<Element> {
    /// The default empty-space atom, stamped from the builtin `Air` slot.
    pub fn air(&self) -> (r: Atom)
        requires
            self.wf(),
            self.spec_len() > 0,
        ensures
            r == self.spec_values()[Element::AIR_ID as int].spec_create_instance(Element::AIR_ID),
    {
        let atom = self.instance_of(Element::AIR_ID);
        match atom {
            Some(a) => a,
            None => {
                proof {
                    assert(false);
                }
                Atom { color: AtomColor::invisible(), join_face: JoinFace::default_rule(), element: 0 }
            },
        }
    }
}

/// A per-instance field carried across a reload: a field still equal to the
/// old element's default picks up the new element's default, while a field
/// that was hand-edited away from the default is preserved.
pub open spec fn merged_field<F>(atom_field: F, old_field: F, new_field: F) -> F {
    if atom_field == old_field && atom_field != new_field {
        new_field
    } else {
        atom_field
    }
}

/// How one atom comes out of a reload when its element survives under a new
/// id: the element reference is remapped and each default-valued field is
/// carried forward.
pub open spec fn spec_merge_atom(atom: Atom, old_element: Element, new_element: Element, new_id:
    ElementId) -> Atom {
    Atom {
        color: merged_field(atom.color, old_element.color, new_element.color),
        join_face: merged_field(atom.join_face, old_element.join_face, new_element.join_face),
        element: new_id,
    }
}

/// Applies [`spec_merge_atom`] to one atom.
pub fn merge_atom(atom: &Atom, old_element: &Element, new_element: &Element, new_id: ElementId)
    -> (r: Atom)
    ensures
        r == spec_merge_atom(*atom, *old_element, *new_element, new_id),
{
    let color = if atom.color == old_element.color && !(atom.color == new_element.color) {
        new_element.color
    } else {
        atom.color
    };
    let join_face = if atom.join_face == old_element.join_face && !(atom.join_face
        == new_element.join_face) {
        new_element.join_face
    } else {
        atom.join_face
    };
    Atom { color, join_face, element: new_id }
}

/// How one atom is remapped when the element registry is replaced: by the
/// old element's name when the new registry still has it, with
/// default-valued fields carried forward; to the default air atom when the
/// name is gone; unchanged when the atom's element id was dangling already.
pub open spec fn spec_remap_atom(atom: Atom, old_elements: IdMap<Element>, new_elements: IdMap<
    Element>) -> Atom {
    if 0 <= atom.element < old_elements.spec_len() {
        let name = old_elements.spec_names()[atom.element as int];
        let old_element = old_elements.spec_values()[atom.element as int];
        if new_elements.spec_contains_name(name) {
            let new_id = new_elements.spec_index_of(name);
            spec_merge_atom(atom, old_element, new_elements.spec_values()[new_id], new_id as
                ElementId)
        } else {
            new_elements.spec_values()[Element::AIR_ID as int].spec_create_instance(
                Element::AIR_ID)
        }
    } else {
        atom
    }
}

/// Applies [`spec_remap_atom`] to one atom.
pub fn remap_atom(atom: &Atom, old_elements: &IdMap<Element>, new_elements: &IdMap<Element>) -> (r:
    Atom)
    requires
        old_elements.wf(),
        new_elements.wf(),
        new_elements.spec_len() > 0,
    ensures
        r == spec_remap_atom(*atom, *old_elements, *new_elements),
{
    match old_elements.get_full(atom.element) {
        Some((name, old_element)) => {
            match new_elements.get_full_by_name(name.as_str()) {
                Some((id, element)) => merge_atom(atom, old_element, element, id),
                None => new_elements.air(),
            }
        },
        None => *atom,
    }
}

} // verus!
