use splang::color::AtomColor;
use splang::element::{merge_atom, remap_atom, Atom, Element, JoinFace};
use splang::id::{IdMap, InsertError, MappedToId};
use splang::loader::FileContents;

#[test]
fn ids_are_assigned_in_insertion_order() {
    let mut map: IdMap<FileContents> = IdMap::new();
    for i in 0..10usize {
        let id = map
            .insert(format!("file{}", i), FileContents(String::new()))
            .unwrap();
        assert_eq!(id as usize, i);
    }
    assert_eq!(map.len(), 10);
}

#[test]
fn names_resolve_back_to_their_ids() {
    let mut map: IdMap<FileContents> = IdMap::new();
    map.insert("alpha".to_string(), FileContents("a".to_string())).unwrap();
    map.insert("beta".to_string(), FileContents("b".to_string())).unwrap();
    map.insert("gamma".to_string(), FileContents("c".to_string())).unwrap();
    for (expected_id, name, text) in [(0u16, "alpha", "a"), (1, "beta", "b"), (2, "gamma", "c")] {
        let (id, value) = map.get_full_by_name(name).unwrap();
        assert_eq!(id, expected_id);
        assert_eq!(value.0, text);
        let (full_name, full_value) = map.get_full(id).unwrap();
        assert_eq!(full_name, name);
        assert_eq!(full_value.0, text);
        assert_eq!(map.get(id).unwrap().0, text);
    }
    assert!(map.get(3).is_none());
    assert!(map.get_full(100).is_none());
    assert!(map.get_full_by_name("delta").is_none());
}

#[test]
fn iter_yields_entries_in_insertion_order() {
    let mut map: IdMap<FileContents> = IdMap::new();
    map.insert("alpha".to_string(), FileContents("a".to_string())).unwrap();
    map.insert("beta".to_string(), FileContents("b".to_string())).unwrap();
    let entries = map.iter();
    assert_eq!(entries.len(), 2);
    assert_eq!(entries[0].0, 0);
    assert_eq!(entries[0].1, "alpha");
    assert_eq!(entries[0].2.0, "a");
    assert_eq!(entries[1].0, 1);
    assert_eq!(entries[1].1, "beta");
    assert_eq!(entries[1].2.0, "b");
}

#[test]
fn duplicate_names_leave_the_map_unchanged() {
    let mut map: IdMap<FileContents> = IdMap::new();
    map.insert("one".to_string(), FileContents("first".to_string())).unwrap();
    let result = map.insert("one".to_string(), FileContents("second".to_string()));
    assert_eq!(result, Err(InsertError::DuplicateName));
    assert_eq!(map.len(), 1);
    assert_eq!(map.get(0).unwrap().0, "first");
}

#[test]
fn insertion_beyond_the_id_width_fails_without_mutating() {
    let mut map = Element::create_map();
    let mut next = map.len();
    while next < 255 {
        let id = map.insert(format!("e{}", next), Element::default()).unwrap();
        assert_eq!(id as usize, next);
        next = map.len();
    }
    assert_eq!(map.len(), 255);
    let result = map.insert("overflow".to_string(), Element::default());
    assert_eq!(result, Err(InsertError::NoMoreIds));
    assert_eq!(map.len(), 255);
    assert!(map.get_full_by_name("overflow").is_none());
    // a duplicate still fails with the duplicate error once the map is full
    let result = map.insert("e42".to_string(), Element::default());
    assert_eq!(result, Err(InsertError::DuplicateName));
}

#[test]
fn builtin_elements_seed_the_registry() {
    let map = Element::create_map();
    assert_eq!(map.len(), 2);
    let (void_id, void) = map.get_full_by_name("Void").unwrap();
    assert_eq!(void_id, 0);
    assert_eq!(void.color, AtomColor::invisible());
    let (air_id, air) = map.get_full_by_name("Air").unwrap();
    assert_eq!(air_id, 1);
    assert_eq!(air.color, AtomColor::invisible());
    assert_eq!(void_id, Element::VOID_ID);
    assert_eq!(Element::AIR_ID, 0);
    let atom = map.air();
    assert_eq!(atom.element, 0);
    assert_eq!(atom.color, AtomColor::invisible());
    assert!(!atom.is_visible());
    assert!(!atom.is_opaque());
    assert!(!atom.is_transparent());
}

#[test]
fn instances_carry_their_element_id() {
    let mut map = Element::create_map();
    let id = map
        .insert(
            "Rock".to_string(),
            Element { color: AtomColor::from_grey(0x55), join_face: JoinFace::Never },
        )
        .unwrap();
    let atom = map.instance_of(id).unwrap();
    assert_eq!(atom.element, id);
    assert_eq!(atom.color, AtomColor::from_grey(0x55));
    assert_eq!(atom.join_face, JoinFace::Never);
    assert!(atom.is_visible());
    assert!(atom.is_opaque());
}

#[test]
fn merge_keeps_hand_edited_fields() {
    let old_element = Element { color: AtomColor::from_grey(0x10), join_face: JoinFace::SameAlpha };
    let new_element = Element { color: AtomColor::from_grey(0x20), join_face: JoinFace::Never };
    // the atom still carries the old defaults: both fields pick up the new ones
    let default_atom = Atom { color: old_element.color, join_face: old_element.join_face, element: 2 };
    let merged = merge_atom(&default_atom, &old_element, &new_element, 5);
    assert_eq!(merged.element, 5);
    assert_eq!(merged.color, new_element.color);
    assert_eq!(merged.join_face, JoinFace::Never);
    // a hand-edited color survives the reload
    let edited_atom = Atom { color: AtomColor::from_grey(0x99), join_face: JoinFace::SameAlpha, element: 2 };
    let merged = merge_atom(&edited_atom, &old_element, &new_element, 5);
    assert_eq!(merged.color, AtomColor::from_grey(0x99));
    assert_eq!(merged.join_face, JoinFace::Never);
}

#[test]
fn remap_falls_back_to_air_for_vanished_elements() {
    let mut old_elements = Element::create_map();
    old_elements
        .insert("Rock".to_string(), Element { color: AtomColor::from_grey(0x10), join_face: JoinFace::SameAlpha })
        .unwrap();
    let mut new_elements = Element::create_map();
    new_elements
        .insert("Sand".to_string(), Element { color: AtomColor::from_grey(0x20), join_face: JoinFace::SameAlpha })
        .unwrap();
    let rock_atom = Atom { color: AtomColor::from_grey(0x10), join_face: JoinFace::SameAlpha, element: 2 };
    let remapped = remap_atom(&rock_atom, &old_elements, &new_elements);
    assert_eq!(remapped, new_elements.air());

    // an element that survives under a different id is remapped to it
    let mut new_elements = Element::create_map();
    new_elements
        .insert("Sand".to_string(), Element::default())
        .unwrap();
    new_elements
        .insert("Rock".to_string(), Element { color: AtomColor::from_grey(0x30), join_face: JoinFace::SameAlpha })
        .unwrap();
    let remapped = remap_atom(&rock_atom, &old_elements, &new_elements);
    assert_eq!(remapped.element, 3);
    assert_eq!(remapped.color, AtomColor::from_grey(0x30));
}
