//! The interning map: an insertion-ordered, bijective name-to-id registry.
//!
//! An [`IdMap`] assigns each unique name a dense integer id equal to its
//! insertion index.  The id type is chosen per mapped value type through
//! [`MappedToId`], and its numeric width bounds how many entries the map
//! can ever hold.

use vstd::prelude::*;

use crate::text::str_eq;

verus! {

/// An integer-like type used as a dense id.
pub trait Id: Copy + Sized {
    /// The mathematical value of this id.
    spec fn id_spec(self) -> int;

    /// The exclusive upper bound on assignable ids (the type's maximum
    /// representable value).
    spec fn spec_max() -> int;

    /// The id bound is positive and fits the machine.
    proof fn lemma_max_bounds()
        ensures
            0 < Self::spec_max() <= usize::MAX,
    ;

    fn to_usize(self) -> (r: usize)
        ensures
            r as int == self.id_spec(),
    ;

    fn from_usize(id: usize) -> (r: Self)
        requires
            (id as int) < Self::spec_max(),
        ensures
            r.id_spec() == id as int,
    ;

    /// The exclusive upper bound on assignable ids, as a machine integer.
    fn max_value() -> (r: usize)
        ensures
            r as int == Self::spec_max(),
    ;
}

impl Id for u8 {
    open spec fn id_spec(self) -> int {
        self as int
    }

    open spec fn spec_max() -> int {
        u8::MAX as int
    }

    proof fn lemma_max_bounds() {
    }

    fn to_usize(self) -> usize {
        self as usize
    }

    fn from_usize(id: usize) -> Self {
        id as u8
    }

    fn max_value() -> usize {
        u8::MAX as usize
    }
}

impl Id for u16 {
    open spec fn id_spec(self) -> int {
        self as int
    }

    open spec fn spec_max() -> int {
        u16::MAX as int
    }

    proof fn lemma_max_bounds() {
    }

    fn to_usize(self) -> usize {
        self as usize
    }

    fn from_usize(id: usize) -> Self {
        id as u16
    }

    fn max_value() -> usize {
        u16::MAX as usize
    }
}

impl Id for u32 {
    open spec fn id_spec(self) -> int {
        self as int
    }

    open spec fn spec_max() -> int {
        u32::MAX as int
    }

    proof fn lemma_max_bounds() {
        assert(u32::MAX as int <= usize::MAX as int);
    }

    fn to_usize(self) -> usize {
        self as usize
    }

    fn from_usize(id: usize) -> Self {
        id as u32
    }

    fn max_value() -> usize {
        u32::MAX as usize
    }
}

impl Id for usize {
    open spec fn id_spec(self) -> int {
        self as int
    }

    open spec fn spec_max() -> int {
        usize::MAX as int
    }

    proof fn lemma_max_bounds() {
    }

    fn to_usize(self) -> usize {
        self
    }

    fn from_usize(id: usize) -> Self {
        id
    }

    fn max_value() -> usize {
        usize::MAX
    }
}

/// A value type that lives in an [`IdMap`] under a chosen id width.
///
/// Types that seed fresh registries with builtin entries do so through an
/// inherent `create_map` constructor.
pub trait MappedToId: Sized {
    type Id: Id;
}

/// A mapped value type that can stamp out per-id instances.
pub trait CreateInstanceWithId: MappedToId {
    type Instance;

    /// The instance this value produces for a given id.
    spec fn spec_create_instance(&self, id: Self::Id) -> Self::Instance;

    fn create_instance(&self, id: Self::Id) -> (r: Self::Instance)
        ensures
            r == self.spec_create_instance(id),
    ;
}

/// Why an insertion was refused.  Either way the map is unchanged.
#[derive(Debug, Clone, Copy, PartialEq, Eq, Structural)]
pub enum InsertError {
    /// The name is already interned.
    DuplicateName,
    /// The number of entries has reached the id type's maximum value.
    NoMoreIds,
}

/// Insertion-ordered bijective registry from unique names to values, with
/// the dense integer id of an entry equal to its insertion index.
#[derive(Debug, Clone)]
pub struct IdMap<T: MappedToId> {
    keys: Vec<String>,
    vals: Vec<T>,
}

impl<T: MappedToId> IdMap<T> {
    /// The interned names, in insertion order.
    pub closed spec fn spec_names(self) -> Seq<Seq<char>> {
        self.keys@.map(|_i: int, s: String| s@)
    }

    /// The values, in insertion order.
    pub closed spec fn spec_values(self) -> Seq<T> {
        self.vals@
    }

    /// The number of entries.
    pub open spec fn spec_len(self) -> int {
        self.spec_names().len() as int
    }

    /// Whether `name` is already interned.
    pub open spec fn spec_contains_name(self, name: Seq<char>) -> bool {
        exists|i: int| 0 <= i < self.spec_len() && self.spec_names()[i] == name
    }

    /// The id under which `name` is interned.
    pub open spec fn spec_index_of(self, name: Seq<char>) -> int {
        choose|i: int| 0 <= i < self.spec_len() && self.spec_names()[i] == name
    }

    /// Names are unique, names and values pair up, and the entry count
    /// never exceeds the id type's maximum value.
    pub closed spec fn wf(self) -> bool {
        &&& self.keys@.len() == self.vals@.len()
        &&& self.keys@.len() <= T::Id::spec_max()
        &&& forall|i: int, j: int|
            0 <= i < j < self.spec_names().len() ==> self.spec_names()[i] != self.spec_names()[j]
    }

    /// An empty registry.
    pub fn new() -> (r: IdMap<T>)
        ensures
            r.wf(),
            r.spec_names() =~= Seq::<Seq<char>>::empty(),
            r.spec_values() =~= Seq::<T>::empty(),
    {
        let r = IdMap { keys: Vec::new(), vals: Vec::new() };
        proof {
            T::Id::lemma_max_bounds();
            assert(r.spec_names() =~= Seq::<Seq<char>>::empty());
        }
        r
    }

    /// The index at which `name` is interned, if it is.
    fn find_index(&self, name: &str) -> (r: Option<usize>)
        ensures
            match r {
                Some(i) => 0 <= i < self.spec_len() && self.spec_names()[i as int] == name@,
                None => !self.spec_contains_name(name@),
            },
    {
        let mut i: usize = 0;
        while i < self.keys.len()
            invariant
                i <= self.keys@.len(),
                forall|j: int| 0 <= j < i ==> self.spec_names()[j] != name@,
            decreases self.keys@.len() - i,
        {
            if str_eq(self.keys[i].as_str(), name) {
                return Some(i);
            }
            i = i + 1;
        }
        None
    }

    /// Interns `name` with `value` and returns the assigned dense id.
    ///
    /// Fails with `DuplicateName` if the name is already interned, and with
    /// `NoMoreIds` once the entry count equals the id type's maximum value;
    /// in both cases the map is unchanged.  Ids are assigned strictly in
    /// insertion order starting at 0 and are never reused after a failure.
    pub fn insert(&mut self, name: String, value: T) -> (r: Result<T::Id, InsertError>)
        requires
            old(self).wf(),
        ensures
            final(self).wf(),
            match r {
                Ok(id) => {
                    &&& !old(self).spec_contains_name(name@)
                    &&& old(self).spec_len() < T::Id::spec_max()
                    &&& id.id_spec() == old(self).spec_len()
                    &&& final(self).spec_names() =~= old(self).spec_names() + seq![name@]
                    &&& final(self).spec_values() =~= old(self).spec_values() + seq![value]
                },
                Err(InsertError::DuplicateName) => {
                    &&& old(self).spec_contains_name(name@)
                    &&& final(self).spec_names() =~= old(self).spec_names()
                    &&& final(self).spec_values() =~= old(self).spec_values()
                },
                Err(InsertError::NoMoreIds) => {
                    &&& !old(self).spec_contains_name(name@)
                    &&& old(self).spec_len() == T::Id::spec_max()
                    &&& final(self).spec_names() =~= old(self).spec_names()
                    &&& final(self).spec_values() =~= old(self).spec_values()
                },
            },
    {
        let len = self.keys.len();
        match self.find_index(name.as_str()) {
            Some(_) => Err(InsertError::DuplicateName),
            None => {
                let max = T::Id::max_value();
                if len < max {
                    let id = T::Id::from_usize(len);
                    self.keys.push(name);
                    self.vals.push(value);
                    proof {
                        assert(self.spec_names() =~= old(self).spec_names() + seq![name@]);
                    }
                    Ok(id)
                } else {
                    Err(InsertError::NoMoreIds)
                }
            },
        }
    }

    /// Positional lookup: the value interned under `index`, if any.
    pub fn get(&self, index: T::Id) -> (r: Option<&T>)
        requires
            self.wf(),
        ensures
            match r {
                Some(v) => 0 <= index.id_spec() < self.spec_len() && *v == self.spec_values()[
                    index.id_spec()],
                None => index.id_spec() >= self.spec_len(),
            },
    {
        let i = index.to_usize();
        if i < self.vals.len() {
            Some(&self.vals[i])
        } else {
            None
        }
    }

    /// Positional lookup returning the name as well.
    pub fn get_full(&self, index: T::Id) -> (r: Option<(&String, &T)>)
        requires
            self.wf(),
        ensures
            match r {
                Some(pair) => {
                    &&& 0 <= index.id_spec() < self.spec_len()
                    &&& pair.0@ == self.spec_names()[index.id_spec()]
                    &&& *pair.1 == self.spec_values()[index.id_spec()]
                },
                None => index.id_spec() >= self.spec_len(),
            },
    {
        let i = index.to_usize();
        if i < self.vals.len() {
            Some((&self.keys[i], &self.vals[i]))
        } else {
            None
        }
    }

    /// Name lookup returning the id and the value.
    pub fn get_full_by_name(&self, name: &str) -> (r: Option<(T::Id, &T)>)
        requires
            self.wf(),
        ensures
            match r {
                Some(pair) => {
                    &&& self.spec_contains_name(name@)
                    &&& pair.0.id_spec() == self.spec_index_of(name@)
                    &&& 0 <= pair.0.id_spec() < self.spec_len()
                    &&& self.spec_names()[pair.0.id_spec()] == name@
                    &&& *pair.1 == self.spec_values()[pair.0.id_spec()]
                },
                None => !self.spec_contains_name(name@),
            },
    {
        match self.find_index(name) {
            Some(i) => {
                proof {
                    self.lemma_index_of(i as int, name@);
                    assert((i as int) < T::Id::spec_max());
                }
                Some((T::Id::from_usize(i), &self.vals[i]))
            },
            None => None,
        }
    }

    /// Every entry in insertion order: its dense id, its name and its
    /// value.
    pub fn iter<'a>(&'a self) -> (r: Vec<(T::Id, &'a String, &'a T)>)
        requires
            self.wf(),
        ensures
            r@.len() == self.spec_len(),
            forall|i: int|
                0 <= i < r@.len() ==> (#[trigger] r@[i]).0.id_spec() == i && r@[i].1@
                    == self.spec_names()[i] && *r@[i].2 == self.spec_values()[i],
    {
        let mut r: Vec<(T::Id, &'a String, &'a T)> = Vec::new();
        let mut i: usize = 0;
        while i < self.keys.len()
            invariant
                i <= self.keys@.len(),
                self.wf(),
                r@.len() == i,
                forall|j: int|
                    0 <= j < i ==> (#[trigger] r@[j]).0.id_spec() == j && r@[j].1@
                        == self.spec_names()[j] && *r@[j].2 == self.spec_values()[j],
            decreases self.keys@.len() - i,
        {
            proof {
                self.lemma_len_bound();
            }
            let id = T::Id::from_usize(i);
            r.push((id, &self.keys[i], &self.vals[i]));
            i = i + 1;
        }
        r
    }

    /// How many entries are interned.
    pub fn len(&self) -> (r: usize)
        ensures
            r == self.spec_len(),
    {
        self.keys.len()
    }

    /// A well-formed map never outgrows its id type, and holds exactly one
    /// value per name.
    pub proof fn lemma_len_bound(self)
        requires
            self.wf(),
        ensures
            self.spec_len() <= T::Id::spec_max(),
            self.spec_values().len() == self.spec_len(),
    {
    }

    /// In a well-formed map an interned name has exactly one index, so the
    /// name-to-id and id-to-name directions are inverse to each other.
    pub proof fn lemma_index_of(self, i: int, name: Seq<char>)
        requires
            self.wf(),
            0 <= i < self.spec_len(),
            self.spec_names()[i] == name,
        ensures
            self.spec_contains_name(name),
            self.spec_index_of(name) == i,
    {
        let j = self.spec_index_of(name);
        if j != i {
            if j < i {
                assert(self.spec_names()[j] != self.spec_names()[i]);
            } else {
                assert(self.spec_names()[i] != self.spec_names()[j]);
            }
        }
    }

    /// Distinct ids always carry distinct names: the registry is a
    /// bijection between the interned names and the ids `0..len`.
    pub proof fn lemma_ids_names_bijective(self, i: int, j: int)
        requires
            self.wf(),
            0 <= i < self.spec_len(),
            0 <= j < self.spec_len(),
            i != j,
        ensures
            self.spec_names()[i] != self.spec_names()[j],
    {
    }
}

impl<T: CreateInstanceWithId> IdMap<T> {
    /// The instance stamped out by the value interned under `id`, if any.
    pub fn instance_of(&self, id: T::Id) -> (r: Option<T::Instance>)
        requires
            self.wf(),
        ensures
            match r {
                Some(inst) => 0 <= id.id_spec() < self.spec_len() && inst == self.spec_values()[
                    id.id_spec()].spec_create_instance(id),
                None => id.id_spec() >= self.spec_len(),
            },
    {
        match self.get(id) {
            Some(class) => Some(class.create_instance(id)),
            None => None,
        }
    }
}

} // verus!
