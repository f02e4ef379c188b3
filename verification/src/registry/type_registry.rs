//! A registry of types, found by identifier, by full path or by short name.
use vstd::prelude::*;
use vstd::map::*;

use crate::info::{Type, TypeId, TypeInfo, Typed, str_eq};
use crate::info::{BOOL_TYPE_ID, CHAR_TYPE_ID, I64_TYPE_ID, STRING_TYPE_ID, U64_TYPE_ID, UNIT_TYPE_ID};
use crate::info::{I8_TYPE_ID, I16_TYPE_ID, I32_TYPE_ID, I128_TYPE_ID, ISIZE_TYPE_ID, U8_TYPE_ID, U16_TYPE_ID, U32_TYPE_ID, U128_TYPE_ID, USIZE_TYPE_ID};
use crate::registry::traits::{FromType, ReflectDefault, ReflectDeserialize, ReflectFromReflect};
use crate::registry::traits::ReflectSerialize;
use crate::registry::type_meta::{TraitKind, TypeMeta, TypeTrait, meta_id};

verus! {

/// Whether no two registrations are kept under the same type identifier.
pub open spec fn ids_distinct(ids: Seq<TypeId>) -> bool {
    forall|i: int, j: int| 0 <= i < ids.len() && 0 <= j < ids.len() && i != j ==> ids[i] != ids[j]
}

/// Whether no two entries of an index carry the same text.
pub open spec fn keys_unique(s: Seq<(&'static str, TypeId)>) -> bool {
    forall|i: int, j: int| 0 <= i < s.len() && 0 <= j < s.len() && i != j ==> s[i].0@ != s[j].0@
}

/// Whether no two texts of the sequence are equal.
pub open spec fn strs_unique(s: Seq<&'static str>) -> bool {
    forall|i: int, j: int| 0 <= i < s.len() && 0 <= j < s.len() && i != j ==> s[i]@ != s[j]@
}

/// The registrations as a map from the type identifier each is kept under.
pub open spec fn meta_table(ids: Seq<TypeId>, metas: Seq<TypeMeta>) -> Map<TypeId, TypeMeta> {
    Map::new(
        |id: TypeId| exists|i: int| 0 <= i < ids.len() && ids[i] == id,
        |id: TypeId| metas[choose|i: int| 0 <= i < ids.len() && ids[i] == id],
    )
}

/// An index as a map from text to type identifier.
pub open spec fn index_map(s: Seq<(&'static str, TypeId)>) -> Map<Seq<char>, TypeId> {
    Map::new(
        |k: Seq<char>| exists|i: int| 0 <= i < s.len() && s[i].0@ == k,
        |k: Seq<char>| s[choose|i: int| 0 <= i < s.len() && s[i].0@ == k].1,
    )
}

/// The texts of a sequence as a set.
pub open spec fn str_set(s: Seq<&'static str>) -> Set<Seq<char>> {
    Set::new(|k: Seq<char>| exists|i: int| 0 <= i < s.len() && s[i]@ == k)
}

proof fn lemma_table_at(ids: Seq<TypeId>, metas: Seq<TypeMeta>, i: int)
    requires
        ids_distinct(ids),
        0 <= i < ids.len(),
    ensures
        meta_table(ids, metas).dom().contains(ids[i]),
        meta_table(ids, metas)[ids[i]] == metas[i],
{
    let id = ids[i];
    assert(meta_table(ids, metas).dom().contains(id));
    let j = choose|j: int| 0 <= j < ids.len() && ids[j] == id;
    assert(j == i);
}

proof fn lemma_table_push(ids: Seq<TypeId>, metas: Seq<TypeMeta>, id: TypeId, m: TypeMeta)
    requires
        ids_distinct(ids),
        ids.len() == metas.len(),
        !meta_table(ids, metas).dom().contains(id),
    ensures
        ids_distinct(ids.push(id)),
        meta_table(ids.push(id), metas.push(m)) == meta_table(ids, metas).insert(id, m),
{
    let (t, u) = (ids.push(id), metas.push(m));
    assert forall|i: int| 0 <= i < ids.len() implies ids[i] != id by {
        if ids[i] == id {
            assert(meta_table(ids, metas).dom().contains(id));
        }
    }
    assert(ids_distinct(t));
    assert forall|k: TypeId| #[trigger] meta_table(t, u).dom().contains(k) == meta_table(ids, metas).insert(
        id,
        m,
    ).dom().contains(k) by {
        if meta_table(ids, metas).dom().contains(k) {
            let i = choose|i: int| 0 <= i < ids.len() && ids[i] == k;
            assert(t[i] == ids[i]);
        }
        if k == id {
            assert(t[ids.len() as int] == id);
        }
    }
    assert forall|k: TypeId| #[trigger] meta_table(t, u).dom().contains(k) implies meta_table(t, u)[k]
        == meta_table(ids, metas).insert(id, m)[k] by {
        if k == id {
            lemma_table_at(t, u, ids.len() as int);
        } else {
            let i = choose|i: int| 0 <= i < t.len() && t[i] == k;
            assert(i < ids.len());
            lemma_table_at(t, u, i);
            lemma_table_at(ids, metas, i);
        }
    }
    assert(meta_table(t, u) =~= meta_table(ids, metas).insert(id, m));
}

proof fn lemma_table_update(ids: Seq<TypeId>, metas: Seq<TypeMeta>, i: int, m: TypeMeta)
    requires
        ids_distinct(ids),
        ids.len() == metas.len(),
        0 <= i < ids.len(),
    ensures
        meta_table(ids, metas.update(i, m)) == meta_table(ids, metas).insert(ids[i], m),
{
    let u = metas.update(i, m);
    assert forall|k: TypeId| #[trigger] meta_table(ids, u).dom().contains(k) == meta_table(ids, metas).insert(
        ids[i],
        m,
    ).dom().contains(k) by {
        if k == ids[i] {
            assert(meta_table(ids, u).dom().contains(k));
        }
    }
    assert forall|k: TypeId| #[trigger] meta_table(ids, u).dom().contains(k) implies meta_table(ids, u)[k]
        == meta_table(ids, metas).insert(ids[i], m)[k] by {
        let j = choose|j: int| 0 <= j < ids.len() && ids[j] == k;
        lemma_table_at(ids, u, j);
        if j != i {
            lemma_table_at(ids, metas, j);
        }
    }
    assert(meta_table(ids, u) =~= meta_table(ids, metas).insert(ids[i], m));
}

proof fn lemma_index_at(s: Seq<(&'static str, TypeId)>, i: int)
    requires
        keys_unique(s),
        0 <= i < s.len(),
    ensures
        index_map(s).dom().contains(s[i].0@),
        index_map(s)[s[i].0@] == s[i].1,
{
    let k = s[i].0@;
    assert(index_map(s).dom().contains(k));
    let j = choose|j: int| 0 <= j < s.len() && s[j].0@ == k;
    assert(j == i);
}

proof fn lemma_index_push(s: Seq<(&'static str, TypeId)>, k: &'static str, id: TypeId)
    requires
        keys_unique(s),
        !index_map(s).dom().contains(k@),
    ensures
        keys_unique(s.push((k, id))),
        index_map(s.push((k, id))) == index_map(s).insert(k@, id),
{
    let t = s.push((k, id));
    assert forall|i: int| 0 <= i < s.len() implies s[i].0@ != k@ by {
        if s[i].0@ == k@ {
            assert(index_map(s).dom().contains(k@));
        }
    }
    assert(keys_unique(t));
    assert forall|key: Seq<char>| #[trigger] index_map(t).dom().contains(key) == index_map(
        s,
    ).insert(k@, id).dom().contains(key) by {
        if index_map(s).dom().contains(key) {
            let i = choose|i: int| 0 <= i < s.len() && s[i].0@ == key;
            assert(t[i] == s[i]);
        }
        if key == k@ {
            assert(t[s.len() as int].0@ == k@);
        }
    }
    assert forall|key: Seq<char>| #[trigger] index_map(t).dom().contains(key) implies index_map(
        t,
    )[key] == index_map(s).insert(k@, id)[key] by {
        if key == k@ {
            lemma_index_at(t, s.len() as int);
        } else {
            let i = choose|i: int| 0 <= i < t.len() && t[i].0@ == key;
            assert(i < s.len());
            lemma_index_at(t, i);
            lemma_index_at(s, i);
        }
    }
    assert(index_map(t) =~= index_map(s).insert(k@, id));
}

proof fn lemma_index_update(s: Seq<(&'static str, TypeId)>, i: int, k: &'static str, id: TypeId)
    requires
        keys_unique(s),
        0 <= i < s.len(),
        s[i].0@ == k@,
    ensures
        keys_unique(s.update(i, (k, id))),
        index_map(s.update(i, (k, id))) == index_map(s).insert(k@, id),
{
    let t = s.update(i, (k, id));
    assert(keys_unique(t));
    assert forall|key: Seq<char>| #[trigger] index_map(t).dom().contains(key) == index_map(
        s,
    ).insert(k@, id).dom().contains(key) by {
        if index_map(s).dom().contains(key) {
            let j = choose|j: int| 0 <= j < s.len() && s[j].0@ == key;
            assert(t[j].0@ == key);
        }
        if index_map(t).dom().contains(key) {
            let j = choose|j: int| 0 <= j < t.len() && t[j].0@ == key;
            assert(s[j].0@ == key);
        }
    }
    assert forall|key: Seq<char>| #[trigger] index_map(t).dom().contains(key) implies index_map(
        t,
    )[key] == index_map(s).insert(k@, id)[key] by {
        let j = choose|j: int| 0 <= j < t.len() && t[j].0@ == key;
        lemma_index_at(t, j);
        if j != i {
            lemma_index_at(s, j);
        }
    }
    assert(index_map(t) =~= index_map(s).insert(k@, id));
}

proof fn lemma_index_remove(s: Seq<(&'static str, TypeId)>, i: int)
    requires
        keys_unique(s),
        0 <= i < s.len(),
    ensures
        keys_unique(s.remove(i)),
        index_map(s.remove(i)) == index_map(s).remove(s[i].0@),
{
    let t = s.remove(i);
    let k = s[i].0@;
    assert forall|a: int, b: int| 0 <= a < t.len() && 0 <= b < t.len() && a != b implies t[a].0@
        != t[b].0@ by {
        let sa = if a < i { a } else { a + 1 };
        let sb = if b < i { b } else { b + 1 };
        assert(t[a] == s[sa]);
        assert(t[b] == s[sb]);
    }
    assert forall|key: Seq<char>| #[trigger] index_map(t).dom().contains(key) == index_map(
        s,
    ).remove(k).dom().contains(key) by {
        if index_map(t).dom().contains(key) {
            let j = choose|j: int| 0 <= j < t.len() && t[j].0@ == key;
            let sj = if j < i { j } else { j + 1 };
            assert(t[j] == s[sj]);
        }
        if index_map(s).dom().contains(key) && key != k {
            let j = choose|j: int| 0 <= j < s.len() && s[j].0@ == key;
            assert(j != i);
            let tj = if j < i { j } else { j - 1 };
            assert(t[tj] == s[j]);
        }
    }
    assert forall|key: Seq<char>| #[trigger] index_map(t).dom().contains(key) implies index_map(
        t,
    )[key] == index_map(s).remove(k)[key] by {
        let j = choose|j: int| 0 <= j < t.len() && t[j].0@ == key;
        let sj = if j < i { j } else { j + 1 };
        assert(t[j] == s[sj]);
        lemma_index_at(t, j);
        lemma_index_at(s, sj);
    }
    assert(index_map(t) =~= index_map(s).remove(k));
}

proof fn lemma_str_push(s: Seq<&'static str>, k: &'static str)
    requires
        strs_unique(s),
        !str_set(s).contains(k@),
    ensures
        strs_unique(s.push(k)),
        str_set(s.push(k)) == str_set(s).insert(k@),
{
    let t = s.push(k);
    assert forall|i: int| 0 <= i < s.len() implies s[i]@ != k@ by {
        if s[i]@ == k@ {
            assert(str_set(s).contains(k@));
        }
    }
    assert(strs_unique(t));
    assert forall|key: Seq<char>| #[trigger] str_set(t).contains(key) == str_set(s).insert(
        k@,
    ).contains(key) by {
        if str_set(s).contains(key) {
            let i = choose|i: int| 0 <= i < s.len() && s[i]@ == key;
            assert(t[i] == s[i]);
        }
        if key == k@ {
            assert(t[s.len() as int]@ == k@);
        }
    }
    assert(str_set(t) =~= str_set(s).insert(k@));
}

/// The name index after a new type with the given short name and identifier is added: the name
/// maps to the type unless some registered type already bears it, in which case no type is
/// found under the name any more.
pub open spec fn names_after(
    names: Map<Seq<char>, TypeId>,
    ambiguous: Set<Seq<char>>,
    name: Seq<char>,
    id: TypeId,
) -> Map<Seq<char>, TypeId> {
    if ambiguous.contains(name) {
        names
    } else if names.dom().contains(name) {
        names.remove(name)
    } else {
        names.insert(name, id)
    }
}

/// The set of ambiguous names after a new type with the given short name is added.
pub open spec fn ambiguous_after(
    names: Map<Seq<char>, TypeId>,
    ambiguous: Set<Seq<char>>,
    name: Seq<char>,
) -> Set<Seq<char>> {
    if !ambiguous.contains(name) && names.dom().contains(name) {
        ambiguous.insert(name)
    } else {
        ambiguous
    }
}

/// Finds the position of the registration kept under the given type identifier.
fn find_meta(ids: &Vec<TypeId>, id: TypeId) -> (r: Option<usize>)
    ensures
        match r {
            Some(i) => i < ids@.len() && ids@[i as int] == id,
            None => forall|j: int| 0 <= j < ids@.len() ==> ids@[j] != id,
        },
{
    let mut i: usize = 0;
    while i < ids.len()
        invariant
            i <= ids@.len(),
            forall|j: int| 0 <= j < i ==> ids@[j] != id,
        decreases ids@.len() - i,
    {
        if ids[i] == id {
            return Some(i);
        }
        i = i + 1;
    }
    None
}

/// Finds the entry of an index that carries the given text.
fn find_key(index: &Vec<(&'static str, TypeId)>, key: &str) -> (r: Option<usize>)
    ensures
        match r {
            Some(i) => i < index@.len() && index@[i as int].0@ == key@,
            None => !index_map(index@).dom().contains(key@),
        },
{
    let mut i: usize = 0;
    while i < index.len()
        invariant
            i <= index@.len(),
            forall|j: int| 0 <= j < i ==> index@[j].0@ != key@,
        decreases index@.len() - i,
    {
        if str_eq(index[i].0, key) {
            return Some(i);
        }
        i = i + 1;
    }
    None
}

/// Whether a sequence of texts holds the given text.
fn contains_str(texts: &Vec<&'static str>, key: &str) -> (r: bool)
    ensures
        r == str_set(texts@).contains(key@),
{
    let mut i: usize = 0;
    while i < texts.len()
        invariant
            i <= texts@.len(),
            forall|j: int| 0 <= j < i ==> texts@[j]@ != key@,
        decreases texts@.len() - i,
    {
        if str_eq(texts[i], key) {
            return true;
        }
        i = i + 1;
    }
    false
}

/// A store of registrations, one per type identifier, with an index by full path and an index by
/// short name.
///
/// A short name borne by two registered types is ambiguous: no type is found under it.
pub struct TypeRegistry {
    ids: Vec<TypeId>,
    metas: Vec<TypeMeta>,
    paths: Vec<(&'static str, TypeId)>,
    names: Vec<(&'static str, TypeId)>,
    ambiguous: Vec<&'static str>,
}

impl TypeRegistry {
    #[verifier::type_invariant]
    closed spec fn inv(self) -> bool {
        &&& self.ids@.len() == self.metas@.len()
        &&& ids_distinct(self.ids@)
        &&& keys_unique(self.paths@)
        &&& keys_unique(self.names@)
        &&& strs_unique(self.ambiguous@)
        &&& forall|k: Seq<char>| #[trigger]
            index_map(self.names@).dom().contains(k) ==> !str_set(self.ambiguous@).contains(k)
        &&& forall|k: Seq<char>| #[trigger]
            index_map(self.paths@).dom().contains(k) ==> self.ids@.contains(index_map(self.paths@)[k])
        &&& forall|k: Seq<char>| #[trigger]
            index_map(self.names@).dom().contains(k) ==> self.ids@.contains(index_map(self.names@)[k])
    }

    /// The registrations, by type identifier.
    pub closed spec fn table(self) -> Map<TypeId, TypeMeta> {
        meta_table(self.ids@, self.metas@)
    }

    /// The type identifier registered under each full path.
    pub closed spec fn path_index(self) -> Map<Seq<char>, TypeId> {
        index_map(self.paths@)
    }

    /// The type identifier registered under each short name that is not ambiguous.
    pub closed spec fn name_index(self) -> Map<Seq<char>, TypeId> {
        index_map(self.names@)
    }

    /// The short names borne by more than one registered type.
    pub closed spec fn ambiguous_names(self) -> Set<Seq<char>> {
        str_set(self.ambiguous@)
    }

    /// Whether the registrations and both indices of `self` include those of `old`, unchanged.
    pub open spec fn extends(self, old: TypeRegistry) -> bool {
        forall|id: TypeId| #[trigger]
            old.table().dom().contains(id) ==> self.table().dom().contains(id) && self.table()[id]
                == old.table()[id]
    }

    /// Whether `self` is `old` after the new registration `m` was added.
    pub open spec fn added(self, old: TypeRegistry, m: TypeMeta) -> bool {
        let ty = m.spec_info().spec_ty();
        &&& self.table() == old.table().insert(ty.id, m)
        &&& self.path_index() == old.path_index().insert(ty.path@, ty.id)
        &&& self.name_index() == names_after(
            old.name_index(),
            old.ambiguous_names(),
            ty.name@,
            ty.id,
        )
        &&& self.ambiguous_names() == ambiguous_after(
            old.name_index(),
            old.ambiguous_names(),
            ty.name@,
        )
    }

    /// Whether `self` has the same registrations and indices as `old`.
    pub open spec fn same(self, old: TypeRegistry) -> bool {
        &&& self.table() == old.table()
        &&& self.path_index() == old.path_index()
        &&& self.name_index() == old.name_index()
        &&& self.ambiguous_names() == old.ambiguous_names()
    }

    /// Every type found under a path or a name is registered, and no name is both found and
    /// ambiguous.
    pub fn check_indices(&self)
        ensures
            forall|k: Seq<char>| #[trigger]
                self.path_index().dom().contains(k) ==> self.table().dom().contains(
                    self.path_index()[k],
                ),
            forall|k: Seq<char>| #[trigger]
                self.name_index().dom().contains(k) ==> self.table().dom().contains(
                    self.name_index()[k],
                ) && !self.ambiguous_names().contains(k),
    {
        proof {
            use_type_invariant(self);
        }
    }

    /// An empty registry.
    pub fn empty() -> (r: Self)
        ensures
            r.table() == Map::<TypeId, TypeMeta>::empty(),
            r.path_index() == Map::<Seq<char>, TypeId>::empty(),
            r.name_index() == Map::<Seq<char>, TypeId>::empty(),
            r.ambiguous_names() == Set::<Seq<char>>::empty(),
    {
        let r = TypeRegistry {
            ids: Vec::new(),
            metas: Vec::new(),
            paths: Vec::new(),
            names: Vec::new(),
            ambiguous: Vec::new(),
        };
        assert(meta_table(r.ids@, r.metas@) =~= Map::empty());
        assert(index_map(r.paths@) =~= Map::empty());
        assert(index_map(r.names@) =~= Map::empty());
        assert(str_set(r.ambiguous@) =~= Set::empty());
        r
    }

    /// Adds the path and name of a newly registered type to the indices.
    fn add_new_type_indices(
        ty: Type,
        paths: &mut Vec<(&'static str, TypeId)>,
        names: &mut Vec<(&'static str, TypeId)>,
        ambiguous: &mut Vec<&'static str>,
    )
        requires
            keys_unique(old(paths)@),
            keys_unique(old(names)@),
            strs_unique(old(ambiguous)@),
            forall|k: Seq<char>| #[trigger]
                index_map(old(names)@).dom().contains(k) ==> !str_set(old(ambiguous)@).contains(k),
        ensures
            keys_unique(final(paths)@),
            keys_unique(final(names)@),
            strs_unique(final(ambiguous)@),
            forall|k: Seq<char>| #[trigger]
                index_map(final(names)@).dom().contains(k) ==> !str_set(final(ambiguous)@).contains(
                    k,
                ),
            index_map(final(paths)@) == index_map(old(paths)@).insert(ty.path@, ty.id),
            index_map(final(names)@) == names_after(
                index_map(old(names)@),
                str_set(old(ambiguous)@),
                ty.name@,
                ty.id,
            ),
            str_set(final(ambiguous)@) == ambiguous_after(
                index_map(old(names)@),
                str_set(old(ambiguous)@),
                ty.name@,
            ),
    {
        let name = ty.name;
        if !contains_str(ambiguous, name) {
            match find_key(names, name) {
                Some(i) => {
                    proof {
                        lemma_index_at(names@, i as int);
                        lemma_index_remove(names@, i as int);
                    }
                    names.remove(i);
                    proof {
                        lemma_str_push(ambiguous@, name);
                    }
                    ambiguous.push(name);
                },
                None => {
                    proof {
                        lemma_index_push(names@, name, ty.id);
                    }
                    names.push((name, ty.id));
                },
            }
        }
        match find_key(paths, ty.path) {
            Some(i) => {
                proof {
                    lemma_index_update(paths@, i as int, ty.path, ty.id);
                }
                paths.set(i, (ty.path, ty.id));
            },
            None => {
                proof {
                    lemma_index_push(paths@, ty.path, ty.id);
                }
                paths.push((ty.path, ty.id));
            },
        }
    }

    /// Adds the registration of a type that is not registered.
    fn add_new(&mut self, type_meta: TypeMeta)
        requires
            !old(self).table().dom().contains(meta_id(type_meta)),
        ensures
            final(self).added(*old(self), type_meta),
    {
        proof {
            use_type_invariant(&*self);
        }
        let ty = type_meta.ty();
        let mut taken = TypeRegistry::empty();
        std::mem::swap(&mut taken, self);
        proof {
            use_type_invariant(&taken);
        }
        let TypeRegistry { mut ids, mut metas, mut paths, mut names, mut ambiguous } = taken;
        let ghost ids0 = ids@;
        let ghost paths0 = index_map(paths@);
        let ghost names0 = index_map(names@);
        proof {
            lemma_table_push(ids@, metas@, ty.id, type_meta);
        }
        ids.push(ty.id);
        metas.push(type_meta);
        Self::add_new_type_indices(ty, &mut paths, &mut names, &mut ambiguous);
        proof {
            assert forall|x: TypeId| ids0.contains(x) || x == ty.id implies ids@.contains(x) by {
                if x == ty.id {
                    assert(ids@[ids0.len() as int] == x);
                } else {
                    let j = choose|j: int| 0 <= j < ids0.len() && ids0[j] == x;
                    assert(ids@[j] == x);
                }
            }
            assert forall|k: Seq<char>| #[trigger] index_map(paths@).dom().contains(k) implies ids@.contains(
                index_map(paths@)[k],
            ) by {
                if k != ty.path@ {
                    assert(paths0.dom().contains(k));
                    assert(ids0.contains(paths0[k]));
                    let j = choose|j: int| 0 <= j < ids0.len() && ids0[j] == paths0[k];
                    assert(ids@[j] == index_map(paths@)[k]);
                } else {
                    assert(ids@[ids0.len() as int] == index_map(paths@)[k]);
                }
            }
            assert forall|k: Seq<char>| #[trigger] index_map(names@).dom().contains(k) implies ids@.contains(
                index_map(names@)[k],
            ) by {
                if !(k == ty.name@ && index_map(names@)[k] == ty.id) {
                    assert(names0.dom().contains(k));
                    assert(ids0.contains(names0[k]));
                    let j = choose|j: int| 0 <= j < ids0.len() && ids0[j] == names0[k];
                    assert(ids@[j] == index_map(names@)[k]);
                } else {
                    assert(ids@[ids0.len() as int] == index_map(names@)[k]);
                }
            }
        }
        *self = TypeRegistry { ids, metas, paths, names, ambiguous };
    }

    /// Puts a registration in place of the one at the position, of the same type.
    fn replace_at(&mut self, i: usize, type_meta: TypeMeta)
        requires
            i < old(self).metas@.len(),
        ensures
            final(self).ids@ == old(self).ids@,
            final(self).metas@ == old(self).metas@.update(i as int, type_meta),
            final(self).paths@ == old(self).paths@,
            final(self).names@ == old(self).names@,
            final(self).ambiguous@ == old(self).ambiguous@,
    {
        proof {
            use_type_invariant(&*self);
        }
        let mut taken = TypeRegistry::empty();
        std::mem::swap(&mut taken, self);
        proof {
            use_type_invariant(&taken);
        }
        let TypeRegistry { ids, mut metas, paths, names, ambiguous } = taken;
        metas.set(i, type_meta);
        *self = TypeRegistry { ids, metas, paths, names, ambiguous };
    }

    /// Puts a capability in the registration at the position.
    fn insert_trait_at(&mut self, i: usize, type_trait: TypeTrait)
        requires
            i < old(self).metas@.len(),
        ensures
            final(self).metas@.len() == old(self).metas@.len(),
            final(self).metas@[i as int].inserted(old(self).metas@[i as int], type_trait),
            forall|j: int| 0 <= j < old(self).metas@.len() && j != i ==> final(self).metas@[j] == old(
                self,
            ).metas@[j],
            final(self).ids@ == old(self).ids@,
            final(self).table() == old(self).table().insert(
                old(self).ids@[i as int],
                final(self).metas@[i as int],
            ),
            final(self).paths@ == old(self).paths@,
            final(self).names@ == old(self).names@,
            final(self).ambiguous@ == old(self).ambiguous@,
    {
        proof {
            use_type_invariant(&*self);
        }
        let mut taken = TypeRegistry::empty();
        std::mem::swap(&mut taken, self);
        proof {
            use_type_invariant(&taken);
        }
        let TypeRegistry { ids, mut metas, paths, names, ambiguous } = taken;
        let ghost before = metas@;
        let mut meta = metas.remove(i);
        meta.insert_trait(type_trait);
        metas.insert(i, meta);
        proof {
            assert(metas@ =~= before.update(i as int, meta));
            lemma_table_update(ids@, before, i as int, meta);
        }
        *self = TypeRegistry { ids, metas, paths, names, ambiguous };
    }

    /// Adds a registration, unless the type is registered already.
    ///
    /// Returns whether it was added; a registration already present is left as it was.
    pub fn try_insert_type_meta(&mut self, type_meta: TypeMeta) -> (r: bool)
        ensures
            r == !old(self).table().dom().contains(meta_id(type_meta)),
            r ==> final(self).added(*old(self), type_meta),
            !r ==> final(self).same(*old(self)),
    {
        proof {
            use_type_invariant(&*self);
        }
        let id = type_meta.type_id();
        match find_meta(&self.ids, id) {
            Some(i) => {
                proof {
                    lemma_table_at(self.ids@, self.metas@, i as int);
                }
                false
            },
            None => {
                self.add_new(type_meta);
                true
            },
        }
    }

    /// Adds a registration, or replaces the one of the same type.
    ///
    /// The indices take in the path and name of a type that was not registered; those of a
    /// registered type stay as they were.
    pub fn insert_type_meta(&mut self, type_meta: TypeMeta)
        ensures
            !old(self).table().dom().contains(meta_id(type_meta)) ==> final(self).added(
                *old(self),
                type_meta,
            ),
            old(self).table().dom().contains(meta_id(type_meta)) ==> {
                &&& final(self).table() == old(self).table().insert(meta_id(type_meta), type_meta)
                &&& final(self).path_index() == old(self).path_index()
                &&& final(self).name_index() == old(self).name_index()
                &&& final(self).ambiguous_names() == old(self).ambiguous_names()
            },
    {
        proof {
            use_type_invariant(&*self);
        }
        let id = type_meta.type_id();
        match find_meta(&self.ids, id) {
            Some(i) => {
                proof {
                    lemma_table_update(self.ids@, self.metas@, i as int, type_meta);
                }
                self.replace_at(i, type_meta);
            },
            None => {
                self.add_new(type_meta);
            },
        }
    }

    /// Puts a capability in the registration of a registered type, in place of the one of its
    /// kind.
    pub fn register_type_trait(&mut self, type_id: TypeId, type_trait: TypeTrait)
        requires
            old(self).table().dom().contains(type_id),
        ensures
            final(self).table().dom() == old(self).table().dom(),
            final(self).table()[type_id].inserted(old(self).table()[type_id], type_trait),
            forall|id: TypeId| #[trigger]
                old(self).table().dom().contains(id) && id != type_id ==> final(self).table()[id]
                    == old(self).table()[id],
            final(self).path_index() == old(self).path_index(),
            final(self).name_index() == old(self).name_index(),
            final(self).ambiguous_names() == old(self).ambiguous_names(),
    {
        proof {
            use_type_invariant(&*self);
        }
        match find_meta(&self.ids, type_id) {
            Some(i) => {
                proof {
                    lemma_table_at(self.ids@, self.metas@, i as int);
                }
                self.insert_trait_at(i, type_trait);
            },
            None => {},
        }
    }

    /// Whether the type is registered.
    pub fn contains(&self, type_id: TypeId) -> (r: bool)
        ensures
            r == self.table().dom().contains(type_id),
    {
        proof {
            use_type_invariant(self);
        }
        match find_meta(&self.ids, type_id) {
            Some(i) => {
                proof {
                    lemma_table_at(self.ids@, self.metas@, i as int);
                }
                true
            },
            None => false,
        }
    }

    /// The registration of the type.
    pub fn get(&self, type_id: TypeId) -> (r: Option<&TypeMeta>)
        ensures
            match r {
                Some(m) => self.table().dom().contains(type_id) && *m == self.table()[type_id],
                None => !self.table().dom().contains(type_id),
            },
    {
        proof {
            use_type_invariant(self);
        }
        match find_meta(&self.ids, type_id) {
            Some(i) => {
                proof {
                    lemma_table_at(self.ids@, self.metas@, i as int);
                }
                Some(&self.metas[i])
            },
            None => None,
        }
    }

    /// The registration of the type, for changing in place; the indices stay as they are.
    pub fn get_mut(&mut self, type_id: TypeId) -> (r: Option<&mut TypeMeta>)
        ensures
            old(self).table().dom().contains(type_id) ==> {
                &&& r is Some
                &&& *r->Some_0 == old(self).table()[type_id]
                &&& final(self).table() == old(self).table().insert(type_id, *final(r->Some_0))
            },
            !old(self).table().dom().contains(type_id) ==> r is None && final(self).table() == old(
                self,
            ).table(),
            final(self).path_index() == old(self).path_index(),
            final(self).name_index() == old(self).name_index(),
            final(self).ambiguous_names() == old(self).ambiguous_names(),
    {
        proof {
            use_type_invariant(&*self);
        }
        match find_meta(&self.ids, type_id) {
            Some(i) => {
                proof {
                    lemma_table_at(self.ids@, self.metas@, i as int);
                    assert forall|m: TypeMeta|
                        #[trigger] meta_table(self.ids@, self.metas@.update(i as int, m)) == meta_table(
                            self.ids@,
                            self.metas@,
                        ).insert(type_id, m) by {
                        lemma_table_update(self.ids@, self.metas@, i as int, m);
                    }
                }
                Some(&mut self.metas[i])
            },
            None => None,
        }
    }

    /// The registration of the type registered under the full path, for changing in place.
    pub fn get_with_type_path_mut(&mut self, type_path: &str) -> (r: Option<&mut TypeMeta>)
        ensures
            match old(self).path_index().get(type_path@) {
                Some(id) => {
                    &&& r is Some
                    &&& *r->Some_0 == old(self).table()[id]
                    &&& final(self).table() == old(self).table().insert(id, *final(r->Some_0))
                },
                None => r is None && final(self).table() == old(self).table(),
            },
            final(self).path_index() == old(self).path_index(),
            final(self).name_index() == old(self).name_index(),
            final(self).ambiguous_names() == old(self).ambiguous_names(),
    {
        proof {
            use_type_invariant(&*self);
        }
        match find_key(&self.paths, type_path) {
            Some(i) => {
                proof {
                    lemma_index_at(self.paths@, i as int);
                }
                let id = self.paths[i].1;
                self.get_mut(id)
            },
            None => None,
        }
    }

    /// The registration of the type registered under the short name, for changing in place;
    /// none for an ambiguous name.
    pub fn get_with_type_name_mut(&mut self, short_name: &str) -> (r: Option<&mut TypeMeta>)
        ensures
            match old(self).name_index().get(short_name@) {
                Some(id) => {
                    &&& r is Some
                    &&& *r->Some_0 == old(self).table()[id]
                    &&& final(self).table() == old(self).table().insert(id, *final(r->Some_0))
                },
                None => r is None && final(self).table() == old(self).table(),
            },
            final(self).path_index() == old(self).path_index(),
            final(self).name_index() == old(self).name_index(),
            final(self).ambiguous_names() == old(self).ambiguous_names(),
    {
        proof {
            use_type_invariant(&*self);
        }
        match find_key(&self.names, short_name) {
            Some(i) => {
                proof {
                    lemma_index_at(self.names@, i as int);
                }
                let id = self.names[i].1;
                self.get_mut(id)
            },
            None => None,
        }
    }

    /// The registration of the type registered under the full path.
    pub fn get_with_type_path(&self, type_path: &str) -> (r: Option<&TypeMeta>)
        ensures
            match self.path_index().get(type_path@) {
                Some(id) => r matches Some(m) && *m == self.table()[id],
                None => r is None,
            },
    {
        proof {
            use_type_invariant(self);
        }
        match find_key(&self.paths, type_path) {
            Some(i) => {
                proof {
                    lemma_index_at(self.paths@, i as int);
                }
                self.get(self.paths[i].1)
            },
            None => None,
        }
    }

    /// The registration of the type registered under the short name; none for an ambiguous
    /// name.
    pub fn get_with_type_name(&self, short_name: &str) -> (r: Option<&TypeMeta>)
        ensures
            match self.name_index().get(short_name@) {
                Some(id) => r matches Some(m) && *m == self.table()[id],
                None => r is None,
            },
            self.ambiguous_names().contains(short_name@) ==> r is None,
    {
        proof {
            use_type_invariant(self);
        }
        match find_key(&self.names, short_name) {
            Some(i) => {
                proof {
                    lemma_index_at(self.names@, i as int);
                }
                self.get(self.names[i].1)
            },
            None => None,
        }
    }

    /// Whether the short name is borne by more than one registered type.
    pub fn is_ambiguous(&self, short_name: &str) -> (r: bool)
        ensures
            r == self.ambiguous_names().contains(short_name@),
    {
        contains_str(&self.ambiguous, short_name)
    }

    /// Whether the registered type offers a capability of the kind.
    pub fn has_type_trait(&self, type_id: TypeId, kind: TraitKind) -> (r: bool)
        ensures
            r == (self.table().dom().contains(type_id) && self.table()[type_id].spec_has(kind)),
    {
        match self.get(type_id) {
            Some(m) => m.has_trait(kind),
            None => false,
        }
    }

    /// The type information of the registered type.
    pub fn get_type_info(&self, type_id: TypeId) -> (r: Option<TypeInfo>)
        ensures
            match r {
                Some(info) => self.table().dom().contains(type_id) && info
                    == self.table()[type_id].spec_info(),
                None => !self.table().dom().contains(type_id),
            },
    {
        match self.get(type_id) {
            Some(m) => Some(m.type_info()),
            None => None,
        }
    }

    /// The identifiers under which types are registered.
    pub(crate) fn registered_ids(&self) -> (r: Vec<TypeId>)
        ensures
            forall|i: int| 0 <= i < r@.len() ==> self.table().dom().contains(#[trigger] r@[i]),
            forall|id: TypeId| #[trigger] self.table().dom().contains(id) ==> r@.contains(id),
    {
        proof {
            use_type_invariant(self);
        }
        self.ids.clone()
    }

    /// The registrations, each once.
    pub fn iter(&self) -> (r: Vec<&TypeMeta>)
        ensures
            exists|ks: Seq<TypeId>|
                #![trigger ids_distinct(ks)]
                {
                    &&& ks.len() == r@.len()
                    &&& ids_distinct(ks)
                    &&& forall|i: int|
                        0 <= i < ks.len() ==> self.table().dom().contains(#[trigger] ks[i]) && *r@[i]
                            == self.table()[ks[i]]
                    &&& forall|id: TypeId| #[trigger] self.table().dom().contains(id) ==> ks.contains(id)
                },
    {
        proof {
            use_type_invariant(self);
        }
        let mut out: Vec<&TypeMeta> = Vec::new();
        let mut i: usize = 0;
        while i < self.metas.len()
            invariant
                i <= self.metas@.len(),
                self.ids@.len() == self.metas@.len(),
                ids_distinct(self.ids@),
                out@.len() == i,
                forall|j: int| 0 <= j < i ==> *out@[j] == self.metas@[j],
            decreases self.metas@.len() - i,
        {
            out.push(&self.metas[i]);
            i = i + 1;
        }
        proof {
            let ks = self.ids@;
            assert forall|j: int| 0 <= j < ks.len() implies self.table().dom().contains(#[trigger] ks[j])
                && *out@[j] == self.table()[ks[j]] by {
                lemma_table_at(self.ids@, self.metas@, j);
            }
            assert(ids_distinct(ks));
        }
        out
    }

    /// The registrations of the types that offer a capability of the kind, each once.
    pub fn iter_with_trait(&self, kind: TraitKind) -> (r: Vec<&TypeMeta>)
        ensures
            exists|ks: Seq<TypeId>|
                #![trigger ids_distinct(ks)]
                {
                    &&& ks.len() == r@.len()
                    &&& ids_distinct(ks)
                    &&& forall|i: int|
                        0 <= i < ks.len() ==> self.table().dom().contains(#[trigger] ks[i]) && *r@[i]
                            == self.table()[ks[i]] && r@[i].spec_has(kind)
                    &&& forall|id: TypeId| #[trigger]
                        self.table().dom().contains(id) && self.table()[id].spec_has(kind) ==> ks.contains(id)
                },
    {
        proof {
            use_type_invariant(self);
        }
        let mut out: Vec<&TypeMeta> = Vec::new();
        let ghost mut pos: Seq<int> = Seq::empty();
        let mut i: usize = 0;
        while i < self.metas.len()
            invariant
                i <= self.metas@.len(),
                self.ids@.len() == self.metas@.len(),
                ids_distinct(self.ids@),
                pos.len() == out@.len(),
                forall|j: int| 0 <= j < pos.len() ==> 0 <= #[trigger] pos[j] < i && *out@[j]
                    == self.metas@[pos[j]] && out@[j].spec_has(kind),
                forall|a: int, b: int| 0 <= a < b < pos.len() ==> pos[a] < pos[b],
                forall|k: int| 0 <= k < i && (#[trigger] self.metas@[k]).spec_has(kind) ==> exists|j: int|
                    0 <= j < pos.len() && pos[j] == k,
            decreases self.metas@.len() - i,
        {
            let ghost old_pos = pos;
            if self.metas[i].has_trait(kind) {
                out.push(&self.metas[i]);
                proof {
                    pos = pos.push(i as int);
                }
            }
            proof {
                assert forall|k: int| 0 <= k < i + 1 && (#[trigger] self.metas@[k]).spec_has(kind) implies exists|j: int|
                    0 <= j < pos.len() && pos[j] == k by {
                    if k == i {
                        assert(pos[pos.len() - 1] == k);
                    } else {
                        let j = choose|j: int| 0 <= j < old_pos.len() && old_pos[j] == k;
                        assert(pos[j] == k);
                    }
                }
            }
            i = i + 1;
        }
        proof {
            let ks = Seq::new(pos.len(), |j: int| self.ids@[pos[j]]);
            assert forall|j: int| 0 <= j < ks.len() implies self.table().dom().contains(#[trigger] ks[j])
                && *out@[j] == self.table()[ks[j]] && out@[j].spec_has(kind) by {
                lemma_table_at(self.ids@, self.metas@, pos[j]);
            }
            assert forall|a: int, b: int| 0 <= a < ks.len() && 0 <= b < ks.len() && a != b implies ks[a]
                != ks[b] by {
                if a < b {
                    assert(pos[a] < pos[b]);
                } else {
                    assert(pos[b] < pos[a]);
                }
            }
            assert(ids_distinct(ks));
            assert forall|id: TypeId| #[trigger] self.table().dom().contains(id) && self.table()[id].spec_has(
                kind,
            ) implies ks.contains(id) by {
                let k = choose|k: int| 0 <= k < self.ids@.len() && self.ids@[k] == id;
                lemma_table_at(self.ids@, self.metas@, k);
                assert(self.metas@[k].spec_has(kind));
                let j = choose|j: int| 0 <= j < pos.len() && pos[j] == k;
                assert(ks[j] == id);
            }
        }
        out
    }

    /// A copy of the capability of the kind that the registered type offers.
    pub fn get_type_trait(&self, type_id: TypeId, kind: TraitKind) -> (r: Option<TypeTrait>)
        ensures
            r is Some == (self.table().dom().contains(type_id) && self.table()[type_id].spec_has(
                kind,
            )),
            r matches Some(t) ==> t.spec_kind() == kind,
            r matches Some(TypeTrait::FromReflect(t)) ==> Some(t) == self.table()[type_id].spec_from_reflect(),
            r matches Some(TypeTrait::Serialize(t)) ==> Some(t) == self.table()[type_id].spec_serialize(),
            r matches Some(TypeTrait::Deserialize(t)) ==> Some(t) == self.table()[type_id].spec_deserialize(),
            r matches Some(TypeTrait::Default(t)) ==> self.table()[type_id].spec_default() matches Some(d)
                && crate::registry::type_meta::same_default(t, d),
    {
        match self.get(type_id) {
            Some(m) => match kind {
                TraitKind::Default => match m.get_default() {
                    Some(d) => Some(TypeTrait::Default(d.clone_default())),
                    None => None,
                },
                TraitKind::FromReflect => match m.get_from_reflect() {
                    Some(d) => Some(TypeTrait::FromReflect(d)),
                    None => None,
                },
                TraitKind::Serialize => match m.get_serialize() {
                    Some(d) => Some(TypeTrait::Serialize(d)),
                    None => None,
                },
                TraitKind::Deserialize => match m.get_deserialize() {
                    Some(d) => Some(TypeTrait::Deserialize(d)),
                    None => None,
                },
            },
            None => None,
        }
    }

    /// Registers `T` with the registration it gives of itself, and then the types it depends
    /// on, unless `T` is registered already; then nothing changes.
    pub fn register<T: GetTypeMeta>(&mut self)
        ensures
            final(self).table().dom().contains(T::spec_type_info().spec_ty().id),
            old(self).table().dom().contains(T::spec_type_info().spec_ty().id) ==> final(self).same(
                *old(self),
            ),
            !old(self).table().dom().contains(T::spec_type_info().spec_ty().id) ==> {
                &&& final(self).extends(*old(self))
                &&& T::meta_built(final(self).table()[T::spec_type_info().spec_ty().id])
            },
    {
        let meta = T::get_type_meta();
        let ghost before = *self;
        if self.try_insert_type_meta(meta) {
            let ghost inserted = *self;
            T::register_dependencies(self);
            assert(inserted.table().dom().contains(meta_id(meta)));
            assert forall|id: TypeId| #[trigger] before.table().dom().contains(id) implies self.table().dom().contains(id)
                && self.table()[id] == before.table()[id] by {
                assert(inserted.table().dom().contains(id));
            }
        }
    }

    /// Registers the type of the given value; see `register`.
    pub fn register_by_val<T: GetTypeMeta>(&mut self, _value: &T)
        ensures
            final(self).table().dom().contains(T::spec_type_info().spec_ty().id),
            old(self).table().dom().contains(T::spec_type_info().spec_ty().id) ==> final(self).same(
                *old(self),
            ),
            !old(self).table().dom().contains(T::spec_type_info().spec_ty().id) ==> {
                &&& final(self).extends(*old(self))
                &&& T::meta_built(final(self).table()[T::spec_type_info().spec_ty().id])
            },
    {
        self.register::<T>();
    }

    /// Registers the types that declared themselves for registration at build time. This
    /// library has no such declarations, so nothing is registered and the answer is `false`.
    pub fn auto_register(&mut self) -> (r: bool)
        ensures
            !r,
            final(self).same(*old(self)),
    {
        false
    }

    /// A registry of the primitive types, each with all of its capabilities: `()`, `bool`,
    /// `char`, the integer types of every width and `String`.
    pub fn new() -> (r: Self)
        ensures
            r.table().dom() == set![
                UNIT_TYPE_ID,
                BOOL_TYPE_ID,
                CHAR_TYPE_ID,
                U8_TYPE_ID,
                U16_TYPE_ID,
                U32_TYPE_ID,
                U64_TYPE_ID,
                U128_TYPE_ID,
                USIZE_TYPE_ID,
                I8_TYPE_ID,
                I16_TYPE_ID,
                I32_TYPE_ID,
                I64_TYPE_ID,
                I128_TYPE_ID,
                ISIZE_TYPE_ID,
                STRING_TYPE_ID,
            ],
            <() as GetTypeMeta>::meta_built(r.table()[UNIT_TYPE_ID]),
            <bool as GetTypeMeta>::meta_built(r.table()[BOOL_TYPE_ID]),
            <char as GetTypeMeta>::meta_built(r.table()[CHAR_TYPE_ID]),
            <u8 as GetTypeMeta>::meta_built(r.table()[U8_TYPE_ID]),
            <u16 as GetTypeMeta>::meta_built(r.table()[U16_TYPE_ID]),
            <u32 as GetTypeMeta>::meta_built(r.table()[U32_TYPE_ID]),
            <u64 as GetTypeMeta>::meta_built(r.table()[U64_TYPE_ID]),
            <u128 as GetTypeMeta>::meta_built(r.table()[U128_TYPE_ID]),
            <usize as GetTypeMeta>::meta_built(r.table()[USIZE_TYPE_ID]),
            <i8 as GetTypeMeta>::meta_built(r.table()[I8_TYPE_ID]),
            <i16 as GetTypeMeta>::meta_built(r.table()[I16_TYPE_ID]),
            <i32 as GetTypeMeta>::meta_built(r.table()[I32_TYPE_ID]),
            <i64 as GetTypeMeta>::meta_built(r.table()[I64_TYPE_ID]),
            <i128 as GetTypeMeta>::meta_built(r.table()[I128_TYPE_ID]),
            <isize as GetTypeMeta>::meta_built(r.table()[ISIZE_TYPE_ID]),
            <String as GetTypeMeta>::meta_built(r.table()[STRING_TYPE_ID]),
            crate::serde::serializers_match(r),
            r.path_index() == map![
                "()"@ => UNIT_TYPE_ID,
                "bool"@ => BOOL_TYPE_ID,
                "char"@ => CHAR_TYPE_ID,
                "u8"@ => U8_TYPE_ID,
                "u16"@ => U16_TYPE_ID,
                "u32"@ => U32_TYPE_ID,
                "u64"@ => U64_TYPE_ID,
                "u128"@ => U128_TYPE_ID,
                "usize"@ => USIZE_TYPE_ID,
                "i8"@ => I8_TYPE_ID,
                "i16"@ => I16_TYPE_ID,
                "i32"@ => I32_TYPE_ID,
                "i64"@ => I64_TYPE_ID,
                "i128"@ => I128_TYPE_ID,
                "isize"@ => ISIZE_TYPE_ID,
                "alloc::string::String"@ => STRING_TYPE_ID,
            ],
            r.name_index() == map![
                "()"@ => UNIT_TYPE_ID,
                "bool"@ => BOOL_TYPE_ID,
                "char"@ => CHAR_TYPE_ID,
                "u8"@ => U8_TYPE_ID,
                "u16"@ => U16_TYPE_ID,
                "u32"@ => U32_TYPE_ID,
                "u64"@ => U64_TYPE_ID,
                "u128"@ => U128_TYPE_ID,
                "usize"@ => USIZE_TYPE_ID,
                "i8"@ => I8_TYPE_ID,
                "i16"@ => I16_TYPE_ID,
                "i32"@ => I32_TYPE_ID,
                "i64"@ => I64_TYPE_ID,
                "i128"@ => I128_TYPE_ID,
                "isize"@ => ISIZE_TYPE_ID,
                "String"@ => STRING_TYPE_ID,
            ],
            r.ambiguous_names() == Set::<Seq<char>>::empty(),
    {
        proof {
            reveal_strlit("()");
            reveal_strlit("String");
            reveal_strlit("alloc::string::String");
            reveal_strlit("bool");
            reveal_strlit("char");
            reveal_strlit("i128");
            reveal_strlit("i16");
            reveal_strlit("i32");
            reveal_strlit("i64");
            reveal_strlit("i8");
            reveal_strlit("isize");
            reveal_strlit("u128");
            reveal_strlit("u16");
            reveal_strlit("u32");
            reveal_strlit("u64");
            reveal_strlit("u8");
            reveal_strlit("usize");
        }
        assert(<() as Typed>::spec_type_info().spec_ty().name@ == "()"@);
        assert(<bool as Typed>::spec_type_info().spec_ty().name@ == "bool"@);
        assert(<char as Typed>::spec_type_info().spec_ty().name@ == "char"@);
        assert(<u8 as Typed>::spec_type_info().spec_ty().name@ == "u8"@);
        assert(<u16 as Typed>::spec_type_info().spec_ty().name@ == "u16"@);
        assert(<u32 as Typed>::spec_type_info().spec_ty().name@ == "u32"@);
        assert(<u64 as Typed>::spec_type_info().spec_ty().name@ == "u64"@);
        assert(<u128 as Typed>::spec_type_info().spec_ty().name@ == "u128"@);
        assert(<usize as Typed>::spec_type_info().spec_ty().name@ == "usize"@);
        assert(<i8 as Typed>::spec_type_info().spec_ty().name@ == "i8"@);
        assert(<i16 as Typed>::spec_type_info().spec_ty().name@ == "i16"@);
        assert(<i32 as Typed>::spec_type_info().spec_ty().name@ == "i32"@);
        assert(<i64 as Typed>::spec_type_info().spec_ty().name@ == "i64"@);
        assert(<i128 as Typed>::spec_type_info().spec_ty().name@ == "i128"@);
        assert(<isize as Typed>::spec_type_info().spec_ty().name@ == "isize"@);
        assert(<String as Typed>::spec_type_info().spec_ty().name@ == "String"@);
        assert("bool"@.len() != "()"@.len());
        assert("char"@.len() != "()"@.len());
        assert("char"@[0] != "bool"@[0]);
        assert("u8"@[0] != "()"@[0]);
        assert("u8"@.len() != "bool"@.len());
        assert("u8"@.len() != "char"@.len());
        assert("u16"@.len() != "()"@.len());
        assert("u16"@.len() != "bool"@.len());
        assert("u16"@.len() != "char"@.len());
        assert("u16"@.len() != "u8"@.len());
        assert("u32"@.len() != "()"@.len());
        assert("u32"@.len() != "bool"@.len());
        assert("u32"@.len() != "char"@.len());
        assert("u32"@.len() != "u8"@.len());
        assert("u32"@[1] != "u16"@[1]);
        assert("u64"@.len() != "()"@.len());
        assert("u64"@.len() != "bool"@.len());
        assert("u64"@.len() != "char"@.len());
        assert("u64"@.len() != "u8"@.len());
        assert("u64"@[1] != "u16"@[1]);
        assert("u64"@[1] != "u32"@[1]);
        assert("u128"@.len() != "()"@.len());
        assert("u128"@[0] != "bool"@[0]);
        assert("u128"@[0] != "char"@[0]);
        assert("u128"@.len() != "u8"@.len());
        assert("u128"@.len() != "u16"@.len());
        assert("u128"@.len() != "u32"@.len());
        assert("u128"@.len() != "u64"@.len());
        assert("usize"@.len() != "()"@.len());
        assert("usize"@.len() != "bool"@.len());
        assert("usize"@.len() != "char"@.len());
        assert("usize"@.len() != "u8"@.len());
        assert("usize"@.len() != "u16"@.len());
        assert("usize"@.len() != "u32"@.len());
        assert("usize"@.len() != "u64"@.len());
        assert("usize"@.len() != "u128"@.len());
        assert("i8"@[0] != "()"@[0]);
        assert("i8"@.len() != "bool"@.len());
        assert("i8"@.len() != "char"@.len());
        assert("i8"@[0] != "u8"@[0]);
        assert("i8"@.len() != "u16"@.len());
        assert("i8"@.len() != "u32"@.len());
        assert("i8"@.len() != "u64"@.len());
        assert("i8"@.len() != "u128"@.len());
        assert("i8"@.len() != "usize"@.len());
        assert("i16"@.len() != "()"@.len());
        assert("i16"@.len() != "bool"@.len());
        assert("i16"@.len() != "char"@.len());
        assert("i16"@.len() != "u8"@.len());
        assert("i16"@[0] != "u16"@[0]);
        assert("i16"@[0] != "u32"@[0]);
        assert("i16"@[0] != "u64"@[0]);
        assert("i16"@.len() != "u128"@.len());
        assert("i16"@.len() != "usize"@.len());
        assert("i16"@.len() != "i8"@.len());
        assert("i32"@.len() != "()"@.len());
        assert("i32"@.len() != "bool"@.len());
        assert("i32"@.len() != "char"@.len());
        assert("i32"@.len() != "u8"@.len());
        assert("i32"@[0] != "u16"@[0]);
        assert("i32"@[0] != "u32"@[0]);
        assert("i32"@[0] != "u64"@[0]);
        assert("i32"@.len() != "u128"@.len());
        assert("i32"@.len() != "usize"@.len());
        assert("i32"@.len() != "i8"@.len());
        assert("i32"@[1] != "i16"@[1]);
        assert("i64"@.len() != "()"@.len());
        assert("i64"@.len() != "bool"@.len());
        assert("i64"@.len() != "char"@.len());
        assert("i64"@.len() != "u8"@.len());
        assert("i64"@[0] != "u16"@[0]);
        assert("i64"@[0] != "u32"@[0]);
        assert("i64"@[0] != "u64"@[0]);
        assert("i64"@.len() != "u128"@.len());
        assert("i64"@.len() != "usize"@.len());
        assert("i64"@.len() != "i8"@.len());
        assert("i64"@[1] != "i16"@[1]);
        assert("i64"@[1] != "i32"@[1]);
        assert("i128"@.len() != "()"@.len());
        assert("i128"@[0] != "bool"@[0]);
        assert("i128"@[0] != "char"@[0]);
        assert("i128"@.len() != "u8"@.len());
        assert("i128"@.len() != "u16"@.len());
        assert("i128"@.len() != "u32"@.len());
        assert("i128"@.len() != "u64"@.len());
        assert("i128"@[0] != "u128"@[0]);
        assert("i128"@.len() != "usize"@.len());
        assert("i128"@.len() != "i8"@.len());
        assert("i128"@.len() != "i16"@.len());
        assert("i128"@.len() != "i32"@.len());
        assert("i128"@.len() != "i64"@.len());
        assert("isize"@.len() != "()"@.len());
        assert("isize"@.len() != "bool"@.len());
        assert("isize"@.len() != "char"@.len());
        assert("isize"@.len() != "u8"@.len());
        assert("isize"@.len() != "u16"@.len());
        assert("isize"@.len() != "u32"@.len());
        assert("isize"@.len() != "u64"@.len());
        assert("isize"@.len() != "u128"@.len());
        assert("isize"@[0] != "usize"@[0]);
        assert("isize"@.len() != "i8"@.len());
        assert("isize"@.len() != "i16"@.len());
        assert("isize"@.len() != "i32"@.len());
        assert("isize"@.len() != "i64"@.len());
        assert("isize"@.len() != "i128"@.len());
        assert("String"@.len() != "()"@.len());
        assert("String"@.len() != "bool"@.len());
        assert("String"@.len() != "char"@.len());
        assert("String"@.len() != "u8"@.len());
        assert("String"@.len() != "u16"@.len());
        assert("String"@.len() != "u32"@.len());
        assert("String"@.len() != "u64"@.len());
        assert("String"@.len() != "u128"@.len());
        assert("String"@.len() != "usize"@.len());
        assert("String"@.len() != "i8"@.len());
        assert("String"@.len() != "i16"@.len());
        assert("String"@.len() != "i32"@.len());
        assert("String"@.len() != "i64"@.len());
        assert("String"@.len() != "i128"@.len());
        assert("String"@.len() != "isize"@.len());
        let mut registry = Self::empty();
        registry.try_insert_type_meta(<() as GetTypeMeta>::get_type_meta());
        assert(registry.ambiguous_names() =~= Set::<Seq<char>>::empty());
        assert(registry.name_index() =~= map![
            "()"@ => UNIT_TYPE_ID,
        ]);
        registry.try_insert_type_meta(<bool as GetTypeMeta>::get_type_meta());
        assert(registry.ambiguous_names() =~= Set::<Seq<char>>::empty());
        assert(registry.name_index() =~= map![
            "()"@ => UNIT_TYPE_ID,
            "bool"@ => BOOL_TYPE_ID,
        ]);
        registry.try_insert_type_meta(<char as GetTypeMeta>::get_type_meta());
        assert(registry.ambiguous_names() =~= Set::<Seq<char>>::empty());
        assert(registry.name_index() =~= map![
            "()"@ => UNIT_TYPE_ID,
            "bool"@ => BOOL_TYPE_ID,
            "char"@ => CHAR_TYPE_ID,
        ]);
        registry.try_insert_type_meta(<u8 as GetTypeMeta>::get_type_meta());
        assert(registry.ambiguous_names() =~= Set::<Seq<char>>::empty());
        assert(registry.name_index() =~= map![
            "()"@ => UNIT_TYPE_ID,
            "bool"@ => BOOL_TYPE_ID,
            "char"@ => CHAR_TYPE_ID,
            "u8"@ => U8_TYPE_ID,
        ]);
        registry.try_insert_type_meta(<u16 as GetTypeMeta>::get_type_meta());
        assert(registry.ambiguous_names() =~= Set::<Seq<char>>::empty());
        assert(registry.name_index() =~= map![
            "()"@ => UNIT_TYPE_ID,
            "bool"@ => BOOL_TYPE_ID,
            "char"@ => CHAR_TYPE_ID,
            "u8"@ => U8_TYPE_ID,
            "u16"@ => U16_TYPE_ID,
        ]);
        registry.try_insert_type_meta(<u32 as GetTypeMeta>::get_type_meta());
        assert(registry.ambiguous_names() =~= Set::<Seq<char>>::empty());
        assert(registry.name_index() =~= map![
            "()"@ => UNIT_TYPE_ID,
            "bool"@ => BOOL_TYPE_ID,
            "char"@ => CHAR_TYPE_ID,
            "u8"@ => U8_TYPE_ID,
            "u16"@ => U16_TYPE_ID,
            "u32"@ => U32_TYPE_ID,
        ]);
        registry.try_insert_type_meta(<u64 as GetTypeMeta>::get_type_meta());
        assert(registry.ambiguous_names() =~= Set::<Seq<char>>::empty());
        assert(registry.name_index() =~= map![
            "()"@ => UNIT_TYPE_ID,
            "bool"@ => BOOL_TYPE_ID,
            "char"@ => CHAR_TYPE_ID,
            "u8"@ => U8_TYPE_ID,
            "u16"@ => U16_TYPE_ID,
            "u32"@ => U32_TYPE_ID,
            "u64"@ => U64_TYPE_ID,
        ]);
        registry.try_insert_type_meta(<u128 as GetTypeMeta>::get_type_meta());
        assert(registry.ambiguous_names() =~= Set::<Seq<char>>::empty());
        assert(registry.name_index() =~= map![
            "()"@ => UNIT_TYPE_ID,
            "bool"@ => BOOL_TYPE_ID,
            "char"@ => CHAR_TYPE_ID,
            "u8"@ => U8_TYPE_ID,
            "u16"@ => U16_TYPE_ID,
            "u32"@ => U32_TYPE_ID,
            "u64"@ => U64_TYPE_ID,
            "u128"@ => U128_TYPE_ID,
        ]);
        registry.try_insert_type_meta(<usize as GetTypeMeta>::get_type_meta());
        assert(registry.ambiguous_names() =~= Set::<Seq<char>>::empty());
        assert(registry.name_index() =~= map![
            "()"@ => UNIT_TYPE_ID,
            "bool"@ => BOOL_TYPE_ID,
            "char"@ => CHAR_TYPE_ID,
            "u8"@ => U8_TYPE_ID,
            "u16"@ => U16_TYPE_ID,
            "u32"@ => U32_TYPE_ID,
            "u64"@ => U64_TYPE_ID,
            "u128"@ => U128_TYPE_ID,
            "usize"@ => USIZE_TYPE_ID,
        ]);
        registry.try_insert_type_meta(<i8 as GetTypeMeta>::get_type_meta());
        assert(registry.ambiguous_names() =~= Set::<Seq<char>>::empty());
        assert(registry.name_index() =~= map![
            "()"@ => UNIT_TYPE_ID,
            "bool"@ => BOOL_TYPE_ID,
            "char"@ => CHAR_TYPE_ID,
            "u8"@ => U8_TYPE_ID,
            "u16"@ => U16_TYPE_ID,
            "u32"@ => U32_TYPE_ID,
            "u64"@ => U64_TYPE_ID,
            "u128"@ => U128_TYPE_ID,
            "usize"@ => USIZE_TYPE_ID,
            "i8"@ => I8_TYPE_ID,
        ]);
        registry.try_insert_type_meta(<i16 as GetTypeMeta>::get_type_meta());
        assert(registry.ambiguous_names() =~= Set::<Seq<char>>::empty());
        assert(registry.name_index() =~= map![
            "()"@ => UNIT_TYPE_ID,
            "bool"@ => BOOL_TYPE_ID,
            "char"@ => CHAR_TYPE_ID,
            "u8"@ => U8_TYPE_ID,
            "u16"@ => U16_TYPE_ID,
            "u32"@ => U32_TYPE_ID,
            "u64"@ => U64_TYPE_ID,
            "u128"@ => U128_TYPE_ID,
            "usize"@ => USIZE_TYPE_ID,
            "i8"@ => I8_TYPE_ID,
            "i16"@ => I16_TYPE_ID,
        ]);
        registry.try_insert_type_meta(<i32 as GetTypeMeta>::get_type_meta());
        assert(registry.ambiguous_names() =~= Set::<Seq<char>>::empty());
        assert(registry.name_index() =~= map![
            "()"@ => UNIT_TYPE_ID,
            "bool"@ => BOOL_TYPE_ID,
            "char"@ => CHAR_TYPE_ID,
            "u8"@ => U8_TYPE_ID,
            "u16"@ => U16_TYPE_ID,
            "u32"@ => U32_TYPE_ID,
            "u64"@ => U64_TYPE_ID,
            "u128"@ => U128_TYPE_ID,
            "usize"@ => USIZE_TYPE_ID,
            "i8"@ => I8_TYPE_ID,
            "i16"@ => I16_TYPE_ID,
            "i32"@ => I32_TYPE_ID,
        ]);
        registry.try_insert_type_meta(<i64 as GetTypeMeta>::get_type_meta());
        assert(registry.ambiguous_names() =~= Set::<Seq<char>>::empty());
        assert(registry.name_index() =~= map![
            "()"@ => UNIT_TYPE_ID,
            "bool"@ => BOOL_TYPE_ID,
            "char"@ => CHAR_TYPE_ID,
            "u8"@ => U8_TYPE_ID,
            "u16"@ => U16_TYPE_ID,
            "u32"@ => U32_TYPE_ID,
            "u64"@ => U64_TYPE_ID,
            "u128"@ => U128_TYPE_ID,
            "usize"@ => USIZE_TYPE_ID,
            "i8"@ => I8_TYPE_ID,
            "i16"@ => I16_TYPE_ID,
            "i32"@ => I32_TYPE_ID,
            "i64"@ => I64_TYPE_ID,
        ]);
        registry.try_insert_type_meta(<i128 as GetTypeMeta>::get_type_meta());
        assert(registry.ambiguous_names() =~= Set::<Seq<char>>::empty());
        assert(registry.name_index() =~= map![
            "()"@ => UNIT_TYPE_ID,
            "bool"@ => BOOL_TYPE_ID,
            "char"@ => CHAR_TYPE_ID,
            "u8"@ => U8_TYPE_ID,
            "u16"@ => U16_TYPE_ID,
            "u32"@ => U32_TYPE_ID,
            "u64"@ => U64_TYPE_ID,
            "u128"@ => U128_TYPE_ID,
            "usize"@ => USIZE_TYPE_ID,
            "i8"@ => I8_TYPE_ID,
            "i16"@ => I16_TYPE_ID,
            "i32"@ => I32_TYPE_ID,
            "i64"@ => I64_TYPE_ID,
            "i128"@ => I128_TYPE_ID,
        ]);
        registry.try_insert_type_meta(<isize as GetTypeMeta>::get_type_meta());
        assert(registry.ambiguous_names() =~= Set::<Seq<char>>::empty());
        assert(registry.name_index() =~= map![
            "()"@ => UNIT_TYPE_ID,
            "bool"@ => BOOL_TYPE_ID,
            "char"@ => CHAR_TYPE_ID,
            "u8"@ => U8_TYPE_ID,
            "u16"@ => U16_TYPE_ID,
            "u32"@ => U32_TYPE_ID,
            "u64"@ => U64_TYPE_ID,
            "u128"@ => U128_TYPE_ID,
            "usize"@ => USIZE_TYPE_ID,
            "i8"@ => I8_TYPE_ID,
            "i16"@ => I16_TYPE_ID,
            "i32"@ => I32_TYPE_ID,
            "i64"@ => I64_TYPE_ID,
            "i128"@ => I128_TYPE_ID,
            "isize"@ => ISIZE_TYPE_ID,
        ]);
        registry.try_insert_type_meta(<String as GetTypeMeta>::get_type_meta());
        assert(registry.ambiguous_names() =~= Set::<Seq<char>>::empty());
        assert(registry.name_index() =~= map![
            "()"@ => UNIT_TYPE_ID,
            "bool"@ => BOOL_TYPE_ID,
            "char"@ => CHAR_TYPE_ID,
            "u8"@ => U8_TYPE_ID,
            "u16"@ => U16_TYPE_ID,
            "u32"@ => U32_TYPE_ID,
            "u64"@ => U64_TYPE_ID,
            "u128"@ => U128_TYPE_ID,
            "usize"@ => USIZE_TYPE_ID,
            "i8"@ => I8_TYPE_ID,
            "i16"@ => I16_TYPE_ID,
            "i32"@ => I32_TYPE_ID,
            "i64"@ => I64_TYPE_ID,
            "i128"@ => I128_TYPE_ID,
            "isize"@ => ISIZE_TYPE_ID,
            "String"@ => STRING_TYPE_ID,
        ]);
        assert(registry.path_index() =~= map![
            "()"@ => UNIT_TYPE_ID,
            "bool"@ => BOOL_TYPE_ID,
            "char"@ => CHAR_TYPE_ID,
            "u8"@ => U8_TYPE_ID,
            "u16"@ => U16_TYPE_ID,
            "u32"@ => U32_TYPE_ID,
            "u64"@ => U64_TYPE_ID,
            "u128"@ => U128_TYPE_ID,
            "usize"@ => USIZE_TYPE_ID,
            "i8"@ => I8_TYPE_ID,
            "i16"@ => I16_TYPE_ID,
            "i32"@ => I32_TYPE_ID,
            "i64"@ => I64_TYPE_ID,
            "i128"@ => I128_TYPE_ID,
            "isize"@ => ISIZE_TYPE_ID,
            "alloc::string::String"@ => STRING_TYPE_ID,
        ]);
        registry
    }
}

impl Default for TypeRegistry {
    /// A registry of the primitive types; see `TypeRegistry::new`.
    fn default() -> (r: Self)
        ensures
            r.table().dom() == set![
                UNIT_TYPE_ID,
                BOOL_TYPE_ID,
                CHAR_TYPE_ID,
                U8_TYPE_ID,
                U16_TYPE_ID,
                U32_TYPE_ID,
                U64_TYPE_ID,
                U128_TYPE_ID,
                USIZE_TYPE_ID,
                I8_TYPE_ID,
                I16_TYPE_ID,
                I32_TYPE_ID,
                I64_TYPE_ID,
                I128_TYPE_ID,
                ISIZE_TYPE_ID,
                STRING_TYPE_ID,
            ],
            crate::serde::serializers_match(r),
    {
        Self::new()
    }
}

/// A type that gives the registration of itself.
pub trait GetTypeMeta: Typed {
    /// Whether `m` is the registration that the type gives of itself.
    spec fn meta_built(m: TypeMeta) -> bool;

    /// The registration of the type.
    fn get_type_meta() -> (r: TypeMeta)
        ensures
            r.spec_info() == Self::spec_type_info(),
            Self::meta_built(r),
    ;

    /// Registers the types that this type depends on; registrations present stay as they were.
    fn register_dependencies(registry: &mut TypeRegistry)
        ensures
            final(registry).extends(*old(registry)),
    {
    }
}

/// Whether `m` registers the primitive type `T` with all four capabilities built for it.
pub open spec fn primitive_meta_built<T: Typed>(m: TypeMeta) -> bool where
    ReflectDefault: FromType<T>,
    ReflectFromReflect: FromType<T>,
    ReflectSerialize: FromType<T>,
    ReflectDeserialize: FromType<T>,
 {
    &&& m.spec_info() == T::spec_type_info()
    &&& m.spec_default() matches Some(d) && <ReflectDefault as FromType<T>>::built_for(d)
    &&& m.spec_from_reflect() matches Some(d) && <ReflectFromReflect as FromType<T>>::built_for(d)
    &&& m.spec_serialize() matches Some(d) && <ReflectSerialize as FromType<T>>::built_for(d)
    &&& m.spec_deserialize() matches Some(d) && <ReflectDeserialize as FromType<T>>::built_for(d)
}

/// The registration of a primitive type with all four capabilities.
fn primitive_meta<T: Typed>() -> (r: TypeMeta) where
    ReflectDefault: FromType<T>,
    ReflectFromReflect: FromType<T>,
    ReflectSerialize: FromType<T>,
    ReflectDeserialize: FromType<T>,

    ensures
        primitive_meta_built::<T>(r),
{
    let mut m = TypeMeta::of::<T>();
    m.insert_trait(TypeTrait::Default(<ReflectDefault as FromType<T>>::from_type()));
    m.insert_trait(TypeTrait::FromReflect(<ReflectFromReflect as FromType<T>>::from_type()));
    m.insert_trait(TypeTrait::Serialize(<ReflectSerialize as FromType<T>>::from_type()));
    m.insert_trait(TypeTrait::Deserialize(<ReflectDeserialize as FromType<T>>::from_type()));
    m
}

impl GetTypeMeta for () {
    open spec fn meta_built(m: TypeMeta) -> bool {
        primitive_meta_built::<()>(m)
    }

    fn get_type_meta() -> (r: TypeMeta) {
        primitive_meta::<()>()
    }
}

impl GetTypeMeta for bool {
    open spec fn meta_built(m: TypeMeta) -> bool {
        primitive_meta_built::<bool>(m)
    }

    fn get_type_meta() -> (r: TypeMeta) {
        primitive_meta::<bool>()
    }
}

impl GetTypeMeta for i64 {
    open spec fn meta_built(m: TypeMeta) -> bool {
        primitive_meta_built::<i64>(m)
    }

    fn get_type_meta() -> (r: TypeMeta) {
        primitive_meta::<i64>()
    }
}

impl GetTypeMeta for u64 {
    open spec fn meta_built(m: TypeMeta) -> bool {
        primitive_meta_built::<u64>(m)
    }

    fn get_type_meta() -> (r: TypeMeta) {
        primitive_meta::<u64>()
    }
}

impl GetTypeMeta for i8 {
    open spec fn meta_built(m: TypeMeta) -> bool {
        primitive_meta_built::<i8>(m)
    }

    fn get_type_meta() -> (r: TypeMeta) {
        primitive_meta::<i8>()
    }
}

impl GetTypeMeta for i16 {
    open spec fn meta_built(m: TypeMeta) -> bool {
        primitive_meta_built::<i16>(m)
    }

    fn get_type_meta() -> (r: TypeMeta) {
        primitive_meta::<i16>()
    }
}

impl GetTypeMeta for i32 {
    open spec fn meta_built(m: TypeMeta) -> bool {
        primitive_meta_built::<i32>(m)
    }

    fn get_type_meta() -> (r: TypeMeta) {
        primitive_meta::<i32>()
    }
}

impl GetTypeMeta for i128 {
    open spec fn meta_built(m: TypeMeta) -> bool {
        primitive_meta_built::<i128>(m)
    }

    fn get_type_meta() -> (r: TypeMeta) {
        primitive_meta::<i128>()
    }
}

impl GetTypeMeta for isize {
    open spec fn meta_built(m: TypeMeta) -> bool {
        primitive_meta_built::<isize>(m)
    }

    fn get_type_meta() -> (r: TypeMeta) {
        primitive_meta::<isize>()
    }
}

impl GetTypeMeta for u8 {
    open spec fn meta_built(m: TypeMeta) -> bool {
        primitive_meta_built::<u8>(m)
    }

    fn get_type_meta() -> (r: TypeMeta) {
        primitive_meta::<u8>()
    }
}

impl GetTypeMeta for u16 {
    open spec fn meta_built(m: TypeMeta) -> bool {
        primitive_meta_built::<u16>(m)
    }

    fn get_type_meta() -> (r: TypeMeta) {
        primitive_meta::<u16>()
    }
}

impl GetTypeMeta for u32 {
    open spec fn meta_built(m: TypeMeta) -> bool {
        primitive_meta_built::<u32>(m)
    }

    fn get_type_meta() -> (r: TypeMeta) {
        primitive_meta::<u32>()
    }
}

impl GetTypeMeta for u128 {
    open spec fn meta_built(m: TypeMeta) -> bool {
        primitive_meta_built::<u128>(m)
    }

    fn get_type_meta() -> (r: TypeMeta) {
        primitive_meta::<u128>()
    }
}

impl GetTypeMeta for usize {
    open spec fn meta_built(m: TypeMeta) -> bool {
        primitive_meta_built::<usize>(m)
    }

    fn get_type_meta() -> (r: TypeMeta) {
        primitive_meta::<usize>()
    }
}

impl GetTypeMeta for char {
    open spec fn meta_built(m: TypeMeta) -> bool {
        primitive_meta_built::<char>(m)
    }

    fn get_type_meta() -> (r: TypeMeta) {
        primitive_meta::<char>()
    }
}

impl GetTypeMeta for String {
    open spec fn meta_built(m: TypeMeta) -> bool {
        primitive_meta_built::<String>(m)
    }

    fn get_type_meta() -> (r: TypeMeta) {
        primitive_meta::<String>()
    }
}


/// Whether no short name is both found and ambiguous.
pub open spec fn indices_disjoint(r: TypeRegistry) -> bool {
    forall|k: Seq<char>| #[trigger]
        r.name_index().dom().contains(k) ==> !r.ambiguous_names().contains(k)
}

/// A new registration is found under its identifier and under its full path, and the
/// registrations already present stay; it is found under its short name unless a registered
/// type bears that name, and then the name is ambiguous and no type is found under it.
pub proof fn lemma_added_lookup(new: TypeRegistry, old: TypeRegistry, m: TypeMeta)
    requires
        new.added(old, m),
        !old.table().dom().contains(meta_id(m)),
        indices_disjoint(old),
    ensures
        new.table().dom().contains(meta_id(m)) && new.table()[meta_id(m)] == m,
        new.extends(old),
        new.path_index().dom().contains(m.spec_info().spec_ty().path@),
        new.path_index()[m.spec_info().spec_ty().path@] == meta_id(m),
        !old.name_index().dom().contains(m.spec_info().spec_ty().name@)
            && !old.ambiguous_names().contains(m.spec_info().spec_ty().name@) ==> {
            &&& new.name_index().dom().contains(m.spec_info().spec_ty().name@)
            &&& new.name_index()[m.spec_info().spec_ty().name@] == meta_id(m)
        },
        old.name_index().dom().contains(m.spec_info().spec_ty().name@)
            || old.ambiguous_names().contains(m.spec_info().spec_ty().name@) ==> {
            &&& new.ambiguous_names().contains(m.spec_info().spec_ty().name@)
            &&& !new.name_index().dom().contains(m.spec_info().spec_ty().name@)
        },
        indices_disjoint(new),
{
    let name = m.spec_info().spec_ty().name@;
    assert forall|id: TypeId| #[trigger] old.table().dom().contains(id) implies new.table().dom().contains(id)
        && new.table()[id] == old.table()[id] by {
        assert(id != meta_id(m));
    }
    assert forall|k: Seq<char>| #[trigger] new.name_index().dom().contains(k) implies !new.ambiguous_names().contains(k) by {
        if k != name {
            assert(old.name_index().dom().contains(k));
        }
    }
}

/// Two registered types of the same short name make the name ambiguous: no type is found
/// under it any more.
pub proof fn lemma_same_name_ambiguous(
    r0: TypeRegistry,
    r1: TypeRegistry,
    r2: TypeRegistry,
    a: TypeMeta,
    b: TypeMeta,
)
    requires
        indices_disjoint(r0),
        !r0.table().dom().contains(meta_id(a)),
        r1.added(r0, a),
        !r1.table().dom().contains(meta_id(b)),
        r2.added(r1, b),
        a.spec_info().spec_ty().name@ == b.spec_info().spec_ty().name@,
    ensures
        r2.ambiguous_names().contains(a.spec_info().spec_ty().name@),
        !r2.name_index().dom().contains(a.spec_info().spec_ty().name@),
{
    lemma_added_lookup(r1, r0, a);
    lemma_added_lookup(r2, r1, b);
}

/// After a capability is registered for a registered type, the type offers a capability of
/// that kind, and it is the one registered; its capabilities of the other kinds, every other
/// registration and the indices stay as they were.
pub proof fn lemma_trait_after_register(
    old: TypeRegistry,
    new: TypeRegistry,
    type_id: TypeId,
    t: TypeTrait,
    kind: TraitKind,
    other: TypeId,
)
    requires
        old.table().dom().contains(type_id),
        new.table().dom() == old.table().dom(),
        new.table()[type_id].inserted(old.table()[type_id], t),
        forall|id: TypeId| #[trigger]
            old.table().dom().contains(id) && id != type_id ==> new.table()[id] == old.table()[id],
    ensures
        new.table()[type_id].spec_has(t.spec_kind()),
        t matches TypeTrait::Default(d) ==> new.table()[type_id].spec_default() == Some(d),
        t matches TypeTrait::FromReflect(d) ==> new.table()[type_id].spec_from_reflect() == Some(d),
        t matches TypeTrait::Serialize(d) ==> new.table()[type_id].spec_serialize() == Some(d),
        t matches TypeTrait::Deserialize(d) ==> new.table()[type_id].spec_deserialize() == Some(d),
        kind != t.spec_kind() ==> new.table()[type_id].spec_has(kind) == old.table()[type_id].spec_has(
            kind,
        ),
        new.table()[type_id].spec_info() == old.table()[type_id].spec_info(),
        old.table().dom().contains(other) && other != type_id ==> new.table()[other] == old.table()[other],
{
}

} // verus!
