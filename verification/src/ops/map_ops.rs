use vstd::prelude::*;

use crate::info::TypeInfo;
use crate::reflection::{FromReflect, Reflect};
use crate::value::{Data, Value, clone_entries, deep_entries};
use crate::value::{lemma_same_content_equivalence, lemma_same_content_via, same_content};

verus! {

/// Whether no two entries carry keys of equal content.
pub open spec fn keys_distinct(entries: Seq<(Value, Value)>) -> bool {
    forall|i: int, j: int|
        0 <= i < entries.len() && 0 <= j < entries.len() && i != j ==> !same_content(
            entries[i].0.deep(),
            entries[j].0.deep(),
        )
}

/// Whether an entry carries a key of equal content.
pub open spec fn has_key(entries: Seq<(Value, Value)>, key: Data) -> bool {
    exists|i: int| 0 <= i < entries.len() && same_content(entries[i].0.deep(), key)
}

/// The position of the entry whose key has equal content, when there is one.
pub open spec fn key_position(entries: Seq<(Value, Value)>, key: Data) -> Option<int> {
    if has_key(entries, key) {
        Some(choose|i: int| 0 <= i < entries.len() && same_content(entries[i].0.deep(), key))
    } else {
        None
    }
}

/// Finds the entry whose key has the content of `key`.
fn position_of_key(entries: &Vec<(Value, Value)>, key: &Value) -> (r: Option<usize>)
    requires
        keys_distinct(entries@),
    ensures
        match r {
            Some(i) => key_position(entries@, key.deep()) == Some(i as int),
            None => key_position(entries@, key.deep()) is None,
        },
        r matches Some(i) ==> i < entries@.len() && same_content(entries@[i as int].0.deep(), key.deep()),
{
    let mut i: usize = 0;
    while i < entries.len()
        invariant
            i <= entries@.len(),
            keys_distinct(entries@),
            forall|j: int| 0 <= j < i ==> !same_content(#[trigger] entries@[j].0.deep(), key.deep()),
        decreases entries@.len() - i,
    {
        if entries[i].0.same_as(key) {
            proof {
                let k = choose|k: int| 0 <= k < entries@.len() && same_content(entries@[k].0.deep(), key.deep());
                if k != i {
                    lemma_same_content_via(entries@[k].0.deep(), entries@[i as int].0.deep(), key.deep());
                }
            }
            return Some(i);
        }
        i = i + 1;
    }
    None
}

/// A dynamic container representing a map: entries with pairwise different keys.
///
/// Keys are compared as reflection compares them (`same_content`); entries keep the order in which
/// their keys first came.
pub struct DynamicMap {
    info: Option<TypeInfo>,
    entries: Vec<(Value, Value)>,
}

impl DynamicMap {
    #[verifier::type_invariant]
    closed spec fn inv(self) -> bool {
        keys_distinct(self.entries@)
    }

    pub closed spec fn spec_entries(self) -> Seq<(Value, Value)> {
        self.entries@
    }

    pub closed spec fn spec_info(self) -> Option<TypeInfo> {
        self.info
    }

    pub proof fn lemma_decreases(self)
        ensures
            decreases_to!(self => self.spec_entries()),
    {
        broadcast use vstd::std_specs::vec::axiom_vec_decreases_to_view;

        assert(decreases_to!(self.entries => self.entries@));
    }

    /// Keys are pairwise different.
    pub fn check_keys(&self)
        ensures
            keys_distinct(self.spec_entries()),
    {
        proof {
            use_type_invariant(self);
        }
    }

    /// Creates an empty map.
    pub fn new() -> (r: Self)
        ensures
            r.spec_entries() == Seq::<(Value, Value)>::empty(),
            r.spec_info() is None,
    {
        DynamicMap { info: None, entries: Vec::new() }
    }

    /// Creates an empty map with room for `capacity` entries.
    pub fn with_capacity(capacity: usize) -> (r: Self)
        ensures
            r.spec_entries() == Seq::<(Value, Value)>::empty(),
            r.spec_info() is None,
    {
        DynamicMap { info: None, entries: Vec::with_capacity(capacity) }
    }

    /// Sets the map type that this map represents.
    pub fn set_type_info(&mut self, info: Option<TypeInfo>)
        requires
            info matches Some(i) ==> i is MapLike,
        ensures
            final(self).spec_info() == info,
            final(self).spec_entries() == old(self).spec_entries(),
    {
        proof {
            use_type_invariant(&*self);
        }
        self.info = info;
    }

    /// The map type that this map represents.
    pub fn represented_type_info(&self) -> (r: Option<TypeInfo>)
        ensures
            r == self.spec_info(),
    {
        self.info
    }

    pub(crate) fn items(&self) -> (r: &Vec<(Value, Value)>)
        ensures
            r@ == self.spec_entries(),
            keys_distinct(r@),
    {
        proof {
            use_type_invariant(self);
        }
        &self.entries
    }

    /// Inserts an entry; for a key already present the value is replaced and the old one returned.
    pub fn extend_boxed(&mut self, key: Value, value: Value) -> (r: Option<Value>)
        ensures
            final(self).spec_info() == old(self).spec_info(),
            match key_position(old(self).spec_entries(), key.deep()) {
                Some(i) => {
                    &&& r == Some(old(self).spec_entries()[i].1)
                    &&& final(self).spec_entries() == old(self).spec_entries().update(
                        i,
                        (old(self).spec_entries()[i].0, value),
                    )
                },
                None => {
                    &&& r is None
                    &&& final(self).spec_entries() == old(self).spec_entries().push((key, value))
                },
            },
    {
        proof {
            use_type_invariant(&*self);
        }
        let ghost old_entries = self.entries@;
        let mut taken: Vec<(Value, Value)> = Vec::new();
        std::mem::swap(&mut taken, &mut self.entries);
        match position_of_key(&taken, &key) {
            Some(i) => {
                let (k, old_value) = taken.remove(i);
                taken.insert(i, (k, value));
                proof {
                    assert(taken@ =~= old_entries.update(i as int, (old_entries[i as int].0, value)));
                    assert forall|a: int, b: int|
                        0 <= a < taken@.len() && 0 <= b < taken@.len() && a != b implies !same_content(
                        taken@[a].0.deep(),
                        taken@[b].0.deep(),
                    ) by {
                        assert(!same_content(old_entries[a].0.deep(), old_entries[b].0.deep()));
                    }
                }
                self.entries = taken;
                Some(old_value)
            },
            None => {
                taken.push((key, value));
                proof {
                    assert forall|a: int, b: int|
                        0 <= a < taken@.len() && 0 <= b < taken@.len() && a != b implies !same_content(
                        taken@[a].0.deep(),
                        taken@[b].0.deep(),
                    ) by {
                        if b == old_entries.len() {
                            assert(!same_content(old_entries[a].0.deep(), key.deep()));
                        } else if a == old_entries.len() {
                            lemma_same_content_equivalence(key.deep(), old_entries[b].0.deep(), key.deep());
                            assert(!same_content(old_entries[b].0.deep(), key.deep()));
                        }
                    }
                }
                self.entries = taken;
                None
            },
        }
    }

    /// Inserts an entry converted from reflected types.
    pub fn extend<K: Reflect, V: Reflect>(&mut self, key: K, value: V) -> (r: Option<Value>)
        ensures
            final(self).spec_info() == old(self).spec_info(),
            match key_position(old(self).spec_entries(), key.spec_value().deep()) {
                Some(i) => {
                    &&& r == Some(old(self).spec_entries()[i].1)
                    &&& final(self).spec_entries() == old(self).spec_entries().update(
                        i,
                        (old(self).spec_entries()[i].0, value.spec_value()),
                    )
                },
                None => {
                    &&& r is None
                    &&& final(self).spec_entries() == old(self).spec_entries().push(
                        (key.spec_value(), value.spec_value()),
                    )
                },
            },
    {
        self.extend_boxed(key.into_value(), value.into_value())
    }

    /// Inserts an entry; the same as `extend_boxed`.
    pub fn insert(&mut self, key: Value, value: Value) -> (r: Option<Value>)
        ensures
            final(self).spec_info() == old(self).spec_info(),
            match key_position(old(self).spec_entries(), key.deep()) {
                Some(i) => {
                    &&& r == Some(old(self).spec_entries()[i].1)
                    &&& final(self).spec_entries() == old(self).spec_entries().update(
                        i,
                        (old(self).spec_entries()[i].0, value),
                    )
                },
                None => {
                    &&& r is None
                    &&& final(self).spec_entries() == old(self).spec_entries().push((key, value))
                },
            },
    {
        self.extend_boxed(key, value)
    }

    /// Inserts an entry; a dynamic map always accepts it.
    pub fn try_insert(&mut self, key: Value, value: Value) -> (r: Result<
        Option<Value>,
        (Value, Value),
    >)
        ensures
            final(self).spec_info() == old(self).spec_info(),
            match key_position(old(self).spec_entries(), key.deep()) {
                Some(i) => {
                    &&& r == Ok::<Option<Value>, (Value, Value)>(Some(old(self).spec_entries()[i].1))
                    &&& final(self).spec_entries() == old(self).spec_entries().update(
                        i,
                        (old(self).spec_entries()[i].0, value),
                    )
                },
                None => {
                    &&& r == Ok::<Option<Value>, (Value, Value)>(None)
                    &&& final(self).spec_entries() == old(self).spec_entries().push((key, value))
                },
            },
    {
        Ok(self.extend_boxed(key, value))
    }

    /// The value stored under a key of the content of `key`.
    pub fn get(&self, key: &Value) -> (r: Option<&Value>)
        ensures
            r == (match key_position(self.spec_entries(), key.deep()) {
                Some(i) => Some(&self.spec_entries()[i].1),
                None => None,
            }),
    {
        proof {
            use_type_invariant(self);
        }
        match position_of_key(&self.entries, key) {
            Some(i) => Some(&self.entries[i].1),
            None => None,
        }
    }

    /// The value stored under `key` converted to `T`.
    pub fn get_as<T: FromReflect>(&self, key: &Value) -> (r: Option<T>)
        ensures
            match key_position(self.spec_entries(), key.deep()) {
                Some(i) => T::converts(self.spec_entries()[i].1, r),
                None => r is None,
            },
    {
        match self.get(key) {
            Some(v) => T::from_reflect(v),
            None => None,
        }
    }

    /// Whether a key of the content of `key` is present.
    pub fn contains_key(&self, key: &Value) -> (r: bool)
        ensures
            r == has_key(self.spec_entries(), key.deep()),
    {
        proof {
            use_type_invariant(self);
        }
        position_of_key(&self.entries, key).is_some()
    }

    /// The number of entries.
    pub fn len(&self) -> (r: usize)
        ensures
            r == self.spec_entries().len(),
    {
        self.entries.len()
    }

    /// Whether the map has no entries.
    pub fn is_empty(&self) -> (r: bool)
        ensures
            r == (self.spec_entries().len() == 0),
    {
        self.entries.len() == 0
    }

    /// Removes the entry under `key` and returns its value.
    pub fn remove(&mut self, key: &Value) -> (r: Option<Value>)
        ensures
            final(self).spec_info() == old(self).spec_info(),
            match key_position(old(self).spec_entries(), key.deep()) {
                Some(i) => {
                    &&& r == Some(old(self).spec_entries()[i].1)
                    &&& final(self).spec_entries() == old(self).spec_entries().remove(i)
                },
                None => {
                    &&& r is None
                    &&& final(self).spec_entries() == old(self).spec_entries()
                },
            },
    {
        proof {
            use_type_invariant(&*self);
        }
        let ghost old_entries = self.entries@;
        let mut taken: Vec<(Value, Value)> = Vec::new();
        std::mem::swap(&mut taken, &mut self.entries);
        match position_of_key(&taken, key) {
            Some(i) => {
                let (_, v) = taken.remove(i);
                proof {
                    assert forall|a: int, b: int|
                        0 <= a < taken@.len() && 0 <= b < taken@.len() && a != b implies !same_content(
                        taken@[a].0.deep(),
                        taken@[b].0.deep(),
                    ) by {
                        let a2 = if a < i { a } else { a + 1 };
                        let b2 = if b < i { b } else { b + 1 };
                        assert(taken@[a] == old_entries[a2]);
                        assert(taken@[b] == old_entries[b2]);
                    }
                }
                self.entries = taken;
                Some(v)
            },
            None => {
                self.entries = taken;
                None
            },
        }
    }

    /// Keeps the entries for which `f` holds of the key and the value, in order; the others are
    /// dropped.
    pub fn retain<F: Fn(&Value, &Value) -> bool>(&mut self, f: F)
        requires
            forall|k: &Value, v: &Value| f.requires((k, v)),
        ensures
            final(self).spec_info() == old(self).spec_info(),
            exists|keep: Seq<bool>|
                #![trigger crate::ops::set_ops::select(old(self).spec_entries(), keep)]
                {
                    &&& keep.len() == old(self).spec_entries().len()
                    &&& forall|i: int|
                        0 <= i < keep.len() ==> f.ensures(
                            (&old(self).spec_entries()[i].0, &old(self).spec_entries()[i].1),
                            #[trigger] keep[i],
                        )
                    &&& final(self).spec_entries() == crate::ops::set_ops::select(
                        old(self).spec_entries(),
                        keep,
                    )
                },
    {
        proof {
            use_type_invariant(&*self);
        }
        let ghost old_entries = self.entries@;
        let mut taken: Vec<(Value, Value)> = Vec::new();
        std::mem::swap(&mut taken, &mut self.entries);
        let mut out: Vec<(Value, Value)> = Vec::new();
        let ghost mut keep: Seq<bool> = Seq::empty();
        let n = taken.len();
        let mut i: usize = 0;
        while i < n
            invariant
                n == old_entries.len(),
                i <= n,
                taken@ == old_entries.skip(i as int),
                keys_distinct(old_entries),
                keep.len() == i,
                forall|k: int|
                    0 <= k < i ==> f.ensures((&old_entries[k].0, &old_entries[k].1), #[trigger] keep[k]),
                out@ == crate::ops::set_ops::select(old_entries.take(i as int), keep),
                keys_distinct(out@),
                forall|j: int|
                    0 <= j < out@.len() ==> exists|k: int| 0 <= k < i && #[trigger] out@[j] == old_entries[k],
                forall|k: &Value, v: &Value| f.requires((k, v)),
            decreases n - i,
        {
            let e = taken.remove(0);
            assert(e == old_entries[i as int]);
            let b = f(&e.0, &e.1);
            proof {
                assert(old_entries.take(i + 1).drop_last() =~= old_entries.take(i as int));
                assert(keep.push(b).drop_last() =~= keep);
                keep = keep.push(b);
            }
            if b {
                proof {
                    assert forall|j: int| 0 <= j < out@.len() implies !same_content(
                        out@[j].0.deep(),
                        e.0.deep(),
                    ) by {
                        let k = choose|k: int| 0 <= k < i && out@[j] == old_entries[k];
                        assert(!same_content(old_entries[k].0.deep(), old_entries[i as int].0.deep()));
                    }
                }
                out.push(e);
            }
            assert(taken@ =~= old_entries.skip(i + 1));
            i = i + 1;
        }
        assert(old_entries.take(n as int) =~= old_entries);
        self.entries = out;
        assert(keep.len() == old_entries.len());
        assert(forall|k: int|
            0 <= k < keep.len() ==> f.ensures((&old_entries[k].0, &old_entries[k].1), #[trigger] keep[k]));
        assert(self.spec_entries() == crate::ops::set_ops::select(old_entries, keep));
        assert(old(self).spec_entries() == old_entries);
        assert(self.spec_info() == old(self).spec_info());
    }

    /// Takes all entries out; the map is left empty.
    pub fn drain(&mut self) -> (r: Vec<(Value, Value)>)
        ensures
            r@ == old(self).spec_entries(),
            final(self).spec_entries() == Seq::<(Value, Value)>::empty(),
            final(self).spec_info() == old(self).spec_info(),
    {
        let mut out: Vec<(Value, Value)> = Vec::new();
        std::mem::swap(&mut out, &mut self.entries);
        out
    }

    /// A copy made of dynamic containers: same represented type, same entries in the same order.
    pub fn to_dynamic_map(&self) -> (r: DynamicMap)
        ensures
            deep_entries(r.spec_entries()) == deep_entries(self.spec_entries()),
            crate::value::marks_entries(r.spec_entries()) == crate::value::marks_entries(
                self.spec_entries(),
            ),
            r.spec_info() == self.spec_info(),
        decreases self,
    {
        broadcast use crate::value::group_deep;

        proof {
            self.lemma_decreases();
            use_type_invariant(self);
        }
        let entries = clone_entries(&self.entries);
        proof {
            assert(entries@.len() == deep_entries(entries@).len());
            assert(self.entries@.len() == deep_entries(self.entries@).len());
            assert forall|a: int, b: int|
                0 <= a < entries@.len() && 0 <= b < entries@.len() && a != b implies !same_content(
                entries@[a].0.deep(),
                entries@[b].0.deep(),
            ) by {
                assert(deep_entries(entries@)[a] == deep_entries(self.entries@)[a]);
                assert(deep_entries(entries@)[b] == deep_entries(self.entries@)[b]);
                assert(!same_content(self.entries@[a].0.deep(), self.entries@[b].0.deep()));
            }
        }
        DynamicMap { info: self.info, entries }
    }
}

impl crate::info::TypePath for DynamicMap {
    open spec fn spec_type_path() -> Seq<char> {
        "vc_reflect::ops::DynamicMap"@
    }

    open spec fn spec_type_short_name() -> Seq<char> {
        "DynamicMap"@
    }

    open spec fn spec_type_ident() -> Seq<char> {
        "DynamicMap"@
    }

    open spec fn spec_type_module() -> Option<Seq<char>> {
        Some("vc_reflect::ops"@)
    }

    fn type_path() -> &'static str {
        "vc_reflect::ops::DynamicMap"
    }

    fn type_short_name() -> &'static str {
        "DynamicMap"
    }

    fn type_ident() -> &'static str {
        "DynamicMap"
    }

    fn type_module() -> Option<&'static str> {
        Some("vc_reflect::ops")
    }
}

impl crate::info::Typed for DynamicMap {
    open spec fn spec_type_info() -> TypeInfo {
        crate::info::opaque_info(
            crate::info::DYNAMIC_MAP_TYPE_ID,
            "vc_reflect::ops::DynamicMap",
            "DynamicMap",
            Some("vc_reflect::ops"),
        )
    }

    fn type_info() -> (r: TypeInfo) {
        crate::info::make_opaque(
            crate::info::DYNAMIC_MAP_TYPE_ID,
            "vc_reflect::ops::DynamicMap",
            "DynamicMap",
            Some("vc_reflect::ops"),
        )
    }
}


proof fn lemma_key_after_insert(old: Seq<(Value, Value)>, new: Seq<(Value, Value)>, key: Value, value: Value)
    requires
        keys_distinct(old),
        match key_position(old, key.deep()) {
            Some(i) => new == old.update(i, (old[i].0, value)),
            None => new == old.push((key, value)),
        },
    ensures
        keys_distinct(new),
        key_position(new, key.deep()) matches Some(j) && new[j].1 == value,
{
    lemma_same_content_equivalence(key.deep(), key.deep(), key.deep());
    match key_position(old, key.deep()) {
        Some(i) => {
            assert(same_content(new[i].0.deep(), key.deep()));
            assert forall|a: int, b: int|
                0 <= a < new.len() && 0 <= b < new.len() && a != b implies !same_content(
                new[a].0.deep(),
                new[b].0.deep(),
            ) by {
                assert(new[a].0 == old[a].0 && new[b].0 == old[b].0);
            }
            let j = key_position(new, key.deep())->Some_0;
            if j != i {
                lemma_same_content_via(new[j].0.deep(), new[i].0.deep(), key.deep());
            }
        },
        None => {
            assert(forall|j: int| 0 <= j < old.len() ==> !same_content(#[trigger] old[j].0.deep(), key.deep()));
            assert(same_content(new[old.len() as int].0.deep(), key.deep()));
            assert forall|a: int, b: int|
                0 <= a < new.len() && 0 <= b < new.len() && a != b implies !same_content(
                new[a].0.deep(),
                new[b].0.deep(),
            ) by {
                if a == old.len() {
                    lemma_same_content_equivalence(key.deep(), old[b].0.deep(), key.deep());
                } else if b < old.len() {
                    assert(new[a].0 == old[a].0 && new[b].0 == old[b].0);
                }
            }
            let j = key_position(new, key.deep())->Some_0;
            if j != old.len() {
                lemma_same_content_via(new[j].0.deep(), new[old.len() as int].0.deep(), key.deep());
            }
        },
    }
}

/// Inserting a value under a key and then looking the key up finds that value; keys stay
/// pairwise different; other keys keep their values.
pub proof fn lemma_get_after_insert(
    old: Seq<(Value, Value)>,
    new: Seq<(Value, Value)>,
    key: Value,
    value: Value,
    other: Data,
)
    requires
        keys_distinct(old),
        match key_position(old, key.deep()) {
            Some(i) => new == old.update(i, (old[i].0, value)),
            None => new == old.push((key, value)),
        },
        !same_content(other, key.deep()),
    ensures
        keys_distinct(new),
        key_position(new, key.deep()) matches Some(j) && new[j].1 == value,
        key_position(old, other) is Some == key_position(new, other) is Some,
        key_position(old, other) matches Some(a) ==> (key_position(new, other) matches Some(b)
            && new[b].1 == old[a].1),
{
    lemma_key_after_insert(old, new, key, value);
    if has_key(old, other) {
        let a = choose|a: int| 0 <= a < old.len() && same_content(old[a].0.deep(), other);
        assert(same_content(new[a].0.deep(), other));
    }
    if has_key(new, other) {
        let b = choose|b: int| 0 <= b < new.len() && same_content(new[b].0.deep(), other);
        if b == old.len() {
            lemma_same_content_equivalence(other, key.deep(), key.deep());
        }
        assert(b < old.len());
        assert(same_content(old[b].0.deep(), other));
    }
    if has_key(old, other) {
        let a = key_position(old, other)->Some_0;
        let b = key_position(new, other)->Some_0;
        if let Some(i) = key_position(old, key.deep()) {
            if a == i {
                lemma_same_content_via(other, key.deep(), old[i].0.deep());
                lemma_same_content_equivalence(other, old[i].0.deep(), key.deep());
            }
        }
        assert(new[a] == old[a]);
        if a != b {
            lemma_same_content_via(new[a].0.deep(), new[b].0.deep(), other);
        }
    }
}

/// After removing a key, looking it up finds nothing; removing a key that was just inserted
/// into a map without it gives back the map as it was.
pub proof fn lemma_remove_after_insert(
    old: Seq<(Value, Value)>,
    mid: Seq<(Value, Value)>,
    new: Seq<(Value, Value)>,
    key: Value,
    value: Value,
)
    requires
        keys_distinct(old),
        match key_position(old, key.deep()) {
            Some(i) => mid == old.update(i, (old[i].0, value)),
            None => mid == old.push((key, value)),
        },
        match key_position(mid, key.deep()) {
            Some(i) => new == mid.remove(i),
            None => new == mid,
        },
    ensures
        key_position(new, key.deep()) is None,
        key_position(old, key.deep()) is None ==> new == old,
{
    lemma_key_after_insert(old, mid, key, value);
    let j = key_position(mid, key.deep())->Some_0;
    if key_position(old, key.deep()) is None {
        assert(same_content(mid[old.len() as int].0.deep(), key.deep()));
        if j != old.len() {
            assert(mid[j] == old[j]);
        }
        assert(j == old.len());
        assert(new =~= old);
    }
    if has_key(new, key.deep()) {
        let k = choose|k: int| 0 <= k < new.len() && same_content(new[k].0.deep(), key.deep());
        let k2 = if k < j { k } else { k + 1 };
        assert(new[k] == mid[k2]);
        lemma_same_content_via(mid[k2].0.deep(), mid[j].0.deep(), key.deep());
    }
}

/// Operations on map-like values: entries of distinct keys.
pub trait MapLike {
    spec fn map_entries(&self) -> Seq<(Value, Value)>;

    spec fn map_info(&self) -> Option<TypeInfo>;

    /// The value stored under a key of the content of `key`.
    fn get(&self, key: &Value) -> (r: Option<&Value>)
        ensures
            r == (match key_position(self.map_entries(), key.deep()) {
                Some(i) => Some(&self.map_entries()[i].1),
                None => None,
            }),
    ;

    /// The number of entries.
    fn len(&self) -> (r: usize)
        ensures
            r == self.map_entries().len(),
    ;

    /// Whether the map has no entries.
    fn is_empty(&self) -> (r: bool)
        ensures
            r == (self.map_entries().len() == 0),
    ;

    /// Takes all entries out; the map is left empty.
    fn drain(&mut self) -> (r: Vec<(Value, Value)>)
        ensures
            r@ == old(self).map_entries(),
            final(self).map_entries() == Seq::<(Value, Value)>::empty(),
            final(self).map_info() == old(self).map_info(),
    ;

    /// A copy made of dynamic containers: same represented type, same entries in the same order.
    fn to_dynamic_map(&self) -> (r: DynamicMap)
        ensures
            deep_entries(r.spec_entries()) == deep_entries(self.map_entries()),
            crate::value::marks_entries(r.spec_entries()) == crate::value::marks_entries(
                self.map_entries(),
            ),
            r.spec_info() == self.map_info(),
    ;

    /// Inserts an entry; the same as `extend_boxed`.
    fn insert(&mut self, key: Value, value: Value) -> (r: Option<Value>)
        ensures
            final(self).map_info() == old(self).map_info(),
            match key_position(old(self).map_entries(), key.deep()) {
                Some(i) => {
                    &&& r == Some(old(self).map_entries()[i].1)
                    &&& final(self).map_entries() == old(self).map_entries().update(
                        i,
                        (old(self).map_entries()[i].0, value),
                    )
                },
                None => {
                    &&& r is None
                    &&& final(self).map_entries() == old(self).map_entries().push((key, value))
                },
            },
    ;

    /// Inserts an entry; a dynamic map always accepts it.
    fn try_insert(&mut self, key: Value, value: Value) -> (r: Result<
        Option<Value>,
        (Value, Value),
    >)
        ensures
            final(self).map_info() == old(self).map_info(),
            match key_position(old(self).map_entries(), key.deep()) {
                Some(i) => {
                    &&& r == Ok::<Option<Value>, (Value, Value)>(Some(old(self).map_entries()[i].1))
                    &&& final(self).map_entries() == old(self).map_entries().update(
                        i,
                        (old(self).map_entries()[i].0, value),
                    )
                },
                None => {
                    &&& r == Ok::<Option<Value>, (Value, Value)>(None)
                    &&& final(self).map_entries() == old(self).map_entries().push((key, value))
                },
            },
    ;

    /// Removes the entry under `key` and returns its value.
    fn remove(&mut self, key: &Value) -> (r: Option<Value>)
        ensures
            final(self).map_info() == old(self).map_info(),
            match key_position(old(self).map_entries(), key.deep()) {
                Some(i) => {
                    &&& r == Some(old(self).map_entries()[i].1)
                    &&& final(self).map_entries() == old(self).map_entries().remove(i)
                },
                None => {
                    &&& r is None
                    &&& final(self).map_entries() == old(self).map_entries()
                },
            },
    ;

    /// Keeps the entries for which `f` holds of the key and the value, in order; the others are
    /// dropped.
    fn retain<F: Fn(&Value, &Value) -> bool>(&mut self, f: F)
        requires
            forall|k: &Value, v: &Value| f.requires((k, v)),
        ensures
            final(self).map_info() == old(self).map_info(),
            exists|keep: Seq<bool>|
                #![trigger crate::ops::set_ops::select(old(self).map_entries(), keep)]
                {
                    &&& keep.len() == old(self).map_entries().len()
                    &&& forall|i: int|
                        0 <= i < keep.len() ==> f.ensures(
                            (&old(self).map_entries()[i].0, &old(self).map_entries()[i].1),
                            #[trigger] keep[i],
                        )
                    &&& final(self).map_entries() == crate::ops::set_ops::select(
                        old(self).map_entries(),
                        keep,
                    )
                },
    ;
}

impl MapLike for DynamicMap {
    open spec fn map_entries(&self) -> Seq<(Value, Value)> {
        self.spec_entries()
    }

    open spec fn map_info(&self) -> Option<TypeInfo> {
        self.spec_info()
    }

    fn get(&self, key: &Value) -> (r: Option<&Value>) {
        DynamicMap::get(self, key)
    }

    fn len(&self) -> (r: usize) {
        DynamicMap::len(self)
    }

    fn is_empty(&self) -> (r: bool) {
        DynamicMap::is_empty(self)
    }

    fn drain(&mut self) -> (r: Vec<(Value, Value)>) {
        DynamicMap::drain(self)
    }

    fn to_dynamic_map(&self) -> (r: DynamicMap) {
        DynamicMap::to_dynamic_map(self)
    }

    fn insert(&mut self, key: Value, value: Value) -> (r: Option<Value>) {
        DynamicMap::insert(self, key, value)
    }

    fn try_insert(&mut self, key: Value, value: Value) -> (r: Result<
        Option<Value>,
        (Value, Value),
    >) {
        DynamicMap::try_insert(self, key, value)
    }

    fn remove(&mut self, key: &Value) -> (r: Option<Value>) {
        DynamicMap::remove(self, key)
    }

    fn retain<F: Fn(&Value, &Value) -> bool>(&mut self, f: F) {
        let ghost pre = self.spec_entries();
        DynamicMap::retain(self, f);
        proof {
            let keep = choose|keep: Seq<bool>|
                #![trigger crate::ops::set_ops::select(pre, keep)]
                {
                    &&& keep.len() == pre.len()
                    &&& forall|i: int| 0 <= i < keep.len() ==> #[trigger] f.ensures((&pre[i].0, &pre[i].1), keep[i])
                    &&& self.spec_entries() == crate::ops::set_ops::select(pre, keep)
                };
            assert(forall|i: int| 0 <= i < keep.len() ==> #[trigger] f.ensures((&pre[i].0, &pre[i].1), keep[i]));
            assert(pre == old(self).map_entries());
            assert(self.map_entries() == crate::ops::set_ops::select(old(self).map_entries(), keep));
        }
    }
}

} // verus!
