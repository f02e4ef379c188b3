use vstd::prelude::*;

use crate::info::TypeInfo;
use crate::reflection::{FromReflect, Reflect};
use crate::value::{Data, Value, clone_values, deep_seq};
use crate::value::{lemma_same_content_equivalence, lemma_same_content_via, same_content};

verus! {

/// Whether no two values have equal content.
pub open spec fn values_distinct(values: Seq<Value>) -> bool {
    forall|i: int, j: int|
        0 <= i < values.len() && 0 <= j < values.len() && i != j ==> !same_content(
            values[i].deep(),
            values[j].deep(),
        )
}

/// Whether a value of equal content is present.
pub open spec fn has_value(values: Seq<Value>, v: Data) -> bool {
    exists|i: int| 0 <= i < values.len() && same_content(values[i].deep(), v)
}

/// The position of the value of equal content, when there is one.
pub open spec fn value_position(values: Seq<Value>, v: Data) -> Option<int> {
    if has_value(values, v) {
        Some(choose|i: int| 0 <= i < values.len() && same_content(values[i].deep(), v))
    } else {
        None
    }
}

fn position_of_value(values: &Vec<Value>, v: &Value) -> (r: Option<usize>)
    requires
        values_distinct(values@),
    ensures
        match r {
            Some(i) => value_position(values@, v.deep()) == Some(i as int),
            None => value_position(values@, v.deep()) is None,
        },
        r matches Some(i) ==> i < values@.len() && same_content(values@[i as int].deep(), v.deep()),
{
    let mut i: usize = 0;
    while i < values.len()
        invariant
            i <= values@.len(),
            values_distinct(values@),
            forall|j: int| 0 <= j < i ==> !same_content(#[trigger] values@[j].deep(), v.deep()),
        decreases values@.len() - i,
    {
        if values[i].same_as(v) {
            proof {
                let k = choose|k: int| 0 <= k < values@.len() && same_content(values@[k].deep(), v.deep());
                if k != i {
                    lemma_same_content_via(values@[k].deep(), values@[i as int].deep(), v.deep());
                }
            }
            return Some(i);
        }
        i = i + 1;
    }
    None
}

/// The values whose flag is set, in order.
pub open spec fn select<A>(s: Seq<A>, keep: Seq<bool>) -> Seq<A>
    decreases s.len(),
{
    if s.len() == 0 || keep.len() != s.len() {
        Seq::empty()
    } else if keep.last() {
        select(s.drop_last(), keep.drop_last()).push(s.last())
    } else {
        select(s.drop_last(), keep.drop_last())
    }
}

/// A dynamic container representing a set: pairwise different values, compared as reflection
/// compares them (`same_content`: maps and sets inside by their entries and values, whatever
/// their order).
pub struct DynamicSet {
    info: Option<TypeInfo>,
    values: Vec<Value>,
}

impl DynamicSet {
    #[verifier::type_invariant]
    closed spec fn inv(self) -> bool {
        values_distinct(self.values@)
    }

    pub closed spec fn spec_values(self) -> Seq<Value> {
        self.values@
    }

    pub closed spec fn spec_info(self) -> Option<TypeInfo> {
        self.info
    }

    pub proof fn lemma_decreases(self)
        ensures
            decreases_to!(self => self.spec_values()),
    {
        broadcast use vstd::std_specs::vec::axiom_vec_decreases_to_view;

        assert(decreases_to!(self.values => self.values@));
    }

    /// Values are pairwise different.
    pub fn check_values(&self)
        ensures
            values_distinct(self.spec_values()),
    {
        proof {
            use_type_invariant(self);
        }
    }

    /// Creates an empty set.
    pub fn new() -> (r: Self)
        ensures
            r.spec_values() == Seq::<Value>::empty(),
            r.spec_info() is None,
    {
        DynamicSet { info: None, values: Vec::new() }
    }

    /// Creates an empty set with room for `capacity` values.
    pub fn with_capacity(capacity: usize) -> (r: Self)
        ensures
            r.spec_values() == Seq::<Value>::empty(),
            r.spec_info() is None,
    {
        DynamicSet { info: None, values: Vec::with_capacity(capacity) }
    }

    /// Sets the set type that this set represents.
    pub fn set_type_info(&mut self, info: Option<TypeInfo>)
        requires
            info matches Some(i) ==> i is SetLike,
        ensures
            final(self).spec_info() == info,
            final(self).spec_values() == old(self).spec_values(),
    {
        proof {
            use_type_invariant(&*self);
        }
        self.info = info;
    }

    /// The set type that this set represents.
    pub fn represented_type_info(&self) -> (r: Option<TypeInfo>)
        ensures
            r == self.spec_info(),
    {
        self.info
    }

    pub(crate) fn items(&self) -> (r: &Vec<Value>)
        ensures
            r@ == self.spec_values(),
            values_distinct(r@),
    {
        proof {
            use_type_invariant(self);
        }
        &self.values
    }

    /// Inserts a value; an equal value already present is replaced. Returns whether the
    /// value was new.
    pub fn extend_boxed(&mut self, value: Value) -> (r: bool)
        ensures
            final(self).spec_info() == old(self).spec_info(),
            r == (value_position(old(self).spec_values(), value.deep()) is None),
            match value_position(old(self).spec_values(), value.deep()) {
                Some(i) => final(self).spec_values() == old(self).spec_values().update(i, value),
                None => final(self).spec_values() == old(self).spec_values().push(value),
            },
    {
        proof {
            use_type_invariant(&*self);
        }
        let ghost old_values = self.values@;
        let mut taken: Vec<Value> = Vec::new();
        std::mem::swap(&mut taken, &mut self.values);
        match position_of_value(&taken, &value) {
            Some(i) => {
                let ghost vd = value.deep();
                taken.set(i, value);
                proof {
                    assert forall|a: int, b: int|
                        0 <= a < taken@.len() && 0 <= b < taken@.len() && a != b implies !same_content(
                        taken@[a].deep(),
                        taken@[b].deep(),
                    ) by {
                        if a == i as int {
                            if same_content(vd, old_values[b].deep()) {
                                lemma_same_content_equivalence(vd, old_values[b].deep(), vd);
                                lemma_same_content_via(old_values[b].deep(), old_values[a].deep(), vd);
                            }
                        } else if b == i as int {
                            if same_content(old_values[a].deep(), vd) {
                                lemma_same_content_via(old_values[a].deep(), old_values[b].deep(), vd);
                            }
                        }
                    }
                }
                self.values = taken;
                false
            },
            None => {
                taken.push(value);
                proof {
                    assert forall|a: int, b: int|
                        0 <= a < taken@.len() && 0 <= b < taken@.len() && a != b implies !same_content(
                        taken@[a].deep(),
                        taken@[b].deep(),
                    ) by {
                        if b == old_values.len() {
                            assert(!same_content(old_values[a].deep(), value.deep()));
                        } else if a == old_values.len() {
                            lemma_same_content_equivalence(value.deep(), old_values[b].deep(), value.deep());
                            assert(!same_content(old_values[b].deep(), value.deep()));
                        }
                    }
                }
                self.values = taken;
                true
            },
        }
    }

    /// Inserts a value converted from a reflected type.
    pub fn extend<T: Reflect>(&mut self, value: T) -> (r: bool)
        ensures
            final(self).spec_info() == old(self).spec_info(),
            r == (value_position(old(self).spec_values(), value.spec_value().deep()) is None),
            match value_position(old(self).spec_values(), value.spec_value().deep()) {
                Some(i) => final(self).spec_values() == old(self).spec_values().update(
                    i,
                    value.spec_value(),
                ),
                None => final(self).spec_values() == old(self).spec_values().push(
                    value.spec_value(),
                ),
            },
    {
        self.extend_boxed(value.into_value())
    }

    /// Inserts a value; the same as `extend_boxed`.
    pub fn insert(&mut self, value: Value) -> (r: bool)
        ensures
            final(self).spec_info() == old(self).spec_info(),
            r == (value_position(old(self).spec_values(), value.deep()) is None),
            match value_position(old(self).spec_values(), value.deep()) {
                Some(i) => final(self).spec_values() == old(self).spec_values().update(i, value),
                None => final(self).spec_values() == old(self).spec_values().push(value),
            },
    {
        self.extend_boxed(value)
    }

    /// Inserts a value; a dynamic set always accepts it.
    pub fn try_insert(&mut self, value: Value) -> (r: Result<bool, Value>)
        ensures
            final(self).spec_info() == old(self).spec_info(),
            r == Ok::<bool, Value>(value_position(old(self).spec_values(), value.deep()) is None),
            match value_position(old(self).spec_values(), value.deep()) {
                Some(i) => final(self).spec_values() == old(self).spec_values().update(i, value),
                None => final(self).spec_values() == old(self).spec_values().push(value),
            },
    {
        Ok(self.extend_boxed(value))
    }

    /// The stored value equal in content to `value`.
    pub fn get(&self, value: &Value) -> (r: Option<&Value>)
        ensures
            r == (match value_position(self.spec_values(), value.deep()) {
                Some(i) => Some(&self.spec_values()[i]),
                None => None,
            }),
    {
        proof {
            use_type_invariant(self);
        }
        match position_of_value(&self.values, value) {
            Some(i) => Some(&self.values[i]),
            None => None,
        }
    }

    /// The stored value equal in content to `value`, converted to `T`.
    pub fn get_as<T: FromReflect>(&self, value: &Value) -> (r: Option<T>)
        ensures
            match value_position(self.spec_values(), value.deep()) {
                Some(i) => T::converts(self.spec_values()[i], r),
                None => r is None,
            },
    {
        match self.get(value) {
            Some(v) => T::from_reflect(v),
            None => None,
        }
    }

    /// Whether a value equal in content to `value` is present.
    pub fn contains(&self, value: &Value) -> (r: bool)
        ensures
            r == has_value(self.spec_values(), value.deep()),
    {
        proof {
            use_type_invariant(self);
        }
        position_of_value(&self.values, value).is_some()
    }

    /// The number of values.
    pub fn len(&self) -> (r: usize)
        ensures
            r == self.spec_values().len(),
    {
        self.values.len()
    }

    /// Whether the set is empty.
    pub fn is_empty(&self) -> (r: bool)
        ensures
            r == (self.spec_values().len() == 0),
    {
        self.values.len() == 0
    }

    /// Removes the value equal in content to `value`; returns whether one was present.
    pub fn remove(&mut self, value: &Value) -> (r: bool)
        ensures
            final(self).spec_info() == old(self).spec_info(),
            r == has_value(old(self).spec_values(), value.deep()),
            match value_position(old(self).spec_values(), value.deep()) {
                Some(i) => final(self).spec_values() == old(self).spec_values().remove(i),
                None => final(self).spec_values() == old(self).spec_values(),
            },
    {
        proof {
            use_type_invariant(&*self);
        }
        let ghost old_values = self.values@;
        let mut taken: Vec<Value> = Vec::new();
        std::mem::swap(&mut taken, &mut self.values);
        match position_of_value(&taken, value) {
            Some(i) => {
                let _ = taken.remove(i);
                proof {
                    assert forall|a: int, b: int|
                        0 <= a < taken@.len() && 0 <= b < taken@.len() && a != b implies !same_content(
                        taken@[a].deep(),
                        taken@[b].deep(),
                    ) by {
                        let a2 = if a < i { a } else { a + 1 };
                        let b2 = if b < i { b } else { b + 1 };
                        assert(taken@[a] == old_values[a2]);
                        assert(taken@[b] == old_values[b2]);
                    }
                }
                self.values = taken;
                true
            },
            None => {
                self.values = taken;
                false
            },
        }
    }

    /// Keeps the values for which `f` holds, in order; the others are dropped.
    pub fn retain<F: Fn(&Value) -> bool>(&mut self, f: F)
        requires
            forall|v: &Value| f.requires((v,)),
        ensures
            final(self).spec_info() == old(self).spec_info(),
            exists|keep: Seq<bool>|
                #![trigger select(old(self).spec_values(), keep)]
                {
                    &&& keep.len() == old(self).spec_values().len()
                    &&& forall|i: int|
                        0 <= i < keep.len() ==> f.ensures((&old(self).spec_values()[i],), #[trigger] keep[i])
                    &&& final(self).spec_values() == select(old(self).spec_values(), keep)
                },
    {
        proof {
            use_type_invariant(&*self);
        }
        let ghost old_values = self.values@;
        let mut taken: Vec<Value> = Vec::new();
        std::mem::swap(&mut taken, &mut self.values);
        let mut out: Vec<Value> = Vec::new();
        let ghost mut keep: Seq<bool> = Seq::empty();
        let n = taken.len();
        let mut i: usize = 0;
        while i < n
            invariant
                n == old_values.len(),
                i <= n,
                taken@ == old_values.skip(i as int),
                values_distinct(old_values),
                keep.len() == i,
                forall|k: int| 0 <= k < i ==> f.ensures((&old_values[k],), #[trigger] keep[k]),
                out@ == select(old_values.take(i as int), keep),
                values_distinct(out@),
                forall|j: int| 0 <= j < out@.len() ==> exists|k: int| 0 <= k < i && #[trigger] out@[j] == old_values[k],
                forall|v: &Value| f.requires((v,)),
            decreases n - i,
        {
            let v = taken.remove(0);
            assert(v == old_values[i as int]);
            let b = f(&v);
            proof {
                assert(old_values.take(i + 1).drop_last() =~= old_values.take(i as int));
                assert(keep.push(b).drop_last() =~= keep);
                keep = keep.push(b);
            }
            if b {
                proof {
                    assert forall|j: int| 0 <= j < out@.len() implies !same_content(
                        out@[j].deep(),
                        v.deep(),
                    ) by {
                        let k = choose|k: int| 0 <= k < i && out@[j] == old_values[k];
                        assert(!same_content(old_values[k].deep(), old_values[i as int].deep()));
                    }
                }
                out.push(v);
            }
            assert(taken@ =~= old_values.skip(i + 1));
            i = i + 1;
        }
        assert(old_values.take(n as int) =~= old_values);
        self.values = out;
        assert(keep.len() == old_values.len());
        assert(forall|k: int| 0 <= k < keep.len() ==> f.ensures((&old_values[k],), #[trigger] keep[k]));
        assert(self.spec_values() == select(old_values, keep));
        assert(old(self).spec_values() == old_values);
        assert(self.spec_info() == old(self).spec_info());
    }

    /// Takes all values out; the set is left empty.
    pub fn drain(&mut self) -> (r: Vec<Value>)
        ensures
            r@ == old(self).spec_values(),
            final(self).spec_values() == Seq::<Value>::empty(),
            final(self).spec_info() == old(self).spec_info(),
    {
        let mut out: Vec<Value> = Vec::new();
        std::mem::swap(&mut out, &mut self.values);
        out
    }

    /// A copy made of dynamic containers: same represented type, same values in the same order.
    pub fn to_dynamic_set(&self) -> (r: DynamicSet)
        ensures
            deep_seq(r.spec_values()) == deep_seq(self.spec_values()),
            crate::value::marks_seq(r.spec_values()) == crate::value::marks_seq(self.spec_values()),
            r.spec_info() == self.spec_info(),
        decreases self,
    {
        broadcast use crate::value::group_deep;

        proof {
            self.lemma_decreases();
            use_type_invariant(self);
        }
        let values = clone_values(&self.values);
        proof {
            assert(values@.len() == deep_seq(values@).len());
            assert(self.values@.len() == deep_seq(self.values@).len());
            assert forall|a: int, b: int|
                0 <= a < values@.len() && 0 <= b < values@.len() && a != b implies !same_content(
                values@[a].deep(),
                values@[b].deep(),
            ) by {
                assert(deep_seq(values@)[a] == deep_seq(self.values@)[a]);
                assert(deep_seq(values@)[b] == deep_seq(self.values@)[b]);
                assert(!same_content(self.values@[a].deep(), self.values@[b].deep()));
            }
        }
        DynamicSet { info: self.info, values }
    }
}

impl crate::info::TypePath for DynamicSet {
    open spec fn spec_type_path() -> Seq<char> {
        "vc_reflect::ops::DynamicSet"@
    }

    open spec fn spec_type_short_name() -> Seq<char> {
        "DynamicSet"@
    }

    open spec fn spec_type_ident() -> Seq<char> {
        "DynamicSet"@
    }

    open spec fn spec_type_module() -> Option<Seq<char>> {
        Some("vc_reflect::ops"@)
    }

    fn type_path() -> &'static str {
        "vc_reflect::ops::DynamicSet"
    }

    fn type_short_name() -> &'static str {
        "DynamicSet"
    }

    fn type_ident() -> &'static str {
        "DynamicSet"
    }

    fn type_module() -> Option<&'static str> {
        Some("vc_reflect::ops")
    }
}

impl crate::info::Typed for DynamicSet {
    open spec fn spec_type_info() -> TypeInfo {
        crate::info::opaque_info(
            crate::info::DYNAMIC_SET_TYPE_ID,
            "vc_reflect::ops::DynamicSet",
            "DynamicSet",
            Some("vc_reflect::ops"),
        )
    }

    fn type_info() -> (r: TypeInfo) {
        crate::info::make_opaque(
            crate::info::DYNAMIC_SET_TYPE_ID,
            "vc_reflect::ops::DynamicSet",
            "DynamicSet",
            Some("vc_reflect::ops"),
        )
    }
}


/// After inserting a value, the set holds a value of that content, values stay pairwise
/// different, and insertion reports whether the content was new.
pub proof fn lemma_contains_after_insert(old: Seq<Value>, new: Seq<Value>, value: Value)
    requires
        values_distinct(old),
        match value_position(old, value.deep()) {
            Some(i) => new == old.update(i, value),
            None => new == old.push(value),
        },
    ensures
        values_distinct(new),
        has_value(new, value.deep()),
        value_position(old, value.deep()) is Some ==> new.len() == old.len(),
        value_position(old, value.deep()) is None ==> new.len() == old.len() + 1,
{
    match value_position(old, value.deep()) {
        Some(i) => {
            lemma_same_content_equivalence(value.deep(), value.deep(), value.deep());
            assert(same_content(new[i].deep(), value.deep()));
            assert forall|a: int, b: int|
                0 <= a < new.len() && 0 <= b < new.len() && a != b implies !same_content(
                new[a].deep(),
                new[b].deep(),
            ) by {
                if a == i {
                    if same_content(value.deep(), old[b].deep()) {
                        lemma_same_content_equivalence(value.deep(), old[b].deep(), value.deep());
                        lemma_same_content_via(old[b].deep(), old[a].deep(), value.deep());
                    }
                } else if b == i {
                    if same_content(old[a].deep(), value.deep()) {
                        lemma_same_content_via(old[a].deep(), old[b].deep(), value.deep());
                    }
                }
            }
        },
        None => {
            lemma_same_content_equivalence(value.deep(), value.deep(), value.deep());
            assert(forall|j: int| 0 <= j < old.len() ==> !same_content(#[trigger] old[j].deep(), value.deep()));
            assert(same_content(new[old.len() as int].deep(), value.deep()));
            assert forall|a: int, b: int|
                0 <= a < new.len() && 0 <= b < new.len() && a != b implies !same_content(
                new[a].deep(),
                new[b].deep(),
            ) by {
                if a == old.len() {
                    lemma_same_content_equivalence(value.deep(), old[b].deep(), value.deep());
                }
            }
        },
    }
}

/// After removing a value, the set holds no value of its content; removing a value that was
/// just inserted into a set without it gives back the set as it was.
pub proof fn lemma_remove_after_insert(old: Seq<Value>, mid: Seq<Value>, new: Seq<Value>, value: Value)
    requires
        values_distinct(old),
        match value_position(old, value.deep()) {
            Some(i) => mid == old.update(i, value),
            None => mid == old.push(value),
        },
        match value_position(mid, value.deep()) {
            Some(i) => new == mid.remove(i),
            None => new == mid,
        },
    ensures
        !has_value(new, value.deep()),
        value_position(old, value.deep()) is None ==> new == old,
{
    lemma_contains_after_insert(old, mid, value);
    let j = value_position(mid, value.deep())->Some_0;
    if value_position(old, value.deep()) is None {
        lemma_same_content_equivalence(value.deep(), value.deep(), value.deep());
        assert(same_content(mid[old.len() as int].deep(), value.deep()));
        assert(!has_value(old, value.deep()));
        if j != old.len() {
            assert(mid[j] == old[j]);
        }
        assert(j == old.len());
        assert(new =~= old);
    }
    if has_value(new, value.deep()) {
        let k = choose|k: int| 0 <= k < new.len() && same_content(new[k].deep(), value.deep());
        let k2 = if k < j { k } else { k + 1 };
        assert(new[k] == mid[k2]);
        lemma_same_content_via(mid[k2].deep(), mid[j].deep(), value.deep());
    }
}

/// Operations on set-like values: values of distinct contents.
pub trait SetLike {
    spec fn set_values(&self) -> Seq<Value>;

    spec fn set_info(&self) -> Option<TypeInfo>;

    /// The stored value equal in content to `value`.
    fn get(&self, value: &Value) -> (r: Option<&Value>)
        ensures
            r == (match value_position(self.set_values(), value.deep()) {
                Some(i) => Some(&self.set_values()[i]),
                None => None,
            }),
    ;

    /// The number of values.
    fn len(&self) -> (r: usize)
        ensures
            r == self.set_values().len(),
    ;

    /// Whether the set is empty.
    fn is_empty(&self) -> (r: bool)
        ensures
            r == (self.set_values().len() == 0),
    ;

    /// Takes all values out; the set is left empty.
    fn drain(&mut self) -> (r: Vec<Value>)
        ensures
            r@ == old(self).set_values(),
            final(self).set_values() == Seq::<Value>::empty(),
            final(self).set_info() == old(self).set_info(),
    ;

    /// A copy made of dynamic containers: same represented type, same values in the same order.
    fn to_dynamic_set(&self) -> (r: DynamicSet)
        ensures
            deep_seq(r.spec_values()) == deep_seq(self.set_values()),
            crate::value::marks_seq(r.spec_values()) == crate::value::marks_seq(self.set_values()),
            r.spec_info() == self.set_info(),
    ;

    /// Inserts a value; the same as `extend_boxed`.
    fn insert(&mut self, value: Value) -> (r: bool)
        ensures
            final(self).set_info() == old(self).set_info(),
            r == (value_position(old(self).set_values(), value.deep()) is None),
            match value_position(old(self).set_values(), value.deep()) {
                Some(i) => final(self).set_values() == old(self).set_values().update(i, value),
                None => final(self).set_values() == old(self).set_values().push(value),
            },
    ;

    /// Inserts a value; a dynamic set always accepts it.
    fn try_insert(&mut self, value: Value) -> (r: Result<bool, Value>)
        ensures
            final(self).set_info() == old(self).set_info(),
            r == Ok::<bool, Value>(value_position(old(self).set_values(), value.deep()) is None),
            match value_position(old(self).set_values(), value.deep()) {
                Some(i) => final(self).set_values() == old(self).set_values().update(i, value),
                None => final(self).set_values() == old(self).set_values().push(value),
            },
    ;

    /// Removes the value equal in content to `value`; returns whether one was present.
    fn remove(&mut self, value: &Value) -> (r: bool)
        ensures
            final(self).set_info() == old(self).set_info(),
            r == has_value(old(self).set_values(), value.deep()),
            match value_position(old(self).set_values(), value.deep()) {
                Some(i) => final(self).set_values() == old(self).set_values().remove(i),
                None => final(self).set_values() == old(self).set_values(),
            },
    ;

    /// Whether a value equal in content to `value` is present.
    fn contains(&self, value: &Value) -> (r: bool)
        ensures
            r == has_value(self.set_values(), value.deep()),
    ;

    /// Keeps the values for which `f` holds, in order; the others are dropped.
    fn retain<F: Fn(&Value) -> bool>(&mut self, f: F)
        requires
            forall|v: &Value| f.requires((v,)),
        ensures
            final(self).set_info() == old(self).set_info(),
            exists|keep: Seq<bool>|
                #![trigger select(old(self).set_values(), keep)]
                {
                    &&& keep.len() == old(self).set_values().len()
                    &&& forall|i: int|
                        0 <= i < keep.len() ==> f.ensures((&old(self).set_values()[i],), #[trigger] keep[i])
                    &&& final(self).set_values() == select(old(self).set_values(), keep)
                },
    ;
}

impl SetLike for DynamicSet {
    open spec fn set_values(&self) -> Seq<Value> {
        self.spec_values()
    }

    open spec fn set_info(&self) -> Option<TypeInfo> {
        self.spec_info()
    }

    fn get(&self, value: &Value) -> (r: Option<&Value>) {
        DynamicSet::get(self, value)
    }

    fn len(&self) -> (r: usize) {
        DynamicSet::len(self)
    }

    fn is_empty(&self) -> (r: bool) {
        DynamicSet::is_empty(self)
    }

    fn drain(&mut self) -> (r: Vec<Value>) {
        DynamicSet::drain(self)
    }

    fn to_dynamic_set(&self) -> (r: DynamicSet) {
        DynamicSet::to_dynamic_set(self)
    }

    fn insert(&mut self, value: Value) -> (r: bool) {
        DynamicSet::insert(self, value)
    }

    fn try_insert(&mut self, value: Value) -> (r: Result<bool, Value>) {
        DynamicSet::try_insert(self, value)
    }

    fn remove(&mut self, value: &Value) -> (r: bool) {
        DynamicSet::remove(self, value)
    }

    fn contains(&self, value: &Value) -> (r: bool) {
        DynamicSet::contains(self, value)
    }

    fn retain<F: Fn(&Value) -> bool>(&mut self, f: F) {
        let ghost pre = self.spec_values();
        DynamicSet::retain(self, f);
        proof {
            let keep = choose|keep: Seq<bool>|
                #![trigger select(pre, keep)]
                {
                    &&& keep.len() == pre.len()
                    &&& forall|i: int| 0 <= i < keep.len() ==> #[trigger] f.ensures((&pre[i],), keep[i])
                    &&& self.spec_values() == select(pre, keep)
                };
            assert(forall|i: int| 0 <= i < keep.len() ==> #[trigger] f.ensures((&pre[i],), keep[i]));
            assert(pre == old(self).set_values());
            assert(self.set_values() == select(old(self).set_values(), keep));
        }
    }
}

} // verus!
