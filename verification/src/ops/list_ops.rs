use vstd::prelude::*;

use crate::info::TypeInfo;
use crate::reflection::{FromReflect, Reflect, ReflectMut};
use crate::value::{Value, clone_values, deep_seq, marks_seq};

verus! {

/// A dynamic container representing a list.
pub struct DynamicList {
    info: Option<TypeInfo>,
    values: Vec<Value>,
}

impl DynamicList {
    pub closed spec fn spec_values(self) -> Seq<Value> {
        self.values@
    }

    pub closed spec fn spec_info(self) -> Option<TypeInfo> {
        self.info
    }

    pub proof fn lemma_decreases(self)
        ensures
            decreases_to!(self => self.spec_values()),
    {
        broadcast use vstd::std_specs::vec::axiom_vec_decreases_to_view;

        assert(decreases_to!(self.values => self.values@));
    }

    /// Creates an empty array.
    pub fn new() -> (r: Self)
        ensures
            r.spec_values() == Seq::<Value>::empty(),
            r.spec_info() is None,
    {
        DynamicList { info: None, values: Vec::new() }
    }

    /// Creates an empty array with room for `capacity` elements.
    pub fn with_capacity(capacity: usize) -> (r: Self)
        ensures
            r.spec_values() == Seq::<Value>::empty(),
            r.spec_info() is None,
    {
        DynamicList { info: None, values: Vec::with_capacity(capacity) }
    }

    /// Creates a list of the given elements.
    pub fn from_values(values: Vec<Value>) -> (r: Self)
        ensures
            r.spec_values() == values@,
            r.spec_info() is None,
    {
        DynamicList { info: None, values }
    }

    /// Sets the list type that this array represents.
    pub fn set_type_info(&mut self, info: Option<TypeInfo>)
        requires
            info matches Some(i) ==> i is List,
        ensures
            final(self).spec_info() == info,
            final(self).spec_values() == old(self).spec_values(),
    {
        self.info = info;
    }

    /// The list type that this array represents.
    pub fn represented_type_info(&self) -> (r: Option<TypeInfo>)
        ensures
            r == self.spec_info(),
    {
        self.info
    }

    /// Appends an element.
    pub fn extend_boxed(&mut self, value: Value)
        ensures
            final(self).spec_values() == old(self).spec_values().push(value),
            final(self).spec_info() == old(self).spec_info(),
    {
        self.values.push(value);
    }

    /// Appends an element converted from a reflected type.
    pub fn extend<T: Reflect>(&mut self, value: T)
        ensures
            final(self).spec_values() == old(self).spec_values().push(value.spec_value()),
            final(self).spec_info() == old(self).spec_info(),
    {
        self.extend_boxed(value.into_value());
    }

    pub(crate) fn items(&self) -> (r: &Vec<Value>)
        ensures
            r@ == self.spec_values(),
    {
        &self.values
    }

    /// An iterator over the elements, in order.
    pub fn iter(&self) -> (r: ListItemIter<'_>)
        ensures
            r.spec_list() == *self,
            r.spec_index() == 0,
    {
        ListItemIter::new(self)
    }
}

/// Operations on list-like values.
pub trait List {
    spec fn list_values(&self) -> Seq<Value>;

    spec fn list_info(&self) -> Option<TypeInfo>;

    /// The element at `index`, or `None` when out of bounds.
    fn get(&self, index: usize) -> (r: Option<&Value>)
        ensures
            r == (if index < self.list_values().len() {
                Some(&self.list_values()[index as int])
            } else {
                None
            }),
    ;

    /// The element at `index` for changing in place, or `None` when out of bounds.
    fn get_mut(&mut self, index: usize) -> (r: Option<&mut Value>)
        ensures
            index < old(self).list_values().len() ==> {
                &&& r is Some
                &&& *r->Some_0 == old(self).list_values()[index as int]
                &&& final(self).list_values() == old(self).list_values().update(
                    index as int,
                    *final(r->Some_0),
                )
            },
            index >= old(self).list_values().len() ==> r is None && final(self).list_values()
                == old(self).list_values(),
            final(self).list_info() == old(self).list_info(),
    ;

    /// Replaces the element at `index`; out of bounds the list is unchanged and `false` is returned.
    fn set(&mut self, index: usize, value: Value) -> (r: bool)
        ensures
            r == (index < old(self).list_values().len()),
            r ==> final(self).list_values() == old(self).list_values().update(index as int, value),
            !r ==> final(self).list_values() == old(self).list_values(),
            final(self).list_info() == old(self).list_info(),
    ;

    /// The number of elements.
    fn len(&self) -> (r: usize)
        ensures
            r == self.list_values().len(),
    ;



    /// Inserts an element at `index`, shifting the later ones.
    fn insert(&mut self, index: usize, element: Value)
        requires
            index <= old(self).list_values().len(),
        ensures
            final(self).list_values() == old(self).list_values().insert(index as int, element),
            final(self).list_info() == old(self).list_info(),
    ;

    /// Removes and returns the element at `index`, shifting the later ones.
    fn remove(&mut self, index: usize) -> (r: Value)
        requires
            index < old(self).list_values().len(),
        ensures
            r == old(self).list_values()[index as int],
            final(self).list_values() == old(self).list_values().remove(index as int),
            final(self).list_info() == old(self).list_info(),
    ;

    /// Appends an element.
    fn push(&mut self, value: Value)
        ensures
            final(self).list_values() == old(self).list_values().push(value),
            final(self).list_info() == old(self).list_info(),
    ;

    /// Appends an element; a dynamic list always accepts it.
    fn try_push(&mut self, value: Value) -> (r: Result<(), Value>)
        ensures
            r is Ok,
            final(self).list_values() == old(self).list_values().push(value),
            final(self).list_info() == old(self).list_info(),
    ;

    /// Removes and returns the last element.
    fn pop(&mut self) -> (r: Option<Value>)
        ensures
            old(self).list_values().len() == 0 ==> r is None && final(self).list_values()
                == old(self).list_values(),
            old(self).list_values().len() > 0 ==> r == Some(old(self).list_values().last())
                && final(self).list_values() == old(self).list_values().drop_last(),
            final(self).list_info() == old(self).list_info(),
    ;

    /// Whether the list has no elements.
    fn is_empty(&self) -> (r: bool)
        ensures
            r == (self.list_values().len() == 0),
    {
        self.len() == 0
    }

    /// Takes all elements out; the list is left empty.
    fn drain(&mut self) -> (r: Vec<Value>)
        ensures
            r@ == old(self).list_values(),
            final(self).list_values() == Seq::<Value>::empty(),
            final(self).list_info() == old(self).list_info(),
    ;

    /// A copy made of dynamic containers: same represented type, same contents.
    fn to_dynamic_list(&self) -> (r: DynamicList)
        ensures
            deep_seq(r.spec_values()) == deep_seq(self.list_values()),
            marks_seq(r.spec_values()) == marks_seq(self.list_values()),
            r.spec_info() == self.list_info(),
    ;

    /// The element at `index` converted to `T`.
    fn get_as<T: FromReflect>(&self, index: usize) -> (r: Option<T>)
        ensures
            index < self.list_values().len() ==> T::converts(
                self.list_values()[index as int],
                r,
            ),
            index >= self.list_values().len() ==> r is None,
    {
        match self.get(index) {
            Some(v) => T::from_reflect(v),
            None => None,
        }
    }

    /// The element at `index` as a `T`, for changing in place; `None` when out of bounds or when
    /// the element holds no `T`.
    fn get_mut_as<T: ReflectMut>(&mut self, index: usize) -> (r: Option<&mut T>)
        ensures
            index < old(self).list_values().len() && T::holds(old(self).list_values()[index as int])
                ==> {
                &&& r is Some
                &&& (*r->Some_0).spec_value() == old(self).list_values()[index as int]
                &&& final(self).list_values() == old(self).list_values().update(
                    index as int,
                    (*final(r->Some_0)).spec_value(),
                )
            },
            !(index < old(self).list_values().len() && T::holds(old(self).list_values()[index as int]))
                ==> r is None && final(self).list_values() == old(self).list_values(),
            final(self).list_info() == old(self).list_info(),
    {
        match self.get_mut(index) {
            Some(v) => {
                let r = T::as_reflect_mut(v);
                proof {
                    if r is None {
                        assert(old(self).list_values().update(index as int, old(self).list_values()[index as int])
                            =~= old(self).list_values());
                    }
                }
                r
            },
            None => None,
        }
    }
}

impl List for DynamicList {
    open spec fn list_values(&self) -> Seq<Value> {
        self.spec_values()
    }

    open spec fn list_info(&self) -> Option<TypeInfo> {
        self.spec_info()
    }

    fn get(&self, index: usize) -> (r: Option<&Value>) {
        if index < self.values.len() {
            Some(&self.values[index])
        } else {
            None
        }
    }

    fn get_mut(&mut self, index: usize) -> (r: Option<&mut Value>) {
        if index < self.values.len() {
            Some(&mut self.values[index])
        } else {
            None
        }
    }

    fn set(&mut self, index: usize, value: Value) -> (r: bool) {
        if index < self.values.len() {
            self.values.set(index, value);
            true
        } else {
            false
        }
    }

    fn len(&self) -> (r: usize) {
        self.values.len()
    }


    fn insert(&mut self, index: usize, element: Value) {
        self.values.insert(index, element);
    }

    fn remove(&mut self, index: usize) -> (r: Value) {
        self.values.remove(index)
    }

    fn push(&mut self, value: Value) {
        self.values.push(value);
    }

    fn try_push(&mut self, value: Value) -> (r: Result<(), Value>) {
        self.values.push(value);
        Ok(())
    }

    fn pop(&mut self) -> (r: Option<Value>) {
        self.values.pop()
    }

    fn drain(&mut self) -> (r: Vec<Value>) {
        let mut out: Vec<Value> = Vec::new();
        std::mem::swap(&mut out, &mut self.values);
        out
    }

    fn to_dynamic_list(&self) -> (r: DynamicList)
        decreases self,
    {
        proof {
            self.lemma_decreases();
        }
        DynamicList { info: self.info, values: clone_values(&self.values) }
    }
}

/// An iterator over the elements of a list.
pub struct ListItemIter<'a> {
    list: &'a DynamicList,
    index: usize,
}

impl<'a> ListItemIter<'a> {
    pub closed spec fn spec_list(self) -> DynamicList {
        *self.list
    }

    pub closed spec fn spec_index(self) -> usize {
        self.index
    }

    /// Starts at the first element.
    pub fn new(list: &'a DynamicList) -> (r: Self)
        ensures
            r.spec_list() == *list,
            r.spec_index() == 0,
    {
        ListItemIter { list, index: 0 }
    }

    /// The next element, if any.
    pub fn next(&mut self) -> (r: Option<&'a Value>)
        ensures
            final(self).spec_list() == old(self).spec_list(),
            old(self).spec_index() < old(self).spec_list().spec_values().len() ==> {
                &&& r == Some(&old(self).spec_list().spec_values()[old(self).spec_index() as int])
                &&& final(self).spec_index() == old(self).spec_index() + 1
            },
            old(self).spec_index() >= old(self).spec_list().spec_values().len() ==> {
                &&& r is None
                &&& final(self).spec_index() == old(self).spec_index()
            },
    {
        if self.index < self.list.values.len() {
            let v = &self.list.values[self.index];
            self.index = self.index + 1;
            Some(v)
        } else {
            None
        }
    }

    /// The number of elements not yet returned.
    pub fn remaining(&self) -> (r: usize)
        ensures
            r == if self.spec_index() <= self.spec_list().spec_values().len() {
                self.spec_list().spec_values().len() - self.spec_index()
            } else {
                0
            },
    {
        if self.index <= self.list.values.len() {
            self.list.values.len() - self.index
        } else {
            0
        }
    }
}

impl crate::info::TypePath for DynamicList {
    open spec fn spec_type_path() -> Seq<char> {
        "vc_reflect::ops::DynamicList"@
    }

    open spec fn spec_type_short_name() -> Seq<char> {
        "DynamicList"@
    }

    open spec fn spec_type_ident() -> Seq<char> {
        "DynamicList"@
    }

    open spec fn spec_type_module() -> Option<Seq<char>> {
        Some("vc_reflect::ops"@)
    }

    fn type_path() -> &'static str {
        "vc_reflect::ops::DynamicList"
    }

    fn type_short_name() -> &'static str {
        "DynamicList"
    }

    fn type_ident() -> &'static str {
        "DynamicList"
    }

    fn type_module() -> Option<&'static str> {
        Some("vc_reflect::ops")
    }
}

impl crate::info::Typed for DynamicList {
    open spec fn spec_type_info() -> TypeInfo {
        crate::info::opaque_info(
            crate::info::DYNAMIC_LIST_TYPE_ID,
            "vc_reflect::ops::DynamicList",
            "DynamicList",
            Some("vc_reflect::ops"),
        )
    }

    fn type_info() -> (r: TypeInfo) {
        crate::info::make_opaque(
            crate::info::DYNAMIC_LIST_TYPE_ID,
            "vc_reflect::ops::DynamicList",
            "DynamicList",
            Some("vc_reflect::ops"),
        )
    }
}

/// What one call of `ListItemIter::next` does: from `a` to `b`, returning `r`.
pub open spec fn list_step<'a>(a: ListItemIter<'a>, b: ListItemIter<'a>, r: Option<&'a Value>) -> bool {
    &&& b.spec_list() == a.spec_list()
    &&& a.spec_index() < a.spec_list().spec_values().len() ==> {
        &&& r == Some(&a.spec_list().spec_values()[a.spec_index() as int])
        &&& b.spec_index() == a.spec_index() + 1
    }
    &&& a.spec_index() >= a.spec_list().spec_values().len() ==> {
        &&& r is None
        &&& b.spec_index() == a.spec_index()
    }
}

/// Iterating a list from its start yields its elements in order, one per call of `next`, and
/// then nothing; after `k` calls the iterator stands at `k`, or at the end once `k` passes it,
/// so that the number of elements not yet returned is the length less those returned.
pub proof fn lemma_list_iteration<'a>(states: Seq<ListItemIter<'a>>, outs: Seq<Option<&'a Value>>)
    requires
        states.len() == outs.len() + 1,
        states[0].spec_index() == 0,
        forall|i: int| 0 <= i < outs.len() ==> #[trigger] list_step(states[i], states[i + 1], outs[i]),
    ensures
        forall|j: int|
            0 <= j < states.len() ==> (#[trigger] states[j]).spec_list() == states[0].spec_list(),
        forall|j: int|
            0 <= j < states.len() ==> (#[trigger] states[j]).spec_index() == if j
                <= states[0].spec_list().spec_values().len() {
                j
            } else {
                states[0].spec_list().spec_values().len() as int
            },
        forall|i: int|
            0 <= i < outs.len() && i < states[0].spec_list().spec_values().len() ==> #[trigger] outs[i]
                == Some(&states[0].spec_list().spec_values()[i]),
        forall|i: int|
            0 <= i < outs.len() && i >= states[0].spec_list().spec_values().len() ==> #[trigger] outs[i]
                is None,
    decreases outs.len(),
{
    if outs.len() > 0 {
        let k = outs.len() - 1;
        lemma_list_iteration(states.take(k + 1), outs.take(k));
        assert forall|i: int| 0 <= i < k implies #[trigger] list_step(states[i], states[i + 1], outs[i]) by {
            assert(list_step(states[i], states[i + 1], outs[i]));
        }
        assert(states.take(k + 1)[0] == states[0]);
        assert(list_step(states[k], states[k + 1], outs[k]));
        assert(states.take(k + 1)[k] == states[k]);
        assert forall|j: int| 0 <= j < states.len() implies (#[trigger] states[j]).spec_list()
            == states[0].spec_list() by {
            if j <= k {
                assert(states.take(k + 1)[j] == states[j]);
            }
        }
        assert forall|j: int| 0 <= j <= k implies (#[trigger] states[j]).spec_index() == if j
            <= states[0].spec_list().spec_values().len() {
            j
        } else {
            states[0].spec_list().spec_values().len() as int
        } by {
            assert(states.take(k + 1)[j] == states[j]);
        }
        assert forall|i: int| 0 <= i < k implies outs[i] == outs.take(k)[i] by {}
    }
}

} // verus!
