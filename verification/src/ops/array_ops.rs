use vstd::prelude::*;

use crate::info::TypeInfo;
use crate::reflection::{FromReflect, Reflect, ReflectMut};
use crate::value::{Value, clone_values, deep_seq, marks_seq};

verus! {

/// A dynamic container representing an array.
///
/// Its length can grow with `extend`; whether the number and the types of its
/// elements fit the represented array type is not checked.
pub struct DynamicArray {
    info: Option<TypeInfo>,
    values: Vec<Value>,
}

impl DynamicArray {
    pub closed spec fn spec_values(self) -> Seq<Value> {
        self.values@
    }

    pub closed spec fn spec_info(self) -> Option<TypeInfo> {
        self.info
    }

    pub proof fn lemma_decreases(self)
        ensures
            decreases_to!(self => self.spec_values()),
    {
        broadcast use vstd::std_specs::vec::axiom_vec_decreases_to_view;

        assert(decreases_to!(self.values => self.values@));
    }

    /// Creates an empty array.
    pub fn new() -> (r: Self)
        ensures
            r.spec_values() == Seq::<Value>::empty(),
            r.spec_info() is None,
    {
        DynamicArray { info: None, values: Vec::new() }
    }

    /// Creates an empty array with room for `capacity` elements.
    pub fn with_capacity(capacity: usize) -> (r: Self)
        ensures
            r.spec_values() == Seq::<Value>::empty(),
            r.spec_info() is None,
    {
        DynamicArray { info: None, values: Vec::with_capacity(capacity) }
    }

    /// Creates an array of the given elements.
    pub fn from_values(values: Vec<Value>) -> (r: Self)
        ensures
            r.spec_values() == values@,
            r.spec_info() is None,
    {
        DynamicArray { info: None, values }
    }

    /// Sets the array type that this array represents.
    pub fn set_type_info(&mut self, info: Option<TypeInfo>)
        requires
            info matches Some(i) ==> i is Array,
        ensures
            final(self).spec_info() == info,
            final(self).spec_values() == old(self).spec_values(),
    {
        self.info = info;
    }

    /// The array type that this array represents.
    pub fn represented_type_info(&self) -> (r: Option<TypeInfo>)
        ensures
            r == self.spec_info(),
    {
        self.info
    }

    /// Appends an element.
    pub fn extend_boxed(&mut self, value: Value)
        ensures
            final(self).spec_values() == old(self).spec_values().push(value),
            final(self).spec_info() == old(self).spec_info(),
    {
        self.values.push(value);
    }

    /// Appends an element converted from a reflected type.
    pub fn extend<T: Reflect>(&mut self, value: T)
        ensures
            final(self).spec_values() == old(self).spec_values().push(value.spec_value()),
            final(self).spec_info() == old(self).spec_info(),
    {
        self.extend_boxed(value.into_value());
    }

    pub(crate) fn items(&self) -> (r: &Vec<Value>)
        ensures
            r@ == self.spec_values(),
    {
        &self.values
    }

    /// An iterator over the elements, in order.
    pub fn iter(&self) -> (r: ArrayItemIter<'_>)
        ensures
            r.spec_array() == *self,
            r.spec_index() == 0,
    {
        ArrayItemIter::new(self)
    }
}

/// Operations on array-like values.
pub trait Array {
    spec fn array_values(&self) -> Seq<Value>;

    spec fn array_info(&self) -> Option<TypeInfo>;

    /// The element at `index`, or `None` when out of bounds.
    fn get(&self, index: usize) -> (r: Option<&Value>)
        ensures
            r == (if index < self.array_values().len() {
                Some(&self.array_values()[index as int])
            } else {
                None
            }),
    ;

    /// Replaces the element at `index`; out of bounds the array is unchanged and `false` is returned.
    fn set(&mut self, index: usize, value: Value) -> (r: bool)
        ensures
            r == (index < old(self).array_values().len()),
            r ==> final(self).array_values() == old(self).array_values().update(index as int, value),
            !r ==> final(self).array_values() == old(self).array_values(),
            final(self).array_info() == old(self).array_info(),
    ;

    /// The number of elements.
    fn len(&self) -> (r: usize)
        ensures
            r == self.array_values().len(),
    ;

    /// Takes the elements out of the array.
    fn drain(self) -> (r: Vec<Value>)
        where
            Self: Sized,
        ensures
            r@ == self.array_values(),
    ;

    /// A copy made of dynamic containers: same represented type, same contents.
    fn to_dynamic_array(&self) -> (r: DynamicArray)
        ensures
            deep_seq(r.spec_values()) == deep_seq(self.array_values()),
            marks_seq(r.spec_values()) == marks_seq(self.array_values()),
            r.spec_info() == self.array_info(),
    ;

    /// The element at `index` for changing in place, or `None` when out of bounds.
    fn get_mut(&mut self, index: usize) -> (r: Option<&mut Value>)
        ensures
            index < old(self).array_values().len() ==> {
                &&& r is Some
                &&& *r->Some_0 == old(self).array_values()[index as int]
                &&& final(self).array_values() == old(self).array_values().update(
                    index as int,
                    *final(r->Some_0),
                )
            },
            index >= old(self).array_values().len() ==> r is None && final(self).array_values()
                == old(self).array_values(),
            final(self).array_info() == old(self).array_info(),
    ;

    /// The element at `index` as a `T`, for changing in place; `None` when out of bounds or when
    /// the element holds no `T`.
    fn get_mut_as<T: ReflectMut>(&mut self, index: usize) -> (r: Option<&mut T>)
        ensures
            index < old(self).array_values().len() && T::holds(old(self).array_values()[index as int])
                ==> {
                &&& r is Some
                &&& (*r->Some_0).spec_value() == old(self).array_values()[index as int]
                &&& final(self).array_values() == old(self).array_values().update(
                    index as int,
                    (*final(r->Some_0)).spec_value(),
                )
            },
            !(index < old(self).array_values().len() && T::holds(old(self).array_values()[index as int]))
                ==> r is None && final(self).array_values() == old(self).array_values(),
            final(self).array_info() == old(self).array_info(),
    {
        match self.get_mut(index) {
            Some(v) => {
                let r = T::as_reflect_mut(v);
                proof {
                    if r is None {
                        assert(old(self).array_values().update(
                            index as int,
                            old(self).array_values()[index as int],
                        ) =~= old(self).array_values());
                    }
                }
                r
            },
            None => None,
        }
    }

    /// The element at `index` converted to `T`.
    fn get_as<T: FromReflect>(&self, index: usize) -> (r: Option<T>)
        ensures
            index < self.array_values().len() ==> T::converts(
                self.array_values()[index as int],
                r,
            ),
            index >= self.array_values().len() ==> r is None,
    {
        match self.get(index) {
            Some(v) => T::from_reflect(v),
            None => None,
        }
    }
}

impl Array for DynamicArray {
    open spec fn array_values(&self) -> Seq<Value> {
        self.spec_values()
    }

    open spec fn array_info(&self) -> Option<TypeInfo> {
        self.spec_info()
    }

    fn get(&self, index: usize) -> (r: Option<&Value>) {
        if index < self.values.len() {
            Some(&self.values[index])
        } else {
            None
        }
    }

    fn get_mut(&mut self, index: usize) -> (r: Option<&mut Value>) {
        if index < self.values.len() {
            Some(&mut self.values[index])
        } else {
            None
        }
    }

    fn set(&mut self, index: usize, value: Value) -> (r: bool) {
        if index < self.values.len() {
            self.values.set(index, value);
            true
        } else {
            false
        }
    }

    fn len(&self) -> (r: usize) {
        self.values.len()
    }

    fn drain(self) -> (r: Vec<Value>) {
        self.values
    }

    fn to_dynamic_array(&self) -> (r: DynamicArray)
        decreases self,
    {
        proof {
            self.lemma_decreases();
        }
        DynamicArray { info: self.info, values: clone_values(&self.values) }
    }
}

/// An iterator over the elements of an array.
pub struct ArrayItemIter<'a> {
    array: &'a DynamicArray,
    index: usize,
}

impl<'a> ArrayItemIter<'a> {
    pub closed spec fn spec_array(self) -> DynamicArray {
        *self.array
    }

    pub closed spec fn spec_index(self) -> usize {
        self.index
    }

    /// Starts at the first element.
    pub fn new(array: &'a DynamicArray) -> (r: Self)
        ensures
            r.spec_array() == *array,
            r.spec_index() == 0,
    {
        ArrayItemIter { array, index: 0 }
    }

    /// The next element, if any.
    pub fn next(&mut self) -> (r: Option<&'a Value>)
        ensures
            final(self).spec_array() == old(self).spec_array(),
            old(self).spec_index() < old(self).spec_array().spec_values().len() ==> {
                &&& r == Some(&old(self).spec_array().spec_values()[old(self).spec_index() as int])
                &&& final(self).spec_index() == old(self).spec_index() + 1
            },
            old(self).spec_index() >= old(self).spec_array().spec_values().len() ==> {
                &&& r is None
                &&& final(self).spec_index() == old(self).spec_index()
            },
    {
        if self.index < self.array.values.len() {
            let v = &self.array.values[self.index];
            self.index = self.index + 1;
            Some(v)
        } else {
            None
        }
    }

    /// The number of elements not yet returned.
    pub fn remaining(&self) -> (r: usize)
        ensures
            r == if self.spec_index() <= self.spec_array().spec_values().len() {
                self.spec_array().spec_values().len() - self.spec_index()
            } else {
                0
            },
    {
        if self.index <= self.array.values.len() {
            self.array.values.len() - self.index
        } else {
            0
        }
    }
}

impl crate::info::TypePath for DynamicArray {
    open spec fn spec_type_path() -> Seq<char> {
        "vc_reflect::ops::DynamicArray"@
    }

    open spec fn spec_type_short_name() -> Seq<char> {
        "DynamicArray"@
    }

    open spec fn spec_type_ident() -> Seq<char> {
        "DynamicArray"@
    }

    open spec fn spec_type_module() -> Option<Seq<char>> {
        Some("vc_reflect::ops"@)
    }

    fn type_path() -> &'static str {
        "vc_reflect::ops::DynamicArray"
    }

    fn type_short_name() -> &'static str {
        "DynamicArray"
    }

    fn type_ident() -> &'static str {
        "DynamicArray"
    }

    fn type_module() -> Option<&'static str> {
        Some("vc_reflect::ops")
    }
}

impl crate::info::Typed for DynamicArray {
    open spec fn spec_type_info() -> TypeInfo {
        crate::info::opaque_info(
            crate::info::DYNAMIC_ARRAY_TYPE_ID,
            "vc_reflect::ops::DynamicArray",
            "DynamicArray",
            Some("vc_reflect::ops"),
        )
    }

    fn type_info() -> (r: TypeInfo) {
        crate::info::make_opaque(
            crate::info::DYNAMIC_ARRAY_TYPE_ID,
            "vc_reflect::ops::DynamicArray",
            "DynamicArray",
            Some("vc_reflect::ops"),
        )
    }
}

} // verus!
