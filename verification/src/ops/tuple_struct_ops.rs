use vstd::prelude::*;

use crate::info::TypeInfo;
use crate::reflection::{FromReflect, Reflect, ReflectMut};
use crate::value::{Value, clone_values, deep_seq, marks_seq};

verus! {

/// A dynamic container representing a tuple struct.
pub struct DynamicTupleStruct {
    info: Option<TypeInfo>,
    fields: Vec<Value>,
}

impl DynamicTupleStruct {
    pub closed spec fn spec_fields(self) -> Seq<Value> {
        self.fields@
    }

    pub closed spec fn spec_info(self) -> Option<TypeInfo> {
        self.info
    }

    pub proof fn lemma_decreases(self)
        ensures
            decreases_to!(self => self.spec_fields()),
    {
        broadcast use vstd::std_specs::vec::axiom_vec_decreases_to_view;

        assert(decreases_to!(self.fields => self.fields@));
    }

    /// Creates an empty tuple struct.
    pub fn new() -> (r: Self)
        ensures
            r.spec_fields() == Seq::<Value>::empty(),
            r.spec_info() is None,
    {
        DynamicTupleStruct { info: None, fields: Vec::new() }
    }

    /// Creates an empty tuple struct with room for `capacity` elements.
    pub fn with_capacity(capacity: usize) -> (r: Self)
        ensures
            r.spec_fields() == Seq::<Value>::empty(),
            r.spec_info() is None,
    {
        DynamicTupleStruct { info: None, fields: Vec::with_capacity(capacity) }
    }

    /// Creates a tuple struct of the given elements.
    pub fn from_fields(fields: Vec<Value>) -> (r: Self)
        ensures
            r.spec_fields() == fields@,
            r.spec_info() is None,
    {
        DynamicTupleStruct { info: None, fields }
    }

    /// Sets the tuple struct type that this tuple struct represents.
    pub fn set_type_info(&mut self, info: Option<TypeInfo>)
        requires
            info matches Some(i) ==> i is TupleStruct,
        ensures
            final(self).spec_info() == info,
            final(self).spec_fields() == old(self).spec_fields(),
    {
        self.info = info;
    }

    /// The tuple struct type that this tuple struct represents.
    pub fn represented_type_info(&self) -> (r: Option<TypeInfo>)
        ensures
            r == self.spec_info(),
    {
        self.info
    }

    /// Appends an element.
    pub fn extend_boxed(&mut self, value: Value)
        ensures
            final(self).spec_fields() == old(self).spec_fields().push(value),
            final(self).spec_info() == old(self).spec_info(),
    {
        self.fields.push(value);
    }

    /// Appends an element converted from a reflected type.
    pub fn extend<T: Reflect>(&mut self, value: T)
        ensures
            final(self).spec_fields() == old(self).spec_fields().push(value.spec_value()),
            final(self).spec_info() == old(self).spec_info(),
    {
        self.extend_boxed(value.into_value());
    }

    pub(crate) fn items(&self) -> (r: &Vec<Value>)
        ensures
            r@ == self.spec_fields(),
    {
        &self.fields
    }

    /// An iterator over the elements, in order.
    pub fn iter_fields(&self) -> (r: TupleStructFieldIter<'_>)
        ensures
            r.spec_container() == *self,
            r.spec_index() == 0,
    {
        TupleStructFieldIter::new(self)
    }
}

/// Operations on tuple structs.
pub trait TupleStruct {
    spec fn tuple_struct_fields(&self) -> Seq<Value>;

    spec fn tuple_struct_info(&self) -> Option<TypeInfo>;

    /// The element at `index`, or `None` when out of bounds.
    fn field(&self, index: usize) -> (r: Option<&Value>)
        ensures
            r == (if index < self.tuple_struct_fields().len() {
                Some(&self.tuple_struct_fields()[index as int])
            } else {
                None
            }),
    ;

    /// Replaces the element at `index`; out of bounds the tuple struct is unchanged and `false` is returned.
    fn set_field(&mut self, index: usize, value: Value) -> (r: bool)
        ensures
            r == (index < old(self).tuple_struct_fields().len()),
            r ==> final(self).tuple_struct_fields() == old(self).tuple_struct_fields().update(index as int, value),
            !r ==> final(self).tuple_struct_fields() == old(self).tuple_struct_fields(),
            final(self).tuple_struct_info() == old(self).tuple_struct_info(),
    ;

    /// The number of elements.
    fn field_len(&self) -> (r: usize)
        ensures
            r == self.tuple_struct_fields().len(),
    ;

    /// Takes the elements out of the tuple struct.
    fn drain(self) -> (r: Vec<Value>)
        where
            Self: Sized,
        ensures
            r@ == self.tuple_struct_fields(),
    ;

    /// A copy made of dynamic containers: same represented type, same contents.
    fn to_dynamic_tuple_struct(&self) -> (r: DynamicTupleStruct)
        ensures
            deep_seq(r.spec_fields()) == deep_seq(self.tuple_struct_fields()),
            marks_seq(r.spec_fields()) == marks_seq(self.tuple_struct_fields()),
            r.spec_info() == self.tuple_struct_info(),
    ;

    /// The element at `index` for changing in place, or `None` when out of bounds.
    fn field_mut(&mut self, index: usize) -> (r: Option<&mut Value>)
        ensures
            index < old(self).tuple_struct_fields().len() ==> {
                &&& r is Some
                &&& *r->Some_0 == old(self).tuple_struct_fields()[index as int]
                &&& final(self).tuple_struct_fields() == old(self).tuple_struct_fields().update(
                    index as int,
                    *final(r->Some_0),
                )
            },
            index >= old(self).tuple_struct_fields().len() ==> r is None && final(self).tuple_struct_fields()
                == old(self).tuple_struct_fields(),
            final(self).tuple_struct_info() == old(self).tuple_struct_info(),
    ;

    /// The element at `index` as a `T`, for changing in place; `None` when out of bounds or when
    /// the element holds no `T`.
    fn field_mut_as<T: ReflectMut>(&mut self, index: usize) -> (r: Option<&mut T>)
        ensures
            index < old(self).tuple_struct_fields().len() && T::holds(old(self).tuple_struct_fields()[index as int])
                ==> {
                &&& r is Some
                &&& (*r->Some_0).spec_value() == old(self).tuple_struct_fields()[index as int]
                &&& final(self).tuple_struct_fields() == old(self).tuple_struct_fields().update(
                    index as int,
                    (*final(r->Some_0)).spec_value(),
                )
            },
            !(index < old(self).tuple_struct_fields().len() && T::holds(old(self).tuple_struct_fields()[index as int]))
                ==> r is None && final(self).tuple_struct_fields() == old(self).tuple_struct_fields(),
            final(self).tuple_struct_info() == old(self).tuple_struct_info(),
    {
        match self.field_mut(index) {
            Some(v) => {
                let r = T::as_reflect_mut(v);
                proof {
                    if r is None {
                        assert(old(self).tuple_struct_fields().update(
                            index as int,
                            old(self).tuple_struct_fields()[index as int],
                        ) =~= old(self).tuple_struct_fields());
                    }
                }
                r
            },
            None => None,
        }
    }

    /// The element at `index` converted to `T`.
    fn field_as<T: FromReflect>(&self, index: usize) -> (r: Option<T>)
        ensures
            index < self.tuple_struct_fields().len() ==> T::converts(
                self.tuple_struct_fields()[index as int],
                r,
            ),
            index >= self.tuple_struct_fields().len() ==> r is None,
    {
        match self.field(index) {
            Some(v) => T::from_reflect(v),
            None => None,
        }
    }
}

impl TupleStruct for DynamicTupleStruct {
    open spec fn tuple_struct_fields(&self) -> Seq<Value> {
        self.spec_fields()
    }

    open spec fn tuple_struct_info(&self) -> Option<TypeInfo> {
        self.spec_info()
    }

    fn field_mut(&mut self, index: usize) -> (r: Option<&mut Value>) {
        if index < self.fields.len() {
            Some(&mut self.fields[index])
        } else {
            None
        }
    }

    fn field(&self, index: usize) -> (r: Option<&Value>) {
        if index < self.fields.len() {
            Some(&self.fields[index])
        } else {
            None
        }
    }

    fn set_field(&mut self, index: usize, value: Value) -> (r: bool) {
        if index < self.fields.len() {
            self.fields.set(index, value);
            true
        } else {
            false
        }
    }

    fn field_len(&self) -> (r: usize) {
        self.fields.len()
    }

    fn drain(self) -> (r: Vec<Value>) {
        self.fields
    }

    fn to_dynamic_tuple_struct(&self) -> (r: DynamicTupleStruct)
        decreases self,
    {
        proof {
            self.lemma_decreases();
        }
        DynamicTupleStruct { info: self.info, fields: clone_values(&self.fields) }
    }
}

/// An iterator over the elements of a tuple struct.
pub struct TupleStructFieldIter<'a> {
    container: &'a DynamicTupleStruct,
    index: usize,
}

impl<'a> TupleStructFieldIter<'a> {
    pub closed spec fn spec_container(self) -> DynamicTupleStruct {
        *self.container
    }

    pub closed spec fn spec_index(self) -> usize {
        self.index
    }

    /// Starts at the first element.
    pub fn new(container: &'a DynamicTupleStruct) -> (r: Self)
        ensures
            r.spec_container() == *container,
            r.spec_index() == 0,
    {
        TupleStructFieldIter { container, index: 0 }
    }

    /// The next element, if any.
    pub fn next(&mut self) -> (r: Option<&'a Value>)
        ensures
            final(self).spec_container() == old(self).spec_container(),
            old(self).spec_index() < old(self).spec_container().spec_fields().len() ==> {
                &&& r == Some(&old(self).spec_container().spec_fields()[old(self).spec_index() as int])
                &&& final(self).spec_index() == old(self).spec_index() + 1
            },
            old(self).spec_index() >= old(self).spec_container().spec_fields().len() ==> {
                &&& r is None
                &&& final(self).spec_index() == old(self).spec_index()
            },
    {
        if self.index < self.container.fields.len() {
            let v = &self.container.fields[self.index];
            self.index = self.index + 1;
            Some(v)
        } else {
            None
        }
    }

    /// The number of elements not yet returned.
    pub fn remaining(&self) -> (r: usize)
        ensures
            r == if self.spec_index() <= self.spec_container().spec_fields().len() {
                self.spec_container().spec_fields().len() - self.spec_index()
            } else {
                0
            },
    {
        if self.index <= self.container.fields.len() {
            self.container.fields.len() - self.index
        } else {
            0
        }
    }
}

impl crate::info::TypePath for DynamicTupleStruct {
    open spec fn spec_type_path() -> Seq<char> {
        "vc_reflect::ops::DynamicTupleStruct"@
    }

    open spec fn spec_type_short_name() -> Seq<char> {
        "DynamicTupleStruct"@
    }

    open spec fn spec_type_ident() -> Seq<char> {
        "DynamicTupleStruct"@
    }

    open spec fn spec_type_module() -> Option<Seq<char>> {
        Some("vc_reflect::ops"@)
    }

    fn type_path() -> &'static str {
        "vc_reflect::ops::DynamicTupleStruct"
    }

    fn type_short_name() -> &'static str {
        "DynamicTupleStruct"
    }

    fn type_ident() -> &'static str {
        "DynamicTupleStruct"
    }

    fn type_module() -> Option<&'static str> {
        Some("vc_reflect::ops")
    }
}

impl crate::info::Typed for DynamicTupleStruct {
    open spec fn spec_type_info() -> TypeInfo {
        crate::info::opaque_info(
            crate::info::DYNAMIC_TUPLE_STRUCT_TYPE_ID,
            "vc_reflect::ops::DynamicTupleStruct",
            "DynamicTupleStruct",
            Some("vc_reflect::ops"),
        )
    }

    fn type_info() -> (r: TypeInfo) {
        crate::info::make_opaque(
            crate::info::DYNAMIC_TUPLE_STRUCT_TYPE_ID,
            "vc_reflect::ops::DynamicTupleStruct",
            "DynamicTupleStruct",
            Some("vc_reflect::ops"),
        )
    }
}

} // verus!
