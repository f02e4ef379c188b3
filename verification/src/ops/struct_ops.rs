use vstd::prelude::*;

use crate::info::TypeInfo;
use crate::reflection::{FromReflect, Reflect};
use crate::value::{Value, clone_fields, deep_fields, names_of};

verus! {

/// Whether no two fields carry the same name.
pub open spec fn names_distinct(fields: Seq<(String, Value)>) -> bool {
    forall|i: int, j: int|
        0 <= i < fields.len() && 0 <= j < fields.len() && i != j ==> fields[i].0@ != fields[j].0@
}

/// Whether a field carries the name.
pub open spec fn has_field(fields: Seq<(String, Value)>, name: Seq<char>) -> bool {
    exists|i: int| 0 <= i < fields.len() && fields[i].0@ == name
}

/// The position of the field with the name, when there is one; with distinct names it is unique.
pub open spec fn field_position(fields: Seq<(String, Value)>, name: Seq<char>) -> Option<int> {
    if has_field(fields, name) {
        Some(choose|i: int| 0 <= i < fields.len() && fields[i].0@ == name)
    } else {
        None
    }
}

/// Finds the field with the given name.
pub(crate) fn position_of(fields: &Vec<(String, Value)>, name: &str) -> (r: Option<usize>)
    requires
        names_distinct(fields@),
    ensures
        match r {
            Some(i) => field_position(fields@, name@) == Some(i as int),
            None => field_position(fields@, name@) is None,
        },
        r matches Some(i) ==> i < fields@.len() && fields@[i as int].0@ == name@,
{
    let mut i: usize = 0;
    while i < fields.len()
        invariant
            i <= fields@.len(),
            names_distinct(fields@),
            forall|j: int| 0 <= j < i ==> fields@[j].0@ != name@,
        decreases fields@.len() - i,
    {
        if crate::info::str_eq(fields[i].0.as_str(), name) {
            proof {
                let k = choose|k: int| 0 <= k < fields@.len() && fields@[k].0@ == name@;
                assert(k == i);
            }
            return Some(i);
        }
        i = i + 1;
    }
    None
}

/// A dynamic container representing a struct: named fields in insertion order.
pub struct DynamicStruct {
    info: Option<TypeInfo>,
    fields: Vec<(String, Value)>,
}

impl DynamicStruct {
    #[verifier::type_invariant]
    closed spec fn inv(self) -> bool {
        names_distinct(self.fields@)
    }

    pub closed spec fn spec_fields(self) -> Seq<(String, Value)> {
        self.fields@
    }

    pub closed spec fn spec_info(self) -> Option<TypeInfo> {
        self.info
    }

    pub proof fn lemma_decreases(self)
        ensures
            decreases_to!(self => self.spec_fields()),
    {
        broadcast use vstd::std_specs::vec::axiom_vec_decreases_to_view;

        assert(decreases_to!(self.fields => self.fields@));
    }

    /// Names are pairwise different.
    pub fn check_names(&self)
        ensures
            names_distinct(self.spec_fields()),
    {
        proof {
            use_type_invariant(self);
        }
    }

    /// Creates a struct with no fields.
    pub fn new() -> (r: Self)
        ensures
            r.spec_fields() == Seq::<(String, Value)>::empty(),
            r.spec_info() is None,
    {
        DynamicStruct { info: None, fields: Vec::new() }
    }

    /// A struct of the given fields, whose names are distinct, representing no type.
    pub(crate) fn from_distinct_fields(fields: Vec<(String, Value)>) -> (r: Self)
        requires
            names_distinct(fields@),
        ensures
            r.spec_fields() == fields@,
            r.spec_info() is None,
    {
        DynamicStruct { info: None, fields }
    }

    /// Creates a struct with no fields and room for `capacity` of them.
    pub fn with_capacity(capacity: usize) -> (r: Self)
        ensures
            r.spec_fields() == Seq::<(String, Value)>::empty(),
            r.spec_info() is None,
    {
        DynamicStruct { info: None, fields: Vec::with_capacity(capacity) }
    }

    /// Sets the struct type that this struct represents.
    pub fn set_type_info(&mut self, info: Option<TypeInfo>)
        requires
            info matches Some(i) ==> i is Struct,
        ensures
            final(self).spec_info() == info,
            final(self).spec_fields() == old(self).spec_fields(),
    {
        proof {
            use_type_invariant(&*self);
        }
        self.info = info;
    }

    /// The struct type that this struct represents.
    pub fn represented_type_info(&self) -> (r: Option<TypeInfo>)
        ensures
            r == self.spec_info(),
    {
        self.info
    }

    /// Sets the field `name`: an existing field keeps its position and takes the new value,
    /// a new name is appended.
    pub fn extend_boxed(&mut self, name: String, value: Value)
        ensures
            final(self).spec_info() == old(self).spec_info(),
            match field_position(old(self).spec_fields(), name@) {
                Some(i) => final(self).spec_fields() == old(self).spec_fields().update(
                    i,
                    (old(self).spec_fields()[i].0, value),
                ),
                None => final(self).spec_fields() == old(self).spec_fields().push((name, value)),
            },
    {
        proof {
            use_type_invariant(&*self);
        }
        match position_of(&self.fields, name.as_str()) {
            Some(i) => {
                let ghost old_fields = self.fields@;
                let mut taken: Vec<(String, Value)> = Vec::new();
                std::mem::swap(&mut taken, &mut self.fields);
                let old_name = taken[i].0.clone();
                taken.set(i, (old_name, value));
                proof {
                    assert(taken@ == old_fields.update(i as int, (old_fields[i as int].0, value)));
                    assert forall|a: int, b: int|
                        0 <= a < taken@.len() && 0 <= b < taken@.len() && a != b implies taken@[a].0@
                        != taken@[b].0@ by {
                        assert(old_fields[a].0@ != old_fields[b].0@);
                    }
                }
                self.fields = taken;
            },
            None => {
                let ghost old_fields = self.fields@;
                let mut taken: Vec<(String, Value)> = Vec::new();
                std::mem::swap(&mut taken, &mut self.fields);
                taken.push((name, value));
                proof {
                    assert forall|a: int, b: int|
                        0 <= a < taken@.len() && 0 <= b < taken@.len() && a != b implies taken@[a].0@
                        != taken@[b].0@ by {
                        if a < old_fields.len() && b < old_fields.len() {
                            assert(old_fields[a].0@ != old_fields[b].0@);
                        } else if a < old_fields.len() {
                            assert(old_fields[a].0@ != name@);
                        } else {
                            assert(old_fields[b].0@ != name@);
                        }
                    }
                }
                self.fields = taken;
            },
        }
    }

    /// Sets the field `name` to a value converted from a reflected type.
    pub fn extend<T: Reflect>(&mut self, name: String, value: T)
        ensures
            final(self).spec_info() == old(self).spec_info(),
            match field_position(old(self).spec_fields(), name@) {
                Some(i) => final(self).spec_fields() == old(self).spec_fields().update(
                    i,
                    (old(self).spec_fields()[i].0, value.spec_value()),
                ),
                None => final(self).spec_fields() == old(self).spec_fields().push(
                    (name, value.spec_value()),
                ),
            },
    {
        self.extend_boxed(name, value.into_value());
    }

    /// The position of the field `name`.
    pub fn index_of(&self, name: &str) -> (r: Option<usize>)
        ensures
            match r {
                Some(i) => field_position(self.spec_fields(), name@) == Some(i as int),
                None => field_position(self.spec_fields(), name@) is None,
            },
    {
        proof {
            use_type_invariant(self);
        }
        position_of(&self.fields, name)
    }

    pub(crate) fn items(&self) -> (r: &Vec<(String, Value)>)
        ensures
            r@ == self.spec_fields(),
            names_distinct(r@),
    {
        proof {
            use_type_invariant(self);
        }
        &self.fields
    }

    /// The value of the field `name`.
    pub fn field(&self, name: &str) -> (r: Option<&Value>)
        ensures
            r == (match field_position(self.spec_fields(), name@) {
                Some(i) => Some(&self.spec_fields()[i].1),
                None => None,
            }),
    {
        match self.index_of(name) {
            Some(i) => Some(&self.fields[i].1),
            None => None,
        }
    }

    /// The value of the field at `index`.
    pub fn field_at(&self, index: usize) -> (r: Option<&Value>)
        ensures
            r == (if index < self.spec_fields().len() {
                Some(&self.spec_fields()[index as int].1)
            } else {
                None
            }),
    {
        if index < self.fields.len() {
            Some(&self.fields[index].1)
        } else {
            None
        }
    }

    /// The name of the field at `index`.
    pub fn name_at(&self, index: usize) -> (r: Option<&str>)
        ensures
            match r {
                Some(n) => index < self.spec_fields().len() && n@ == self.spec_fields()[index as int].0@,
                None => index >= self.spec_fields().len(),
            },
    {
        if index < self.fields.len() {
            Some(self.fields[index].0.as_str())
        } else {
            None
        }
    }

    /// The number of fields.
    pub fn field_len(&self) -> (r: usize)
        ensures
            r == self.spec_fields().len(),
    {
        self.fields.len()
    }

    /// Replaces the value of the field `name`; without such a field nothing changes
    /// and `false` is returned.
    pub fn set_field(&mut self, name: &str, value: Value) -> (r: bool)
        ensures
            r == (field_position(old(self).spec_fields(), name@) is Some),
            final(self).spec_info() == old(self).spec_info(),
            match field_position(old(self).spec_fields(), name@) {
                Some(i) => final(self).spec_fields() == old(self).spec_fields().update(
                    i,
                    (old(self).spec_fields()[i].0, value),
                ),
                None => final(self).spec_fields() == old(self).spec_fields(),
            },
    {
        match self.index_of(name) {
            Some(i) => {
                let n = self.fields[i].0.clone();
                self.extend_boxed(n, value);
                true
            },
            None => false,
        }
    }

    /// The value of the field `name` converted to `T`.
    pub fn field_as<T: FromReflect>(&self, name: &str) -> (r: Option<T>)
        ensures
            match field_position(self.spec_fields(), name@) {
                Some(i) => T::converts(self.spec_fields()[i].1, r),
                None => r is None,
            },
    {
        match self.field(name) {
            Some(v) => T::from_reflect(v),
            None => None,
        }
    }

    /// The value of the field at `index` converted to `T`.
    pub fn field_at_as<T: FromReflect>(&self, index: usize) -> (r: Option<T>)
        ensures
            index < self.spec_fields().len() ==> T::converts(self.spec_fields()[index as int].1, r),
            index >= self.spec_fields().len() ==> r is None,
    {
        match self.field_at(index) {
            Some(v) => T::from_reflect(v),
            None => None,
        }
    }

    /// An iterator over the field values, in order.
    pub fn iter_fields(&self) -> (r: StructFieldIter<'_>)
        ensures
            r.spec_container() == *self,
            r.spec_index() == 0,
    {
        StructFieldIter::new(self)
    }

    /// A copy made of dynamic containers: same represented type, same names and contents.
    pub fn to_dynamic_struct(&self) -> (r: DynamicStruct)
        ensures
            names_of(r.spec_fields()) == names_of(self.spec_fields()),
            deep_fields(r.spec_fields()) == deep_fields(self.spec_fields()),
            crate::value::marks_fields(r.spec_fields()) == crate::value::marks_fields(self.spec_fields()),
            r.spec_info() == self.spec_info(),
        decreases self,
    {
        broadcast use crate::value::group_deep;

        proof {
            self.lemma_decreases();
            use_type_invariant(self);
        }
        let fields = clone_fields(&self.fields);
        proof {
            assert(fields@.len() == names_of(fields@).len());
            assert(self.fields@.len() == names_of(self.fields@).len());
            assert forall|a: int, b: int|
                0 <= a < fields@.len() && 0 <= b < fields@.len() && a != b implies fields@[a].0@
                != fields@[b].0@ by {
                assert(names_of(fields@)[a] == names_of(self.fields@)[a]);
                assert(names_of(fields@)[b] == names_of(self.fields@)[b]);
                assert(names_of(fields@)[a] == fields@[a].0@);
                assert(names_of(fields@)[b] == fields@[b].0@);
                assert(names_of(self.fields@)[a] == self.fields@[a].0@);
                assert(names_of(self.fields@)[b] == self.fields@[b].0@);
                assert(self.fields@[a].0@ != self.fields@[b].0@);
            }
        }
        DynamicStruct { info: self.info, fields }
    }

    /// Takes the fields out of the struct.
    pub fn drain(self) -> (r: Vec<(String, Value)>)
        ensures
            r@ == self.spec_fields(),
    {
        self.fields
    }
}

/// An iterator over the field values of a struct.
pub struct StructFieldIter<'a> {
    container: &'a DynamicStruct,
    index: usize,
}

impl<'a> StructFieldIter<'a> {
    pub closed spec fn spec_container(self) -> DynamicStruct {
        *self.container
    }

    pub closed spec fn spec_index(self) -> usize {
        self.index
    }

    /// Starts at the first field.
    pub fn new(container: &'a DynamicStruct) -> (r: Self)
        ensures
            r.spec_container() == *container,
            r.spec_index() == 0,
    {
        StructFieldIter { container, index: 0 }
    }

    /// The next field value, if any.
    pub fn next(&mut self) -> (r: Option<&'a Value>)
        ensures
            final(self).spec_container() == old(self).spec_container(),
            old(self).spec_index() < old(self).spec_container().spec_fields().len() ==> {
                &&& r == Some(
                    &old(self).spec_container().spec_fields()[old(self).spec_index() as int].1,
                )
                &&& final(self).spec_index() == old(self).spec_index() + 1
            },
            old(self).spec_index() >= old(self).spec_container().spec_fields().len() ==> {
                &&& r is None
                &&& final(self).spec_index() == old(self).spec_index()
            },
    {
        if self.index < self.container.field_len() {
            let v = self.container.field_at(self.index);
            self.index = self.index + 1;
            v
        } else {
            None
        }
    }

    /// The number of fields not yet returned.
    pub fn remaining(&self) -> (r: usize)
        ensures
            r == if self.spec_index() <= self.spec_container().spec_fields().len() {
                self.spec_container().spec_fields().len() - self.spec_index()
            } else {
                0
            },
    {
        let n = self.container.field_len();
        if self.index <= n {
            n - self.index
        } else {
            0
        }
    }
}

impl crate::info::TypePath for DynamicStruct {
    open spec fn spec_type_path() -> Seq<char> {
        "vc_reflect::ops::DynamicStruct"@
    }

    open spec fn spec_type_short_name() -> Seq<char> {
        "DynamicStruct"@
    }

    open spec fn spec_type_ident() -> Seq<char> {
        "DynamicStruct"@
    }

    open spec fn spec_type_module() -> Option<Seq<char>> {
        Some("vc_reflect::ops"@)
    }

    fn type_path() -> &'static str {
        "vc_reflect::ops::DynamicStruct"
    }

    fn type_short_name() -> &'static str {
        "DynamicStruct"
    }

    fn type_ident() -> &'static str {
        "DynamicStruct"
    }

    fn type_module() -> Option<&'static str> {
        Some("vc_reflect::ops")
    }
}

impl crate::info::Typed for DynamicStruct {
    open spec fn spec_type_info() -> TypeInfo {
        crate::info::opaque_info(
            crate::info::DYNAMIC_STRUCT_TYPE_ID,
            "vc_reflect::ops::DynamicStruct",
            "DynamicStruct",
            Some("vc_reflect::ops"),
        )
    }

    fn type_info() -> (r: TypeInfo) {
        crate::info::make_opaque(
            crate::info::DYNAMIC_STRUCT_TYPE_ID,
            "vc_reflect::ops::DynamicStruct",
            "DynamicStruct",
            Some("vc_reflect::ops"),
        )
    }
}

/// Operations on struct-like values: named fields in order.
pub trait Struct {
    spec fn struct_fields(&self) -> Seq<(String, Value)>;

    spec fn struct_info(&self) -> Option<TypeInfo>;

    /// The value of the field `name`.
    fn field(&self, name: &str) -> (r: Option<&Value>)
        ensures
            r == (match field_position(self.struct_fields(), name@) {
                Some(i) => Some(&self.struct_fields()[i].1),
                None => None,
            }),
    ;

    /// The value of the field at `index`.
    fn field_at(&self, index: usize) -> (r: Option<&Value>)
        ensures
            r == (if index < self.struct_fields().len() {
                Some(&self.struct_fields()[index as int].1)
            } else {
                None
            }),
    ;

    /// The name of the field at `index`.
    fn name_at(&self, index: usize) -> (r: Option<&str>)
        ensures
            match r {
                Some(n) => index < self.struct_fields().len() && n@ == self.struct_fields()[index as int].0@,
                None => index >= self.struct_fields().len(),
            },
    ;

    /// The number of fields.
    fn field_len(&self) -> (r: usize)
        ensures
            r == self.struct_fields().len(),
    ;

    /// A copy made of dynamic containers: same represented type, same names and contents.
    fn to_dynamic_struct(&self) -> (r: DynamicStruct)
        ensures
            names_of(r.spec_fields()) == names_of(self.struct_fields()),
            deep_fields(r.spec_fields()) == deep_fields(self.struct_fields()),
            crate::value::marks_fields(r.spec_fields()) == crate::value::marks_fields(self.struct_fields()),
            r.spec_info() == self.struct_info(),
    ;
}

impl Struct for DynamicStruct {
    open spec fn struct_fields(&self) -> Seq<(String, Value)> {
        self.spec_fields()
    }

    open spec fn struct_info(&self) -> Option<TypeInfo> {
        self.spec_info()
    }

    fn field(&self, name: &str) -> (r: Option<&Value>) {
        DynamicStruct::field(self, name)
    }

    fn field_at(&self, index: usize) -> (r: Option<&Value>) {
        DynamicStruct::field_at(self, index)
    }

    fn name_at(&self, index: usize) -> (r: Option<&str>) {
        DynamicStruct::name_at(self, index)
    }

    fn field_len(&self) -> (r: usize) {
        DynamicStruct::field_len(self)
    }

    fn to_dynamic_struct(&self) -> (r: DynamicStruct) {
        DynamicStruct::to_dynamic_struct(self)
    }
}

} // verus!
