use vstd::prelude::*;

use crate::info::TypeInfo;
use crate::ops::{ApplyError, DynamicStruct, DynamicTuple, DynamicVariant, VariantFieldIter};
use crate::ops::struct_ops::field_position;
use crate::reflection::FromReflect;
use crate::value::{Value, ValueKind, VariantKind, deep_variant};

verus! {

/// A dynamic container representing one variant of an enum.
pub struct DynamicEnum {
    info: Option<TypeInfo>,
    variant_index: usize,
    variant_name: String,
    variant: DynamicVariant,
}

impl DynamicEnum {
    pub closed spec fn spec_info(self) -> Option<TypeInfo> {
        self.info
    }

    pub closed spec fn spec_variant_index(self) -> usize {
        self.variant_index
    }

    pub closed spec fn spec_variant_name(self) -> Seq<char> {
        self.variant_name@
    }

    pub closed spec fn spec_variant(self) -> DynamicVariant {
        self.variant
    }

    pub proof fn lemma_decreases(self)
        ensures
            decreases_to!(self => self.spec_variant()),
    {
    }

    /// Creates the variant `variant_name` at index 0.
    pub fn new(variant_name: String, variant: DynamicVariant) -> (r: Self)
        ensures
            r.spec_info() is None,
            r.spec_variant_index() == 0,
            r.spec_variant_name() == variant_name@,
            r.spec_variant() == variant,
    {
        DynamicEnum { info: None, variant_index: 0, variant_name, variant }
    }

    /// Creates the variant `variant_name` at `variant_index`.
    pub fn new_with_index(variant_index: usize, variant_name: String, variant: DynamicVariant) -> (r:
        Self)
        ensures
            r.spec_info() is None,
            r.spec_variant_index() == variant_index,
            r.spec_variant_name() == variant_name@,
            r.spec_variant() == variant,
    {
        DynamicEnum { info: None, variant_index, variant_name, variant }
    }

    /// Sets the enum type that this value represents.
    pub fn set_type_info(&mut self, info: Option<TypeInfo>)
        requires
            info matches Some(i) ==> i is Enum,
        ensures
            final(self).spec_info() == info,
            final(self).spec_variant_index() == old(self).spec_variant_index(),
            final(self).spec_variant_name() == old(self).spec_variant_name(),
            final(self).spec_variant() == old(self).spec_variant(),
    {
        self.info = info;
    }

    /// The enum type that this value represents.
    pub fn represented_type_info(&self) -> (r: Option<TypeInfo>)
        ensures
            r == self.spec_info(),
    {
        self.info
    }

    /// Replaces the variant; the variant index is left as it is.
    pub fn set_variant(&mut self, name: String, variant: DynamicVariant)
        ensures
            final(self).spec_info() == old(self).spec_info(),
            final(self).spec_variant_index() == old(self).spec_variant_index(),
            final(self).spec_variant_name() == name@,
            final(self).spec_variant() == variant,
    {
        self.variant_name = name;
        self.variant = variant;
    }

    /// Replaces the variant and its index.
    pub fn set_variant_with_index(
        &mut self,
        variant_index: usize,
        variant_name: String,
        variant: DynamicVariant,
    )
        ensures
            final(self).spec_info() == old(self).spec_info(),
            final(self).spec_variant_index() == variant_index,
            final(self).spec_variant_name() == variant_name@,
            final(self).spec_variant() == variant,
    {
        self.variant_index = variant_index;
        self.variant_name = variant_name;
        self.variant = variant;
    }

    /// The data of the variant.
    pub fn variant(&self) -> (r: &DynamicVariant)
        ensures
            *r == self.spec_variant(),
    {
        &self.variant
    }

    /// The data of the variant, for changing in place.
    pub fn variant_mut(&mut self) -> (r: &mut DynamicVariant)
        ensures
            *r == old(self).spec_variant(),
            final(self).spec_variant() == *final(r),
            final(self).spec_info() == old(self).spec_info(),
            final(self).spec_variant_index() == old(self).spec_variant_index(),
            final(self).spec_variant_name() == old(self).spec_variant_name(),
    {
        &mut self.variant
    }

    /// A dynamic copy of an enum value, taken by value.
    pub fn from<E: Enum>(value: E) -> (r: DynamicEnum)
        ensures
            r.spec_info() == value.enum_info(),
            r.spec_variant_index() == value.enum_variant_index(),
            r.spec_variant_name() == value.enum_variant_name(),
            deep_variant(r.spec_variant()) == deep_variant(value.enum_variant()),
            crate::value::marks_variant(r.spec_variant()) == crate::value::marks_variant(
                value.enum_variant(),
            ),
    {
        Self::from_ref(&value)
    }

    pub(crate) fn variant_name_string(&self) -> (r: &String)
        ensures
            r@ == self.spec_variant_name(),
    {
        &self.variant_name
    }

    /// The position of the field `name` in a struct variant.
    pub fn index_of(&self, name: &str) -> (r: Option<usize>)
        ensures
            match self.spec_variant() {
                DynamicVariant::Struct(s) => match r {
                    Some(i) => field_position(s.spec_fields(), name@) == Some(i as int),
                    None => field_position(s.spec_fields(), name@) is None,
                },
                _ => r is None,
            },
    {
        match &self.variant {
            DynamicVariant::Struct(data) => data.index_of(name),
            _ => None,
        }
    }

    /// The value of the field `name` of a struct variant.
    pub fn field(&self, name: &str) -> (r: Option<&Value>)
        ensures
            r == (match self.spec_variant() {
                DynamicVariant::Struct(s) => match field_position(s.spec_fields(), name@) {
                    Some(i) => Some(&s.spec_fields()[i].1),
                    None => None,
                },
                _ => None,
            }),
    {
        match &self.variant {
            DynamicVariant::Struct(data) => data.field(name),
            _ => None,
        }
    }

    /// The value of the field at `index`.
    pub fn field_at(&self, index: usize) -> (r: Option<&Value>)
        ensures
            r == (match self.spec_variant() {
                DynamicVariant::Unit => None,
                DynamicVariant::Tuple(t) => if index < t.spec_fields().len() {
                    Some(&t.spec_fields()[index as int])
                } else {
                    None
                },
                DynamicVariant::Struct(s) => if index < s.spec_fields().len() {
                    Some(&s.spec_fields()[index as int].1)
                } else {
                    None
                },
            }),
    {
        match &self.variant {
            DynamicVariant::Tuple(data) => crate::ops::Tuple::field(data, index),
            DynamicVariant::Struct(data) => data.field_at(index),
            DynamicVariant::Unit => None,
        }
    }

    /// The name of the field at `index` of a struct variant.
    pub fn name_at(&self, index: usize) -> (r: Option<&str>)
        ensures
            match self.spec_variant() {
                DynamicVariant::Struct(s) => match r {
                    Some(n) => index < s.spec_fields().len() && n@ == s.spec_fields()[index as int].0@,
                    None => index >= s.spec_fields().len(),
                },
                _ => r is None,
            },
    {
        match &self.variant {
            DynamicVariant::Struct(data) => data.name_at(index),
            _ => None,
        }
    }

    /// The number of fields of the variant.
    pub fn field_len(&self) -> (r: usize)
        ensures
            r == (match self.spec_variant() {
                DynamicVariant::Unit => 0,
                DynamicVariant::Tuple(t) => t.spec_fields().len(),
                DynamicVariant::Struct(s) => s.spec_fields().len(),
            }),
    {
        match &self.variant {
            DynamicVariant::Unit => 0,
            DynamicVariant::Tuple(data) => crate::ops::Tuple::field_len(data),
            DynamicVariant::Struct(data) => data.field_len(),
        }
    }

    /// The name of the variant.
    pub fn variant_name(&self) -> (r: &str)
        ensures
            r@ == self.spec_variant_name(),
    {
        self.variant_name.as_str()
    }

    /// The index of the variant.
    pub fn variant_index(&self) -> (r: usize)
        ensures
            r == self.spec_variant_index(),
    {
        self.variant_index
    }

    /// The kind of the variant.
    pub fn variant_kind(&self) -> (r: VariantKind)
        ensures
            r == self.spec_variant().spec_kind(),
    {
        self.variant.kind()
    }

    /// An iterator over the fields of the variant.
    pub fn iter_fields(&self) -> (r: VariantFieldIter<'_>)
        ensures
            r.spec_container() == *self,
            r.spec_index() == 0,
    {
        VariantFieldIter::new(self)
    }

    /// The field `name` converted to `T`.
    pub fn field_as<T: FromReflect>(&self, name: &str) -> (r: Option<T>)
        ensures
            match self.spec_variant() {
                DynamicVariant::Struct(s) => match field_position(s.spec_fields(), name@) {
                    Some(i) => T::converts(s.spec_fields()[i].1, r),
                    None => r is None,
                },
                _ => r is None,
            },
    {
        match self.field(name) {
            Some(v) => T::from_reflect(v),
            None => None,
        }
    }

    /// The field at `index` converted to `T`.
    pub fn field_at_as<T: FromReflect>(&self, index: usize) -> (r: Option<T>)
        ensures
            match self.spec_variant() {
                DynamicVariant::Unit => r is None,
                DynamicVariant::Tuple(t) => if index < t.spec_fields().len() {
                    T::converts(t.spec_fields()[index as int], r)
                } else {
                    r is None
                },
                DynamicVariant::Struct(s) => if index < s.spec_fields().len() {
                    T::converts(s.spec_fields()[index as int].1, r)
                } else {
                    r is None
                },
            },
    {
        match self.field_at(index) {
            Some(v) => T::from_reflect(v),
            None => None,
        }
    }

    /// Builds a dynamic copy of an enum value, field by field.
    pub fn from_ref<E: Enum>(value: &E) -> (r: DynamicEnum)
        ensures
            r.spec_info() == value.enum_info(),
            r.spec_variant_index() == value.enum_variant_index(),
            r.spec_variant_name() == value.enum_variant_name(),
            deep_variant(r.spec_variant()) == deep_variant(value.enum_variant()),
            crate::value::marks_variant(r.spec_variant()) == crate::value::marks_variant(
                value.enum_variant(),
            ),
            r.spec_variant().spec_kind() == value.enum_variant().spec_kind(),
    {
        value.to_dynamic_enum()
    }

    /// A dynamic copy of this enum value.
    pub fn to_dynamic_enum(&self) -> (r: DynamicEnum)
        ensures
            r.spec_info() == self.spec_info(),
            r.spec_variant_index() == self.spec_variant_index(),
            r.spec_variant_name() == self.spec_variant_name(),
            deep_variant(r.spec_variant()) == deep_variant(self.spec_variant()),
            crate::value::marks_variant(r.spec_variant()) == crate::value::marks_variant(
                self.spec_variant(),
            ),
            r.spec_variant().spec_kind() == self.spec_variant().spec_kind(),
        decreases self,
    {
        let name = self.variant_name.clone();
        let mut dyn_enum = match self.variant_kind() {
            VariantKind::Unit => DynamicEnum::new_with_index(
                self.variant_index(),
                name,
                DynamicVariant::Unit,
            ),
            VariantKind::Tuple => {
                let data = self.variant.clone_variant();
                DynamicEnum::new_with_index(self.variant_index(), name, data)
            },
            VariantKind::Struct => {
                let data = self.variant.clone_variant();
                DynamicEnum::new_with_index(self.variant_index(), name, data)
            },
        };
        dyn_enum.info = self.info;
        dyn_enum
    }

    /// Makes this enum take the variant of `value`: its name, its index and a dynamic copy of its
    /// data. The represented type stays as it is.
    pub fn try_apply(&mut self, value: &Value) -> (r: Result<(), ApplyError>)
        ensures
            r is Ok <==> value is Enum,
            final(self).spec_info() == old(self).spec_info(),
            match value {
                Value::Enum(y) => {
                    &&& final(self).spec_variant_index() == y.spec_variant_index()
                    &&& final(self).spec_variant_name() == y.spec_variant_name()
                    &&& deep_variant(final(self).spec_variant()) == deep_variant(y.spec_variant())
                    &&& crate::value::marks_variant(final(self).spec_variant())
                        == crate::value::marks_variant(y.spec_variant())
                },
                _ => {
                    &&& final(self).spec_variant_index() == old(self).spec_variant_index()
                    &&& final(self).spec_variant_name() == old(self).spec_variant_name()
                    &&& final(self).spec_variant() == old(self).spec_variant()
                },
            },
    {
        match value {
            Value::Enum(y) => {
                let dyn_variant = y.variant.clone_variant();
                self.set_variant_with_index(y.variant_index, y.variant_name.clone(), dyn_variant);
                Ok(())
            },
            _ => Err(ApplyError::MismatchedKinds { from_kind: value.reflect_kind(), to_kind: ValueKind::Enum }),
        }
    }
}

impl crate::info::TypePath for DynamicEnum {
    open spec fn spec_type_path() -> Seq<char> {
        "vc_reflect::ops::DynamicEnum"@
    }

    open spec fn spec_type_short_name() -> Seq<char> {
        "DynamicEnum"@
    }

    open spec fn spec_type_ident() -> Seq<char> {
        "DynamicEnum"@
    }

    open spec fn spec_type_module() -> Option<Seq<char>> {
        Some("vc_reflect::ops"@)
    }

    fn type_path() -> &'static str {
        "vc_reflect::ops::DynamicEnum"
    }

    fn type_short_name() -> &'static str {
        "DynamicEnum"
    }

    fn type_ident() -> &'static str {
        "DynamicEnum"
    }

    fn type_module() -> Option<&'static str> {
        Some("vc_reflect::ops")
    }
}

impl crate::info::Typed for DynamicEnum {
    open spec fn spec_type_info() -> TypeInfo {
        crate::info::opaque_info(
            crate::info::DYNAMIC_ENUM_TYPE_ID,
            "vc_reflect::ops::DynamicEnum",
            "DynamicEnum",
            Some("vc_reflect::ops"),
        )
    }

    fn type_info() -> (r: TypeInfo) {
        crate::info::make_opaque(
            crate::info::DYNAMIC_ENUM_TYPE_ID,
            "vc_reflect::ops::DynamicEnum",
            "DynamicEnum",
            Some("vc_reflect::ops"),
        )
    }
}

/// Operations on enum values: a variant with its index, name and data.
pub trait Enum {
    spec fn enum_info(&self) -> Option<TypeInfo>;

    spec fn enum_variant_index(&self) -> usize;

    spec fn enum_variant_name(&self) -> Seq<char>;

    spec fn enum_variant(&self) -> DynamicVariant;

    /// The value of the field `name` of a struct variant.
    fn field(&self, name: &str) -> (r: Option<&Value>)
        ensures
            r == (match self.enum_variant() {
                DynamicVariant::Struct(s) => match field_position(s.spec_fields(), name@) {
                    Some(i) => Some(&s.spec_fields()[i].1),
                    None => None,
                },
                _ => None,
            }),
    ;

    /// The value of the field at `index`.
    fn field_at(&self, index: usize) -> (r: Option<&Value>)
        ensures
            r == (match self.enum_variant() {
                DynamicVariant::Unit => None,
                DynamicVariant::Tuple(t) => if index < t.spec_fields().len() {
                    Some(&t.spec_fields()[index as int])
                } else {
                    None
                },
                DynamicVariant::Struct(s) => if index < s.spec_fields().len() {
                    Some(&s.spec_fields()[index as int].1)
                } else {
                    None
                },
            }),
    ;

    /// The name of the field at `index` of a struct variant.
    fn name_at(&self, index: usize) -> (r: Option<&str>)
        ensures
            match self.enum_variant() {
                DynamicVariant::Struct(s) => match r {
                    Some(n) => index < s.spec_fields().len() && n@ == s.spec_fields()[index as int].0@,
                    None => index >= s.spec_fields().len(),
                },
                _ => r is None,
            },
    ;

    /// The number of fields of the variant.
    fn field_len(&self) -> (r: usize)
        ensures
            r == (match self.enum_variant() {
                DynamicVariant::Unit => 0,
                DynamicVariant::Tuple(t) => t.spec_fields().len(),
                DynamicVariant::Struct(s) => s.spec_fields().len(),
            }),
    ;

    /// The name of the variant.
    fn variant_name(&self) -> (r: &str)
        ensures
            r@ == self.enum_variant_name(),
    ;

    /// The index of the variant.
    fn variant_index(&self) -> (r: usize)
        ensures
            r == self.enum_variant_index(),
    ;

    /// The kind of the variant.
    fn variant_kind(&self) -> (r: VariantKind)
        ensures
            r == self.enum_variant().spec_kind(),
    ;

    /// A dynamic copy of this enum value.
    fn to_dynamic_enum(&self) -> (r: DynamicEnum)
        ensures
            r.spec_info() == self.enum_info(),
            r.spec_variant_index() == self.enum_variant_index(),
            r.spec_variant_name() == self.enum_variant_name(),
            deep_variant(r.spec_variant()) == deep_variant(self.enum_variant()),
            crate::value::marks_variant(r.spec_variant()) == crate::value::marks_variant(
                self.enum_variant(),
            ),
            r.spec_variant().spec_kind() == self.enum_variant().spec_kind(),
    ;
}

impl Enum for DynamicEnum {
    open spec fn enum_info(&self) -> Option<TypeInfo> {
        self.spec_info()
    }

    open spec fn enum_variant_index(&self) -> usize {
        self.spec_variant_index()
    }

    open spec fn enum_variant_name(&self) -> Seq<char> {
        self.spec_variant_name()
    }

    open spec fn enum_variant(&self) -> DynamicVariant {
        self.spec_variant()
    }

    fn field(&self, name: &str) -> (r: Option<&Value>) {
        DynamicEnum::field(self, name)
    }

    fn field_at(&self, index: usize) -> (r: Option<&Value>) {
        DynamicEnum::field_at(self, index)
    }

    fn name_at(&self, index: usize) -> (r: Option<&str>) {
        DynamicEnum::name_at(self, index)
    }

    fn field_len(&self) -> (r: usize) {
        DynamicEnum::field_len(self)
    }

    fn variant_name(&self) -> (r: &str) {
        DynamicEnum::variant_name(self)
    }

    fn variant_index(&self) -> (r: usize) {
        DynamicEnum::variant_index(self)
    }

    fn variant_kind(&self) -> (r: VariantKind) {
        DynamicEnum::variant_kind(self)
    }

    fn to_dynamic_enum(&self) -> (r: DynamicEnum) {
        DynamicEnum::to_dynamic_enum(self)
    }
}

} // verus!
