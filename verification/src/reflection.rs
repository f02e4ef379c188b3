//! Conversions between concrete Rust values and reflected values.
use vstd::prelude::*;

use crate::ops::{DynamicArray, DynamicEnum, DynamicList, DynamicMap, DynamicSet};
use crate::ops::{DynamicStruct, DynamicTuple, DynamicTupleStruct};
use crate::value::Value;

verus! {

/// A type whose values can be turned into reflected values.
pub trait Reflect: Sized {
    spec fn spec_value(self) -> Value;

    fn into_value(self) -> (r: Value)
        ensures
            r == self.spec_value(),
    ;
}

/// A type that can be rebuilt from a reflected value.
pub trait FromReflect: Reflect {
    /// Whether `r` is what converting `v` gives.
    spec fn converts(v: Value, r: Option<Self>) -> bool;

    fn from_reflect(v: &Value) -> (r: Option<Self>)
        ensures
            Self::converts(*v, r),
    ;

    /// Whether the reflected value holds a `Self`, which can then be moved out of it.
    spec fn is_held(v: Value) -> bool;

    /// Moves the `Self` that the reflected value holds out of it; hands the value back when it
    /// holds none.
    fn take_held(v: Value) -> (r: Result<Self, Value>)
        ensures
            Self::is_held(v) ==> (r matches Ok(x) && x.spec_value() == v),
            !Self::is_held(v) ==> r == Err::<Self, Value>(v),
    ;

    /// Converting a reflected value gives a `Self` exactly when the value holds one, and then a
    /// `Self` whose reflected form has the same content and the same represented types.
    proof fn lemma_converts(v: Value, r: Option<Self>)
        requires
            Self::converts(v, r),
        ensures
            r is Some <==> Self::is_held(v),
            r matches Some(x) ==> x.spec_value().deep() == v.deep() && x.spec_value().marks() == v.marks(),
    ;

    /// The reflected form of a `Self` holds a `Self`.
    proof fn lemma_held(x: Self)
        ensures
            Self::is_held(x.spec_value()),
    ;

    /// A reflected value that holds a `Self` is the reflected form of one.
    proof fn lemma_held_form(v: Value)
        requires
            Self::is_held(v),
        ensures
            exists|x: Self| #[trigger] x.spec_value() == v,
    ;
}

/// Converting the reflected form of a value gives a value back, of the same content and with the
/// same represented types; for a primitive type, whose content is the value, the value itself.
pub proof fn lemma_from_reflect_of_reflected<T: FromReflect>(x: T, r: Option<T>)
    requires
        T::converts(x.spec_value(), r),
    ensures
        r matches Some(y) && y.spec_value().deep() == x.spec_value().deep() && y.spec_value().marks()
            == x.spec_value().marks(),
{
    T::lemma_held(x);
    T::lemma_converts(x.spec_value(), r);
}

/// A reflected value converts to a `T` only when it is the reflected form of some `T`.
pub proof fn lemma_from_reflect_only_reflected<T: FromReflect>(v: Value, r: Option<T>)
    requires
        T::converts(v, r),
        r is Some,
    ensures
        exists|x: T| #[trigger] x.spec_value() == v,
{
    T::lemma_converts(v, r);
    T::lemma_held_form(v);
}

/// A type whose values a reflected value can hold in place, where they can be changed.
pub trait ReflectMut: Reflect {
    /// Whether the reflected value holds a `Self`.
    spec fn holds(v: Value) -> bool;

    /// The `Self` that the reflected value holds, for changing in place; `None` when it holds
    /// none.
    fn as_reflect_mut(v: &mut Value) -> (r: Option<&mut Self>)
        ensures
            Self::holds(*old(v)) ==> {
                &&& r is Some
                &&& (*r->Some_0).spec_value() == *old(v)
                &&& *final(v) == (*final(r->Some_0)).spec_value()
            },
            !Self::holds(*old(v)) ==> r is None && *final(v) == *old(v),
    ;
}

/// Converts the value into a `T`, or hands it back when it cannot be converted.
pub fn take_from_reflect<T: FromReflect>(v: Value) -> (r: Result<T, Value>)
    ensures
        T::is_held(v) ==> (r matches Ok(x) && x.spec_value() == v),
        !T::is_held(v) ==> match r {
            Ok(x) => T::converts(v, Some(x)),
            Err(y) => y == v && T::converts(v, None),
        },
{
    match T::take_held(v) {
        Ok(x) => Ok(x),
        Err(v) => match T::from_reflect(&v) {
            Some(x) => Ok(x),
            None => Err(v),
        },
    }
}

impl Reflect for Value {
    open spec fn spec_value(self) -> Value {
        self
    }

    fn into_value(self) -> (r: Value) {
        self
    }
}

impl Reflect for () {
    open spec fn spec_value(self) -> Value {
        Value::Unit
    }

    fn into_value(self) -> (r: Value) {
        Value::Unit
    }
}

impl Reflect for bool {
    open spec fn spec_value(self) -> Value {
        Value::Bool(self)
    }

    fn into_value(self) -> (r: Value) {
        Value::Bool(self)
    }
}

impl Reflect for i64 {
    open spec fn spec_value(self) -> Value {
        Value::Int(self)
    }

    fn into_value(self) -> (r: Value) {
        Value::Int(self)
    }
}

impl Reflect for u64 {
    open spec fn spec_value(self) -> Value {
        Value::UInt(self)
    }

    fn into_value(self) -> (r: Value) {
        Value::UInt(self)
    }
}

impl Reflect for char {
    open spec fn spec_value(self) -> Value {
        Value::Char(self)
    }

    fn into_value(self) -> (r: Value) {
        Value::Char(self)
    }
}

impl Reflect for String {
    open spec fn spec_value(self) -> Value {
        Value::Str(self)
    }

    fn into_value(self) -> (r: Value) {
        Value::Str(self)
    }
}

impl Reflect for DynamicArray {
    open spec fn spec_value(self) -> Value {
        Value::Array(self)
    }

    fn into_value(self) -> (r: Value) {
        Value::Array(self)
    }
}

impl Reflect for DynamicList {
    open spec fn spec_value(self) -> Value {
        Value::List(self)
    }

    fn into_value(self) -> (r: Value) {
        Value::List(self)
    }
}

impl Reflect for DynamicTuple {
    open spec fn spec_value(self) -> Value {
        Value::Tuple(self)
    }

    fn into_value(self) -> (r: Value) {
        Value::Tuple(self)
    }
}

impl Reflect for DynamicTupleStruct {
    open spec fn spec_value(self) -> Value {
        Value::TupleStruct(self)
    }

    fn into_value(self) -> (r: Value) {
        Value::TupleStruct(self)
    }
}

impl Reflect for DynamicStruct {
    open spec fn spec_value(self) -> Value {
        Value::Struct(self)
    }

    fn into_value(self) -> (r: Value) {
        Value::Struct(self)
    }
}

impl Reflect for DynamicMap {
    open spec fn spec_value(self) -> Value {
        Value::MapLike(self)
    }

    fn into_value(self) -> (r: Value) {
        Value::MapLike(self)
    }
}

impl Reflect for DynamicSet {
    open spec fn spec_value(self) -> Value {
        Value::SetLike(self)
    }

    fn into_value(self) -> (r: Value) {
        Value::SetLike(self)
    }
}

impl Reflect for DynamicEnum {
    open spec fn spec_value(self) -> Value {
        Value::Enum(self)
    }

    fn into_value(self) -> (r: Value) {
        Value::Enum(self)
    }
}

impl FromReflect for () {
    proof fn lemma_converts(v: Value, r: Option<Self>) {
    }

    proof fn lemma_held(x: Self) {
    }

    proof fn lemma_held_form(v: Value) {
        let x: Self = ();
        assert(x.spec_value() == v);
    }

    open spec fn is_held(v: Value) -> bool {
        v is Unit
    }

    fn take_held(v: Value) -> (r: Result<Self, Value>) {
        match v {
            Value::Unit => Ok(()),
            _ => Err(v),
        }
    }

    open spec fn converts(v: Value, r: Option<Self>) -> bool {
        r == (if v is Unit {
            Some(())
        } else {
            None
        })
    }

    fn from_reflect(v: &Value) -> (r: Option<Self>) {
        match v {
            Value::Unit => Some(()),
            _ => None,
        }
    }
}

impl FromReflect for bool {
    proof fn lemma_converts(v: Value, r: Option<Self>) {
    }

    proof fn lemma_held(x: Self) {
    }

    proof fn lemma_held_form(v: Value) {
        let x: Self = v->Bool_0;
        assert(x.spec_value() == v);
    }

    open spec fn is_held(v: Value) -> bool {
        v is Bool
    }

    fn take_held(v: Value) -> (r: Result<Self, Value>) {
        match v {
            Value::Bool(x) => Ok(x),
            _ => Err(v),
        }
    }

    open spec fn converts(v: Value, r: Option<Self>) -> bool {
        r == match v {
            Value::Bool(b) => Some(b),
            _ => None,
        }
    }

    fn from_reflect(v: &Value) -> (r: Option<Self>) {
        match v {
            Value::Bool(b) => Some(*b),
            _ => None,
        }
    }
}

impl FromReflect for i64 {
    proof fn lemma_converts(v: Value, r: Option<Self>) {
    }

    proof fn lemma_held(x: Self) {
    }

    proof fn lemma_held_form(v: Value) {
        let x: Self = v->Int_0;
        assert(x.spec_value() == v);
    }

    open spec fn is_held(v: Value) -> bool {
        v is Int
    }

    fn take_held(v: Value) -> (r: Result<Self, Value>) {
        match v {
            Value::Int(x) => Ok(x),
            _ => Err(v),
        }
    }

    open spec fn converts(v: Value, r: Option<Self>) -> bool {
        r == match v {
            Value::Int(i) => Some(i),
            _ => None,
        }
    }

    fn from_reflect(v: &Value) -> (r: Option<Self>) {
        match v {
            Value::Int(i) => Some(*i),
            _ => None,
        }
    }
}

impl FromReflect for u64 {
    proof fn lemma_converts(v: Value, r: Option<Self>) {
    }

    proof fn lemma_held(x: Self) {
    }

    proof fn lemma_held_form(v: Value) {
        let x: Self = v->UInt_0;
        assert(x.spec_value() == v);
    }

    open spec fn is_held(v: Value) -> bool {
        v is UInt
    }

    fn take_held(v: Value) -> (r: Result<Self, Value>) {
        match v {
            Value::UInt(x) => Ok(x),
            _ => Err(v),
        }
    }

    open spec fn converts(v: Value, r: Option<Self>) -> bool {
        r == match v {
            Value::UInt(u) => Some(u),
            _ => None,
        }
    }

    fn from_reflect(v: &Value) -> (r: Option<Self>) {
        match v {
            Value::UInt(u) => Some(*u),
            _ => None,
        }
    }
}

impl FromReflect for char {
    proof fn lemma_converts(v: Value, r: Option<Self>) {
    }

    proof fn lemma_held(x: Self) {
    }

    proof fn lemma_held_form(v: Value) {
        let x: Self = v->Char_0;
        assert(x.spec_value() == v);
    }

    open spec fn is_held(v: Value) -> bool {
        v is Char
    }

    fn take_held(v: Value) -> (r: Result<Self, Value>) {
        match v {
            Value::Char(x) => Ok(x),
            _ => Err(v),
        }
    }

    open spec fn converts(v: Value, r: Option<Self>) -> bool {
        r == match v {
            Value::Char(c) => Some(c),
            _ => None,
        }
    }

    fn from_reflect(v: &Value) -> (r: Option<Self>) {
        match v {
            Value::Char(c) => Some(*c),
            _ => None,
        }
    }
}

impl FromReflect for String {
    proof fn lemma_converts(v: Value, r: Option<Self>) {
    }

    proof fn lemma_held(x: Self) {
    }

    proof fn lemma_held_form(v: Value) {
        let x: Self = v->Str_0;
        assert(x.spec_value() == v);
    }

    open spec fn is_held(v: Value) -> bool {
        v is Str
    }

    fn take_held(v: Value) -> (r: Result<Self, Value>) {
        match v {
            Value::Str(x) => Ok(x),
            _ => Err(v),
        }
    }

    open spec fn converts(v: Value, r: Option<Self>) -> bool {
        match v {
            Value::Str(s) => r matches Some(t) && t@ == s@,
            _ => r is None,
        }
    }

    fn from_reflect(v: &Value) -> (r: Option<Self>) {
        match v {
            Value::Str(s) => Some(s.clone()),
            _ => None,
        }
    }
}

impl FromReflect for DynamicArray {
    proof fn lemma_converts(v: Value, r: Option<Self>) {
    }

    proof fn lemma_held(x: Self) {
    }

    proof fn lemma_held_form(v: Value) {
        let x: Self = v->Array_0;
        assert(x.spec_value() == v);
    }

    open spec fn is_held(v: Value) -> bool {
        v is Array
    }

    fn take_held(v: Value) -> (r: Result<Self, Value>) {
        match v {
            Value::Array(x) => Ok(x),
            _ => Err(v),
        }
    }

    open spec fn converts(v: Value, r: Option<Self>) -> bool {
        match v {
            Value::Array(a) => r matches Some(t) && Value::Array(t).deep() == v.deep() && Value::Array(t).marks() == v.marks()
                && t.spec_info() == a.spec_info(),
            _ => r is None,
        }
    }

    fn from_reflect(v: &Value) -> (r: Option<Self>) {
        match v {
            Value::Array(a) => Some(crate::ops::Array::to_dynamic_array(a)),
            _ => None,
        }
    }
}

impl FromReflect for DynamicList {
    proof fn lemma_converts(v: Value, r: Option<Self>) {
    }

    proof fn lemma_held(x: Self) {
    }

    proof fn lemma_held_form(v: Value) {
        let x: Self = v->List_0;
        assert(x.spec_value() == v);
    }

    open spec fn is_held(v: Value) -> bool {
        v is List
    }

    fn take_held(v: Value) -> (r: Result<Self, Value>) {
        match v {
            Value::List(x) => Ok(x),
            _ => Err(v),
        }
    }

    open spec fn converts(v: Value, r: Option<Self>) -> bool {
        match v {
            Value::List(a) => r matches Some(t) && Value::List(t).deep() == v.deep() && Value::List(t).marks() == v.marks()
                && t.spec_info() == a.spec_info(),
            _ => r is None,
        }
    }

    fn from_reflect(v: &Value) -> (r: Option<Self>) {
        match v {
            Value::List(a) => Some(crate::ops::List::to_dynamic_list(a)),
            _ => None,
        }
    }
}

impl FromReflect for DynamicTuple {
    proof fn lemma_converts(v: Value, r: Option<Self>) {
    }

    proof fn lemma_held(x: Self) {
    }

    proof fn lemma_held_form(v: Value) {
        let x: Self = v->Tuple_0;
        assert(x.spec_value() == v);
    }

    open spec fn is_held(v: Value) -> bool {
        v is Tuple
    }

    fn take_held(v: Value) -> (r: Result<Self, Value>) {
        match v {
            Value::Tuple(x) => Ok(x),
            _ => Err(v),
        }
    }

    open spec fn converts(v: Value, r: Option<Self>) -> bool {
        match v {
            Value::Tuple(a) => r matches Some(t) && Value::Tuple(t).deep() == v.deep() && Value::Tuple(t).marks() == v.marks()
                && t.spec_info() == a.spec_info(),
            _ => r is None,
        }
    }

    fn from_reflect(v: &Value) -> (r: Option<Self>) {
        match v {
            Value::Tuple(a) => Some(crate::ops::Tuple::to_dynamic_tuple(a)),
            _ => None,
        }
    }
}

impl FromReflect for DynamicTupleStruct {
    proof fn lemma_converts(v: Value, r: Option<Self>) {
    }

    proof fn lemma_held(x: Self) {
    }

    proof fn lemma_held_form(v: Value) {
        let x: Self = v->TupleStruct_0;
        assert(x.spec_value() == v);
    }

    open spec fn is_held(v: Value) -> bool {
        v is TupleStruct
    }

    fn take_held(v: Value) -> (r: Result<Self, Value>) {
        match v {
            Value::TupleStruct(x) => Ok(x),
            _ => Err(v),
        }
    }

    open spec fn converts(v: Value, r: Option<Self>) -> bool {
        match v {
            Value::TupleStruct(a) => r matches Some(t) && Value::TupleStruct(t).deep() == v.deep() && Value::TupleStruct(t).marks() == v.marks()
                && t.spec_info() == a.spec_info(),
            _ => r is None,
        }
    }

    fn from_reflect(v: &Value) -> (r: Option<Self>) {
        match v {
            Value::TupleStruct(a) => Some(crate::ops::TupleStruct::to_dynamic_tuple_struct(a)),
            _ => None,
        }
    }
}

impl FromReflect for DynamicStruct {
    proof fn lemma_converts(v: Value, r: Option<Self>) {
    }

    proof fn lemma_held(x: Self) {
    }

    proof fn lemma_held_form(v: Value) {
        let x: Self = v->Struct_0;
        assert(x.spec_value() == v);
    }

    open spec fn is_held(v: Value) -> bool {
        v is Struct
    }

    fn take_held(v: Value) -> (r: Result<Self, Value>) {
        match v {
            Value::Struct(x) => Ok(x),
            _ => Err(v),
        }
    }

    open spec fn converts(v: Value, r: Option<Self>) -> bool {
        match v {
            Value::Struct(a) => r matches Some(t) && Value::Struct(t).deep() == v.deep() && Value::Struct(t).marks() == v.marks()
                && t.spec_info() == a.spec_info(),
            _ => r is None,
        }
    }

    fn from_reflect(v: &Value) -> (r: Option<Self>) {
        match v {
            Value::Struct(a) => Some(a.to_dynamic_struct()),
            _ => None,
        }
    }
}

impl FromReflect for DynamicMap {
    proof fn lemma_converts(v: Value, r: Option<Self>) {
    }

    proof fn lemma_held(x: Self) {
    }

    proof fn lemma_held_form(v: Value) {
        let x: Self = v->MapLike_0;
        assert(x.spec_value() == v);
    }

    open spec fn is_held(v: Value) -> bool {
        v is MapLike
    }

    fn take_held(v: Value) -> (r: Result<Self, Value>) {
        match v {
            Value::MapLike(x) => Ok(x),
            _ => Err(v),
        }
    }

    open spec fn converts(v: Value, r: Option<Self>) -> bool {
        match v {
            Value::MapLike(a) => r matches Some(t) && Value::MapLike(t).deep() == v.deep() && Value::MapLike(t).marks() == v.marks()
                && t.spec_info() == a.spec_info(),
            _ => r is None,
        }
    }

    fn from_reflect(v: &Value) -> (r: Option<Self>) {
        match v {
            Value::MapLike(a) => Some(a.to_dynamic_map()),
            _ => None,
        }
    }
}

impl FromReflect for DynamicSet {
    proof fn lemma_converts(v: Value, r: Option<Self>) {
    }

    proof fn lemma_held(x: Self) {
    }

    proof fn lemma_held_form(v: Value) {
        let x: Self = v->SetLike_0;
        assert(x.spec_value() == v);
    }

    open spec fn is_held(v: Value) -> bool {
        v is SetLike
    }

    fn take_held(v: Value) -> (r: Result<Self, Value>) {
        match v {
            Value::SetLike(x) => Ok(x),
            _ => Err(v),
        }
    }

    open spec fn converts(v: Value, r: Option<Self>) -> bool {
        match v {
            Value::SetLike(a) => r matches Some(t) && Value::SetLike(t).deep() == v.deep() && Value::SetLike(t).marks() == v.marks()
                && t.spec_info() == a.spec_info(),
            _ => r is None,
        }
    }

    fn from_reflect(v: &Value) -> (r: Option<Self>) {
        match v {
            Value::SetLike(a) => Some(a.to_dynamic_set()),
            _ => None,
        }
    }
}

impl FromReflect for DynamicEnum {
    proof fn lemma_converts(v: Value, r: Option<Self>) {
    }

    proof fn lemma_held(x: Self) {
    }

    proof fn lemma_held_form(v: Value) {
        let x: Self = v->Enum_0;
        assert(x.spec_value() == v);
    }

    open spec fn is_held(v: Value) -> bool {
        v is Enum
    }

    fn take_held(v: Value) -> (r: Result<Self, Value>) {
        match v {
            Value::Enum(x) => Ok(x),
            _ => Err(v),
        }
    }

    open spec fn converts(v: Value, r: Option<Self>) -> bool {
        match v {
            Value::Enum(a) => r matches Some(t) && Value::Enum(t).deep() == v.deep() && Value::Enum(t).marks() == v.marks()
                && t.spec_info() == a.spec_info() && t.spec_variant_index()
                == a.spec_variant_index(),
            _ => r is None,
        }
    }

    fn from_reflect(v: &Value) -> (r: Option<Self>) {
        match v {
            Value::Enum(a) => Some(a.to_dynamic_enum()),
            _ => None,
        }
    }
}

impl ReflectMut for Value {
    open spec fn holds(v: Value) -> bool {
        true
    }

    fn as_reflect_mut(v: &mut Value) -> (r: Option<&mut Value>) {
        Some(v)
    }
}

impl ReflectMut for bool {
    open spec fn holds(v: Value) -> bool {
        v is Bool
    }

    fn as_reflect_mut(v: &mut Value) -> (r: Option<&mut bool>) {
        match v {
            Value::Bool(x) => Some(x),
            _ => None,
        }
    }
}

impl ReflectMut for i64 {
    open spec fn holds(v: Value) -> bool {
        v is Int
    }

    fn as_reflect_mut(v: &mut Value) -> (r: Option<&mut i64>) {
        match v {
            Value::Int(x) => Some(x),
            _ => None,
        }
    }
}

impl ReflectMut for u64 {
    open spec fn holds(v: Value) -> bool {
        v is UInt
    }

    fn as_reflect_mut(v: &mut Value) -> (r: Option<&mut u64>) {
        match v {
            Value::UInt(x) => Some(x),
            _ => None,
        }
    }
}

impl ReflectMut for char {
    open spec fn holds(v: Value) -> bool {
        v is Char
    }

    fn as_reflect_mut(v: &mut Value) -> (r: Option<&mut char>) {
        match v {
            Value::Char(x) => Some(x),
            _ => None,
        }
    }
}

impl ReflectMut for String {
    open spec fn holds(v: Value) -> bool {
        v is Str
    }

    fn as_reflect_mut(v: &mut Value) -> (r: Option<&mut String>) {
        match v {
            Value::Str(x) => Some(x),
            _ => None,
        }
    }
}

impl ReflectMut for DynamicArray {
    open spec fn holds(v: Value) -> bool {
        v is Array
    }

    fn as_reflect_mut(v: &mut Value) -> (r: Option<&mut DynamicArray>) {
        match v {
            Value::Array(x) => Some(x),
            _ => None,
        }
    }
}

impl ReflectMut for DynamicList {
    open spec fn holds(v: Value) -> bool {
        v is List
    }

    fn as_reflect_mut(v: &mut Value) -> (r: Option<&mut DynamicList>) {
        match v {
            Value::List(x) => Some(x),
            _ => None,
        }
    }
}

impl ReflectMut for DynamicTuple {
    open spec fn holds(v: Value) -> bool {
        v is Tuple
    }

    fn as_reflect_mut(v: &mut Value) -> (r: Option<&mut DynamicTuple>) {
        match v {
            Value::Tuple(x) => Some(x),
            _ => None,
        }
    }
}

impl ReflectMut for DynamicTupleStruct {
    open spec fn holds(v: Value) -> bool {
        v is TupleStruct
    }

    fn as_reflect_mut(v: &mut Value) -> (r: Option<&mut DynamicTupleStruct>) {
        match v {
            Value::TupleStruct(x) => Some(x),
            _ => None,
        }
    }
}

impl ReflectMut for DynamicStruct {
    open spec fn holds(v: Value) -> bool {
        v is Struct
    }

    fn as_reflect_mut(v: &mut Value) -> (r: Option<&mut DynamicStruct>) {
        match v {
            Value::Struct(x) => Some(x),
            _ => None,
        }
    }
}

impl ReflectMut for DynamicMap {
    open spec fn holds(v: Value) -> bool {
        v is MapLike
    }

    fn as_reflect_mut(v: &mut Value) -> (r: Option<&mut DynamicMap>) {
        match v {
            Value::MapLike(x) => Some(x),
            _ => None,
        }
    }
}

impl ReflectMut for DynamicSet {
    open spec fn holds(v: Value) -> bool {
        v is SetLike
    }

    fn as_reflect_mut(v: &mut Value) -> (r: Option<&mut DynamicSet>) {
        match v {
            Value::SetLike(x) => Some(x),
            _ => None,
        }
    }
}

impl ReflectMut for DynamicEnum {
    open spec fn holds(v: Value) -> bool {
        v is Enum
    }

    fn as_reflect_mut(v: &mut Value) -> (r: Option<&mut DynamicEnum>) {
        match v {
            Value::Enum(x) => Some(x),
            _ => None,
        }
    }
}

impl Reflect for i8 {
    open spec fn spec_value(self) -> Value {
        Value::I8(self)
    }

    fn into_value(self) -> (r: Value) {
        Value::I8(self)
    }
}

impl FromReflect for i8 {
    proof fn lemma_converts(v: Value, r: Option<Self>) {
    }

    proof fn lemma_held(x: Self) {
    }

    proof fn lemma_held_form(v: Value) {
        let x: Self = v->I8_0;
        assert(x.spec_value() == v);
    }

    open spec fn is_held(v: Value) -> bool {
        v is I8
    }

    fn take_held(v: Value) -> (r: Result<Self, Value>) {
        match v {
            Value::I8(x) => Ok(x),
            _ => Err(v),
        }
    }

    open spec fn converts(v: Value, r: Option<Self>) -> bool {
        r == match v {
            Value::I8(x) => Some(x),
            _ => None,
        }
    }

    fn from_reflect(v: &Value) -> (r: Option<Self>) {
        match v {
            Value::I8(x) => Some(*x),
            _ => None,
        }
    }
}

impl ReflectMut for i8 {
    open spec fn holds(v: Value) -> bool {
        v is I8
    }

    fn as_reflect_mut(v: &mut Value) -> (r: Option<&mut i8>) {
        match v {
            Value::I8(x) => Some(x),
            _ => None,
        }
    }
}

impl Reflect for i16 {
    open spec fn spec_value(self) -> Value {
        Value::I16(self)
    }

    fn into_value(self) -> (r: Value) {
        Value::I16(self)
    }
}

impl FromReflect for i16 {
    proof fn lemma_converts(v: Value, r: Option<Self>) {
    }

    proof fn lemma_held(x: Self) {
    }

    proof fn lemma_held_form(v: Value) {
        let x: Self = v->I16_0;
        assert(x.spec_value() == v);
    }

    open spec fn is_held(v: Value) -> bool {
        v is I16
    }

    fn take_held(v: Value) -> (r: Result<Self, Value>) {
        match v {
            Value::I16(x) => Ok(x),
            _ => Err(v),
        }
    }

    open spec fn converts(v: Value, r: Option<Self>) -> bool {
        r == match v {
            Value::I16(x) => Some(x),
            _ => None,
        }
    }

    fn from_reflect(v: &Value) -> (r: Option<Self>) {
        match v {
            Value::I16(x) => Some(*x),
            _ => None,
        }
    }
}

impl ReflectMut for i16 {
    open spec fn holds(v: Value) -> bool {
        v is I16
    }

    fn as_reflect_mut(v: &mut Value) -> (r: Option<&mut i16>) {
        match v {
            Value::I16(x) => Some(x),
            _ => None,
        }
    }
}

impl Reflect for i32 {
    open spec fn spec_value(self) -> Value {
        Value::I32(self)
    }

    fn into_value(self) -> (r: Value) {
        Value::I32(self)
    }
}

impl FromReflect for i32 {
    proof fn lemma_converts(v: Value, r: Option<Self>) {
    }

    proof fn lemma_held(x: Self) {
    }

    proof fn lemma_held_form(v: Value) {
        let x: Self = v->I32_0;
        assert(x.spec_value() == v);
    }

    open spec fn is_held(v: Value) -> bool {
        v is I32
    }

    fn take_held(v: Value) -> (r: Result<Self, Value>) {
        match v {
            Value::I32(x) => Ok(x),
            _ => Err(v),
        }
    }

    open spec fn converts(v: Value, r: Option<Self>) -> bool {
        r == match v {
            Value::I32(x) => Some(x),
            _ => None,
        }
    }

    fn from_reflect(v: &Value) -> (r: Option<Self>) {
        match v {
            Value::I32(x) => Some(*x),
            _ => None,
        }
    }
}

impl ReflectMut for i32 {
    open spec fn holds(v: Value) -> bool {
        v is I32
    }

    fn as_reflect_mut(v: &mut Value) -> (r: Option<&mut i32>) {
        match v {
            Value::I32(x) => Some(x),
            _ => None,
        }
    }
}

impl Reflect for i128 {
    open spec fn spec_value(self) -> Value {
        Value::I128(self)
    }

    fn into_value(self) -> (r: Value) {
        Value::I128(self)
    }
}

impl FromReflect for i128 {
    proof fn lemma_converts(v: Value, r: Option<Self>) {
    }

    proof fn lemma_held(x: Self) {
    }

    proof fn lemma_held_form(v: Value) {
        let x: Self = v->I128_0;
        assert(x.spec_value() == v);
    }

    open spec fn is_held(v: Value) -> bool {
        v is I128
    }

    fn take_held(v: Value) -> (r: Result<Self, Value>) {
        match v {
            Value::I128(x) => Ok(x),
            _ => Err(v),
        }
    }

    open spec fn converts(v: Value, r: Option<Self>) -> bool {
        r == match v {
            Value::I128(x) => Some(x),
            _ => None,
        }
    }

    fn from_reflect(v: &Value) -> (r: Option<Self>) {
        match v {
            Value::I128(x) => Some(*x),
            _ => None,
        }
    }
}

impl ReflectMut for i128 {
    open spec fn holds(v: Value) -> bool {
        v is I128
    }

    fn as_reflect_mut(v: &mut Value) -> (r: Option<&mut i128>) {
        match v {
            Value::I128(x) => Some(x),
            _ => None,
        }
    }
}

impl Reflect for isize {
    open spec fn spec_value(self) -> Value {
        Value::Isize(self)
    }

    fn into_value(self) -> (r: Value) {
        Value::Isize(self)
    }
}

impl FromReflect for isize {
    proof fn lemma_converts(v: Value, r: Option<Self>) {
    }

    proof fn lemma_held(x: Self) {
    }

    proof fn lemma_held_form(v: Value) {
        let x: Self = v->Isize_0;
        assert(x.spec_value() == v);
    }

    open spec fn is_held(v: Value) -> bool {
        v is Isize
    }

    fn take_held(v: Value) -> (r: Result<Self, Value>) {
        match v {
            Value::Isize(x) => Ok(x),
            _ => Err(v),
        }
    }

    open spec fn converts(v: Value, r: Option<Self>) -> bool {
        r == match v {
            Value::Isize(x) => Some(x),
            _ => None,
        }
    }

    fn from_reflect(v: &Value) -> (r: Option<Self>) {
        match v {
            Value::Isize(x) => Some(*x),
            _ => None,
        }
    }
}

impl ReflectMut for isize {
    open spec fn holds(v: Value) -> bool {
        v is Isize
    }

    fn as_reflect_mut(v: &mut Value) -> (r: Option<&mut isize>) {
        match v {
            Value::Isize(x) => Some(x),
            _ => None,
        }
    }
}

impl Reflect for u8 {
    open spec fn spec_value(self) -> Value {
        Value::U8(self)
    }

    fn into_value(self) -> (r: Value) {
        Value::U8(self)
    }
}

impl FromReflect for u8 {
    proof fn lemma_converts(v: Value, r: Option<Self>) {
    }

    proof fn lemma_held(x: Self) {
    }

    proof fn lemma_held_form(v: Value) {
        let x: Self = v->U8_0;
        assert(x.spec_value() == v);
    }

    open spec fn is_held(v: Value) -> bool {
        v is U8
    }

    fn take_held(v: Value) -> (r: Result<Self, Value>) {
        match v {
            Value::U8(x) => Ok(x),
            _ => Err(v),
        }
    }

    open spec fn converts(v: Value, r: Option<Self>) -> bool {
        r == match v {
            Value::U8(x) => Some(x),
            _ => None,
        }
    }

    fn from_reflect(v: &Value) -> (r: Option<Self>) {
        match v {
            Value::U8(x) => Some(*x),
            _ => None,
        }
    }
}

impl ReflectMut for u8 {
    open spec fn holds(v: Value) -> bool {
        v is U8
    }

    fn as_reflect_mut(v: &mut Value) -> (r: Option<&mut u8>) {
        match v {
            Value::U8(x) => Some(x),
            _ => None,
        }
    }
}

impl Reflect for u16 {
    open spec fn spec_value(self) -> Value {
        Value::U16(self)
    }

    fn into_value(self) -> (r: Value) {
        Value::U16(self)
    }
}

impl FromReflect for u16 {
    proof fn lemma_converts(v: Value, r: Option<Self>) {
    }

    proof fn lemma_held(x: Self) {
    }

    proof fn lemma_held_form(v: Value) {
        let x: Self = v->U16_0;
        assert(x.spec_value() == v);
    }

    open spec fn is_held(v: Value) -> bool {
        v is U16
    }

    fn take_held(v: Value) -> (r: Result<Self, Value>) {
        match v {
            Value::U16(x) => Ok(x),
            _ => Err(v),
        }
    }

    open spec fn converts(v: Value, r: Option<Self>) -> bool {
        r == match v {
            Value::U16(x) => Some(x),
            _ => None,
        }
    }

    fn from_reflect(v: &Value) -> (r: Option<Self>) {
        match v {
            Value::U16(x) => Some(*x),
            _ => None,
        }
    }
}

impl ReflectMut for u16 {
    open spec fn holds(v: Value) -> bool {
        v is U16
    }

    fn as_reflect_mut(v: &mut Value) -> (r: Option<&mut u16>) {
        match v {
            Value::U16(x) => Some(x),
            _ => None,
        }
    }
}

impl Reflect for u32 {
    open spec fn spec_value(self) -> Value {
        Value::U32(self)
    }

    fn into_value(self) -> (r: Value) {
        Value::U32(self)
    }
}

impl FromReflect for u32 {
    proof fn lemma_converts(v: Value, r: Option<Self>) {
    }

    proof fn lemma_held(x: Self) {
    }

    proof fn lemma_held_form(v: Value) {
        let x: Self = v->U32_0;
        assert(x.spec_value() == v);
    }

    open spec fn is_held(v: Value) -> bool {
        v is U32
    }

    fn take_held(v: Value) -> (r: Result<Self, Value>) {
        match v {
            Value::U32(x) => Ok(x),
            _ => Err(v),
        }
    }

    open spec fn converts(v: Value, r: Option<Self>) -> bool {
        r == match v {
            Value::U32(x) => Some(x),
            _ => None,
        }
    }

    fn from_reflect(v: &Value) -> (r: Option<Self>) {
        match v {
            Value::U32(x) => Some(*x),
            _ => None,
        }
    }
}

impl ReflectMut for u32 {
    open spec fn holds(v: Value) -> bool {
        v is U32
    }

    fn as_reflect_mut(v: &mut Value) -> (r: Option<&mut u32>) {
        match v {
            Value::U32(x) => Some(x),
            _ => None,
        }
    }
}

impl Reflect for u128 {
    open spec fn spec_value(self) -> Value {
        Value::U128(self)
    }

    fn into_value(self) -> (r: Value) {
        Value::U128(self)
    }
}

impl FromReflect for u128 {
    proof fn lemma_converts(v: Value, r: Option<Self>) {
    }

    proof fn lemma_held(x: Self) {
    }

    proof fn lemma_held_form(v: Value) {
        let x: Self = v->U128_0;
        assert(x.spec_value() == v);
    }

    open spec fn is_held(v: Value) -> bool {
        v is U128
    }

    fn take_held(v: Value) -> (r: Result<Self, Value>) {
        match v {
            Value::U128(x) => Ok(x),
            _ => Err(v),
        }
    }

    open spec fn converts(v: Value, r: Option<Self>) -> bool {
        r == match v {
            Value::U128(x) => Some(x),
            _ => None,
        }
    }

    fn from_reflect(v: &Value) -> (r: Option<Self>) {
        match v {
            Value::U128(x) => Some(*x),
            _ => None,
        }
    }
}

impl ReflectMut for u128 {
    open spec fn holds(v: Value) -> bool {
        v is U128
    }

    fn as_reflect_mut(v: &mut Value) -> (r: Option<&mut u128>) {
        match v {
            Value::U128(x) => Some(x),
            _ => None,
        }
    }
}

impl Reflect for usize {
    open spec fn spec_value(self) -> Value {
        Value::Usize(self)
    }

    fn into_value(self) -> (r: Value) {
        Value::Usize(self)
    }
}

impl FromReflect for usize {
    proof fn lemma_converts(v: Value, r: Option<Self>) {
    }

    proof fn lemma_held(x: Self) {
    }

    proof fn lemma_held_form(v: Value) {
        let x: Self = v->Usize_0;
        assert(x.spec_value() == v);
    }

    open spec fn is_held(v: Value) -> bool {
        v is Usize
    }

    fn take_held(v: Value) -> (r: Result<Self, Value>) {
        match v {
            Value::Usize(x) => Ok(x),
            _ => Err(v),
        }
    }

    open spec fn converts(v: Value, r: Option<Self>) -> bool {
        r == match v {
            Value::Usize(x) => Some(x),
            _ => None,
        }
    }

    fn from_reflect(v: &Value) -> (r: Option<Self>) {
        match v {
            Value::Usize(x) => Some(*x),
            _ => None,
        }
    }
}

impl ReflectMut for usize {
    open spec fn holds(v: Value) -> bool {
        v is Usize
    }

    fn as_reflect_mut(v: &mut Value) -> (r: Option<&mut usize>) {
        match v {
            Value::Usize(x) => Some(x),
            _ => None,
        }
    }
}

} // verus!
