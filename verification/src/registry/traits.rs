//! The capabilities that a registration can offer for its type.
use vstd::prelude::*;

use crate::info::{TypeId, TypeInfo, TypePath, Typed, is_primitive_id};
use crate::info::{BOOL_TYPE_ID, CHAR_TYPE_ID, I64_TYPE_ID, STRING_TYPE_ID, U64_TYPE_ID, UNIT_TYPE_ID};
use crate::serde::{DeError, DeFault, Serial, SerialData};
use crate::value::{Data, Value, Width};
use crate::info::is_integer_id;
use crate::info::{I8_TYPE_ID, I16_TYPE_ID, I32_TYPE_ID, I128_TYPE_ID, ISIZE_TYPE_ID, U8_TYPE_ID, U16_TYPE_ID, U32_TYPE_ID, U128_TYPE_ID, USIZE_TYPE_ID};

verus! {

/// Builds a capability for the type `T`.
pub trait FromType<T: Typed>: Sized {
    /// Whether `self` is the capability built for `T`.
    spec fn built_for(self) -> bool;

    fn from_type() -> (r: Self)
        ensures
            <Self as FromType<T>>::built_for(r),
    ;
}

/// The text of a single character, made by std's `impl From<char> for String`; the contract,
/// believed without proof, claims what std documents: the string holds exactly that character.
#[verifier::external_body]
fn string_from_char(c: char) -> (r: String)
    ensures
        r@ == seq![c],
{
    String::from(c)
}

/// Produces the default value of a type.
pub struct ReflectDefault {
    value: Value,
}

impl ReflectDefault {
    /// The default value.
    pub closed spec fn spec_value(self) -> Value {
        self.value
    }

    /// A generator of the given default value.
    pub fn from_value(value: Value) -> (r: Self)
        ensures
            r.spec_value() == value,
    {
        ReflectDefault { value }
    }

    /// A fresh default value.
    pub fn default(&self) -> (r: Value)
        ensures
            r.deep() == self.spec_value().deep(),
            r.marks() == self.spec_value().marks(),
            r.spec_represented() == self.spec_value().spec_represented(),
            r.spec_kind() == self.spec_value().spec_kind(),
    {
        self.value.to_dynamic()
    }

    /// A copy of the generator.
    pub fn clone_default(&self) -> (r: Self)
        ensures
            r.spec_value().deep() == self.spec_value().deep(),
            r.spec_value().marks() == self.spec_value().marks(),
            r.spec_value().spec_represented() == self.spec_value().spec_represented(),
            r.spec_value().spec_kind() == self.spec_value().spec_kind(),
    {
        ReflectDefault { value: self.value.to_dynamic() }
    }
}

impl FromType<()> for ReflectDefault {
    open spec fn built_for(self) -> bool {
        let r = self;
        r.spec_value() == Value::Unit
    }

    fn from_type() -> (r: Self) {
        ReflectDefault { value: Value::Unit }
    }
}

impl FromType<bool> for ReflectDefault {
    open spec fn built_for(self) -> bool {
        let r = self;
        r.spec_value() == Value::Bool(false)
    }

    fn from_type() -> (r: Self) {
        ReflectDefault { value: Value::Bool(false) }
    }
}

impl FromType<i64> for ReflectDefault {
    open spec fn built_for(self) -> bool {
        let r = self;
        r.spec_value() == Value::Int(0)
    }

    fn from_type() -> (r: Self) {
        ReflectDefault { value: Value::Int(0) }
    }
}

impl FromType<u64> for ReflectDefault {
    open spec fn built_for(self) -> bool {
        let r = self;
        r.spec_value() == Value::UInt(0)
    }

    fn from_type() -> (r: Self) {
        ReflectDefault { value: Value::UInt(0) }
    }
}

impl FromType<char> for ReflectDefault {
    open spec fn built_for(self) -> bool {
        let r = self;
        r.spec_value() == Value::Char('\0')
    }

    fn from_type() -> (r: Self) {
        ReflectDefault { value: Value::Char('\0') }
    }
}

impl FromType<String> for ReflectDefault {
    open spec fn built_for(self) -> bool {
        let r = self;
        r.spec_value() matches Value::Str(s) && s@ == Seq::<char>::empty()
    }

    fn from_type() -> (r: Self) {
        ReflectDefault { value: Value::Str(String::new()) }
    }
}

/// Rebuilds a value of one type from any reflected value of that type.
#[derive(Clone, Copy)]
pub struct ReflectFromReflect {
    target: TypeId,
}

impl ReflectFromReflect {
    /// The type that values are rebuilt as.
    pub closed spec fn spec_target(self) -> TypeId {
        self.target
    }

    /// The type that values are rebuilt as.
    pub fn target(&self) -> (r: TypeId)
        ensures
            r == self.spec_target(),
    {
        self.target
    }

    /// Rebuilds `value` as a value of the target type: a copy when it is of that type,
    /// nothing otherwise.
    pub fn from_reflect(&self, value: &Value) -> (r: Option<Value>)
        ensures
            value.spec_ty_id() == self.spec_target() ==> (r matches Some(v) && v.deep()
                == value.deep() && v.marks() == value.marks() && v.spec_represented()
                == value.spec_represented()
                && v.spec_ty_id() == value.spec_ty_id()),
            value.spec_ty_id() != self.spec_target() ==> r is None,
    {
        if value.ty_id() == self.target {
            let v = value.to_dynamic();
            assert(v.spec_ty_id() == value.spec_ty_id());
            Some(v)
        } else {
            None
        }
    }
}

impl<T: Typed> FromType<T> for ReflectFromReflect {
    open spec fn built_for(self) -> bool {
        let r = self;
        r.spec_target() == T::spec_type_info().spec_ty().id
    }

    fn from_type() -> (r: Self) {
        ReflectFromReflect { target: T::type_info().type_id() }
    }
}

/// The serialized form of a primitive value.
pub open spec fn primitive_serial(v: Value) -> SerialData {
    match v {
        Value::Bool(b) => SerialData::Bool(b),
        Value::Int(i) => SerialData::I64(i as int),
        Value::UInt(u) => SerialData::U64(u as int),
        Value::I8(x) => SerialData::I8(x as int),
        Value::I16(x) => SerialData::I16(x as int),
        Value::I32(x) => SerialData::I32(x as int),
        Value::I128(x) => SerialData::I128(x as int),
        Value::Isize(x) => SerialData::I64(x as int),
        Value::U8(x) => SerialData::U8(x as int),
        Value::U16(x) => SerialData::U16(x as int),
        Value::U32(x) => SerialData::U32(x as int),
        Value::U128(x) => SerialData::U128(x as int),
        Value::Usize(x) => SerialData::U64(x as int),
        Value::Char(c) => SerialData::Char(c),
        Value::Str(s) => SerialData::Str(s@),
        _ => SerialData::Unit,
    }
}

/// Serializes values of a primitive type by the type's own serialized form.
#[derive(Clone, Copy)]
pub struct ReflectSerialize {
    target: TypeId,
}

impl ReflectSerialize {
    #[verifier::type_invariant]
    closed spec fn inv(self) -> bool {
        is_primitive_id(self.target)
    }

    /// The type whose values are serialized.
    pub closed spec fn spec_target(self) -> TypeId {
        self.target
    }

    /// The type whose values are serialized.
    pub fn target(&self) -> (r: TypeId)
        ensures
            r == self.spec_target(),
    {
        self.target
    }

    /// Serializes a value of the target type.
    pub fn serialize(&self, value: &Value) -> (r: Serial)
        requires
            value.spec_ty_id() == self.spec_target(),
        ensures
            r.data() == primitive_serial(*value),
    {
        proof {
            use_type_invariant(self);
        }
        match value {
            Value::Bool(b) => Serial::Bool(*b),
            Value::Int(i) => Serial::I64(*i),
            Value::UInt(u) => Serial::U64(*u),
            Value::I8(x) => Serial::I8(*x),
            Value::I16(x) => Serial::I16(*x),
            Value::I32(x) => Serial::I32(*x),
            Value::I128(x) => Serial::I128(*x),
            Value::Isize(x) => Serial::I64(*x as i64),
            Value::U8(x) => Serial::U8(*x),
            Value::U16(x) => Serial::U16(*x),
            Value::U32(x) => Serial::U32(*x),
            Value::U128(x) => Serial::U128(*x),
            Value::Usize(x) => Serial::U64(*x as u64),
            Value::Char(c) => Serial::Char(*c),
            Value::Str(s) => Serial::Str(s.clone()),
            _ => Serial::Unit,
        }
    }
}

impl FromType<()> for ReflectSerialize {
    open spec fn built_for(self) -> bool {
        let r = self;
        r.spec_target() == UNIT_TYPE_ID
    }

    fn from_type() -> (r: Self) {
        ReflectSerialize { target: UNIT_TYPE_ID }
    }
}

impl FromType<bool> for ReflectSerialize {
    open spec fn built_for(self) -> bool {
        let r = self;
        r.spec_target() == BOOL_TYPE_ID
    }

    fn from_type() -> (r: Self) {
        ReflectSerialize { target: BOOL_TYPE_ID }
    }
}

impl FromType<i64> for ReflectSerialize {
    open spec fn built_for(self) -> bool {
        let r = self;
        r.spec_target() == I64_TYPE_ID
    }

    fn from_type() -> (r: Self) {
        ReflectSerialize { target: I64_TYPE_ID }
    }
}

impl FromType<u64> for ReflectSerialize {
    open spec fn built_for(self) -> bool {
        let r = self;
        r.spec_target() == U64_TYPE_ID
    }

    fn from_type() -> (r: Self) {
        ReflectSerialize { target: U64_TYPE_ID }
    }
}

impl FromType<char> for ReflectSerialize {
    open spec fn built_for(self) -> bool {
        let r = self;
        r.spec_target() == CHAR_TYPE_ID
    }

    fn from_type() -> (r: Self) {
        ReflectSerialize { target: CHAR_TYPE_ID }
    }
}

impl FromType<String> for ReflectSerialize {
    open spec fn built_for(self) -> bool {
        let r = self;
        r.spec_target() == STRING_TYPE_ID
    }

    fn from_type() -> (r: Self) {
        ReflectSerialize { target: STRING_TYPE_ID }
    }
}

/// The integer that serialized data holds, if it is an integer of any width.
pub open spec fn serial_int(d: SerialData) -> Option<int> {
    match d {
        SerialData::I8(x) => Some(x),
        SerialData::I16(x) => Some(x),
        SerialData::I32(x) => Some(x),
        SerialData::I64(x) => Some(x),
        SerialData::I128(x) => Some(x),
        SerialData::U8(x) => Some(x),
        SerialData::U16(x) => Some(x),
        SerialData::U32(x) => Some(x),
        SerialData::U64(x) => Some(x),
        SerialData::U128(x) => Some(x),
        _ => None,
    }
}

/// What an integer type reads from the integer `n`: `n` itself where it fits the type.
pub open spec fn int_read(target: TypeId, n: int) -> Option<Data> {
    if target == I64_TYPE_ID {
        if i64::MIN <= n <= i64::MAX { Some(Data::Int(n)) } else { None }
    } else if target == U64_TYPE_ID {
        if 0 <= n <= u64::MAX { Some(Data::UInt(n)) } else { None }
    } else if target == I8_TYPE_ID {
        if -128 <= n <= 127 { Some(Data::Num(Width::I8, n)) } else { None }
    } else if target == I16_TYPE_ID {
        if -32768 <= n <= 32767 { Some(Data::Num(Width::I16, n)) } else { None }
    } else if target == I32_TYPE_ID {
        if -2147483648 <= n <= 2147483647 { Some(Data::Num(Width::I32, n)) } else { None }
    } else if target == I128_TYPE_ID {
        if i128::MIN <= n <= i128::MAX { Some(Data::Num(Width::I128, n)) } else { None }
    } else if target == ISIZE_TYPE_ID {
        if isize::MIN <= n <= isize::MAX { Some(Data::Num(Width::Isize, n)) } else { None }
    } else if target == U8_TYPE_ID {
        if 0 <= n <= 255 { Some(Data::Num(Width::U8, n)) } else { None }
    } else if target == U16_TYPE_ID {
        if 0 <= n <= 65535 { Some(Data::Num(Width::U16, n)) } else { None }
    } else if target == U32_TYPE_ID {
        if 0 <= n <= 4294967295 { Some(Data::Num(Width::U32, n)) } else { None }
    } else if target == U128_TYPE_ID {
        if 0 <= n <= u128::MAX { Some(Data::Num(Width::U128, n)) } else { None }
    } else if target == USIZE_TYPE_ID {
        if 0 <= n <= usize::MAX { Some(Data::Num(Width::Usize, n)) } else { None }
    } else {
        None
    }
}

/// What a primitive type reads from serialized data: integers of either signedness that fit,
/// a character from a one-character string and back.
pub open spec fn primitive_from_serial(target: TypeId, d: SerialData) -> Option<Data> {
    if target == UNIT_TYPE_ID {
        match d {
            SerialData::Unit => Some(Data::Unit),
            _ => None,
        }
    } else if target == BOOL_TYPE_ID {
        match d {
            SerialData::Bool(b) => Some(Data::Bool(b)),
            _ => None,
        }
    } else if target == I64_TYPE_ID || target == U64_TYPE_ID || is_integer_id(target) {
        match serial_int(d) {
            Some(n) => int_read(target, n),
            None => None,
        }
    } else if target == CHAR_TYPE_ID {
        match d {
            SerialData::Char(c) => Some(Data::Char(c)),
            SerialData::Str(s) => if s.len() == 1 {
                Some(Data::Char(s[0]))
            } else {
                None
            },
            _ => None,
        }
    } else if target == STRING_TYPE_ID {
        match d {
            SerialData::Str(s) => Some(Data::Str(s)),
            SerialData::Char(c) => Some(Data::Str(seq![c])),
            _ => None,
        }
    } else {
        None
    }
}

/// The full path of a primitive type.
pub open spec fn primitive_path(target: TypeId) -> &'static str {
    if target == UNIT_TYPE_ID {
        <() as Typed>::spec_type_info().spec_ty().path
    } else if target == BOOL_TYPE_ID {
        <bool as Typed>::spec_type_info().spec_ty().path
    } else if target == I64_TYPE_ID {
        <i64 as Typed>::spec_type_info().spec_ty().path
    } else if target == U64_TYPE_ID {
        <u64 as Typed>::spec_type_info().spec_ty().path
    } else if target == CHAR_TYPE_ID {
        <char as Typed>::spec_type_info().spec_ty().path
    } else if target == I8_TYPE_ID {
        <i8 as Typed>::spec_type_info().spec_ty().path
    } else if target == I16_TYPE_ID {
        <i16 as Typed>::spec_type_info().spec_ty().path
    } else if target == I32_TYPE_ID {
        <i32 as Typed>::spec_type_info().spec_ty().path
    } else if target == I128_TYPE_ID {
        <i128 as Typed>::spec_type_info().spec_ty().path
    } else if target == ISIZE_TYPE_ID {
        <isize as Typed>::spec_type_info().spec_ty().path
    } else if target == U8_TYPE_ID {
        <u8 as Typed>::spec_type_info().spec_ty().path
    } else if target == U16_TYPE_ID {
        <u16 as Typed>::spec_type_info().spec_ty().path
    } else if target == U32_TYPE_ID {
        <u32 as Typed>::spec_type_info().spec_ty().path
    } else if target == U128_TYPE_ID {
        <u128 as Typed>::spec_type_info().spec_ty().path
    } else if target == USIZE_TYPE_ID {
        <usize as Typed>::spec_type_info().spec_ty().path
    } else {
        <String as Typed>::spec_type_info().spec_ty().path
    }
}

fn primitive_info(target: TypeId) -> (r: TypeInfo)
    requires
        is_primitive_id(target),
    ensures
        r.spec_ty().path == primitive_path(target),
        r.spec_ty().id == target,
{
    if target == UNIT_TYPE_ID {
        <() as Typed>::type_info()
    } else if target == BOOL_TYPE_ID {
        <bool as Typed>::type_info()
    } else if target == I64_TYPE_ID {
        <i64 as Typed>::type_info()
    } else if target == U64_TYPE_ID {
        <u64 as Typed>::type_info()
    } else if target == CHAR_TYPE_ID {
        <char as Typed>::type_info()
    } else if target == I8_TYPE_ID {
        <i8 as Typed>::type_info()
    } else if target == I16_TYPE_ID {
        <i16 as Typed>::type_info()
    } else if target == I32_TYPE_ID {
        <i32 as Typed>::type_info()
    } else if target == I128_TYPE_ID {
        <i128 as Typed>::type_info()
    } else if target == ISIZE_TYPE_ID {
        <isize as Typed>::type_info()
    } else if target == U8_TYPE_ID {
        <u8 as Typed>::type_info()
    } else if target == U16_TYPE_ID {
        <u16 as Typed>::type_info()
    } else if target == U32_TYPE_ID {
        <u32 as Typed>::type_info()
    } else if target == U128_TYPE_ID {
        <u128 as Typed>::type_info()
    } else if target == USIZE_TYPE_ID {
        <usize as Typed>::type_info()
    } else {
        <String as Typed>::type_info()
    }
}

/// An integer read from serialized data: as `i128` where it fits, else as `u128`.
enum Wide {
    Signed(i128),
    Unsigned(u128),
}

/// The integer that serialized data holds, if it is an integer.
fn wide_of(data: &Serial) -> (r: Option<Wide>)
    ensures
        match r {
            Some(Wide::Signed(x)) => serial_int(data.data()) == Some(x as int),
            Some(Wide::Unsigned(x)) => serial_int(data.data()) == Some(x as int) && x > i128::MAX,
            None => serial_int(data.data()) is None,
        },
{
    match data {
        Serial::I8(x) => Some(Wide::Signed(*x as i128)),
        Serial::I16(x) => Some(Wide::Signed(*x as i128)),
        Serial::I32(x) => Some(Wide::Signed(*x as i128)),
        Serial::I64(x) => Some(Wide::Signed(*x as i128)),
        Serial::I128(x) => Some(Wide::Signed(*x)),
        Serial::U8(x) => Some(Wide::Signed(*x as i128)),
        Serial::U16(x) => Some(Wide::Signed(*x as i128)),
        Serial::U32(x) => Some(Wide::Signed(*x as i128)),
        Serial::U64(x) => Some(Wide::Signed(*x as i128)),
        Serial::U128(x) => if *x <= i128::MAX as u128 {
            Some(Wide::Signed(*x as i128))
        } else {
            Some(Wide::Unsigned(*x))
        },
        _ => None,
    }
}

/// Whether the identifier is that of an integer type other than `i64` and `u64`.
fn is_integer(t: TypeId) -> (r: bool)
    ensures
        r == is_integer_id(t),
{
    t == I8_TYPE_ID || t == I16_TYPE_ID || t == I32_TYPE_ID || t == I128_TYPE_ID || t == ISIZE_TYPE_ID || t == U8_TYPE_ID || t == U16_TYPE_ID || t == U32_TYPE_ID || t == U128_TYPE_ID || t == USIZE_TYPE_ID
}

/// The value of the integer type `t` holding the integer, where it fits the type.
fn int_from_wide(t: TypeId, w: Wide) -> (r: Option<Value>)
    requires
        t == I64_TYPE_ID || t == U64_TYPE_ID || is_integer_id(t),
        w matches Wide::Unsigned(x) ==> x > i128::MAX,
    ensures
        ({
            let n = match w {
                Wide::Signed(x) => x as int,
                Wide::Unsigned(x) => x as int,
            };
            &&& r is Some == int_read(t, n) is Some
            &&& r matches Some(v) ==> Some(v.deep()) == int_read(t, n) && v.spec_ty_id() == t
        }),
{
    match w {
        Wide::Signed(x) => {
            if t == I64_TYPE_ID {
                if i64::MIN as i128 <= x && x <= i64::MAX as i128 { Some(Value::Int(x as i64)) } else { None }
            } else if t == U64_TYPE_ID {
                if 0 <= x && x <= u64::MAX as i128 { Some(Value::UInt(x as u64)) } else { None }
            } else if t == I8_TYPE_ID {
                if -128i128 <= x && x <= 127i128 { Some(Value::I8(x as i8)) } else { None }
            } else if t == I16_TYPE_ID {
                if -32768i128 <= x && x <= 32767i128 { Some(Value::I16(x as i16)) } else { None }
            } else if t == I32_TYPE_ID {
                if -2147483648i128 <= x && x <= 2147483647i128 { Some(Value::I32(x as i32)) } else { None }
            } else if t == I128_TYPE_ID {
                Some(Value::I128(x))
            } else if t == ISIZE_TYPE_ID {
                if isize::MIN as i128 <= x && x <= isize::MAX as i128 { Some(Value::Isize(x as isize)) } else { None }
            } else if t == U8_TYPE_ID {
                if 0i128 <= x && x <= 255i128 { Some(Value::U8(x as u8)) } else { None }
            } else if t == U16_TYPE_ID {
                if 0i128 <= x && x <= 65535i128 { Some(Value::U16(x as u16)) } else { None }
            } else if t == U32_TYPE_ID {
                if 0i128 <= x && x <= 4294967295i128 { Some(Value::U32(x as u32)) } else { None }
            } else if t == U128_TYPE_ID {
                if 0 <= x { Some(Value::U128(x as u128)) } else { None }
            } else if t == USIZE_TYPE_ID {
                if 0i128 <= x && x <= usize::MAX as i128 { Some(Value::Usize(x as usize)) } else { None }
            } else {
                None
            }
        },
        Wide::Unsigned(x) => {
            if t == U128_TYPE_ID {
                Some(Value::U128(x))
            } else {
                None
            }
        },
    }
}

/// Deserializes values of a primitive type from their serialized form.
#[derive(Clone, Copy)]
pub struct ReflectDeserialize {
    target: TypeId,
}

impl ReflectDeserialize {
    #[verifier::type_invariant]
    closed spec fn inv(self) -> bool {
        is_primitive_id(self.target)
    }

    /// The type whose values are deserialized.
    pub closed spec fn spec_target(self) -> TypeId {
        self.target
    }

    /// The type whose values are deserialized.
    pub fn target(&self) -> (r: TypeId)
        ensures
            r == self.spec_target(),
    {
        self.target
    }

    /// Reads a value of the target type; fails when the data has another shape.
    pub fn deserialize(&self, data: &Serial) -> (r: Result<Value, DeError>)
        ensures
            match primitive_from_serial(self.spec_target(), data.data()) {
                Some(d) => r matches Ok(v) && v.deep() == d && v.spec_ty_id() == self.spec_target(),
                None => r matches Err(e) && e.fault() == (DeFault::InvalidType {
                    type_path: primitive_path(self.spec_target()),
                }),
            },
    {
        proof {
            use_type_invariant(self);
        }
        let t = self.target;
        let found: Option<Value> = if t == UNIT_TYPE_ID {
            match data {
                Serial::Unit => Some(Value::Unit),
                _ => None,
            }
        } else if t == BOOL_TYPE_ID {
            match data {
                Serial::Bool(b) => Some(Value::Bool(*b)),
                _ => None,
            }
        } else if t == I64_TYPE_ID || t == U64_TYPE_ID || is_integer(t) {
            match wide_of(data) {
                Some(w) => int_from_wide(t, w),
                None => None,
            }
        } else if t == CHAR_TYPE_ID {
            match data {
                Serial::Char(c) => Some(Value::Char(*c)),
                Serial::Str(s) => if s.as_str().unicode_len() == 1 {
                    Some(Value::Char(s.as_str().get_char(0)))
                } else {
                    None
                },
                _ => None,
            }
        } else {
            match data {
                Serial::Str(s) => Some(Value::Str(s.clone())),
                Serial::Char(c) => Some(Value::Str(string_from_char(*c))),
                _ => None,
            }
        };
        match found {
            Some(v) => Ok(v),
            None => Err(DeError::InvalidType { type_path: primitive_info(t).type_path() }),
        }
    }
}

impl FromType<()> for ReflectDeserialize {
    open spec fn built_for(self) -> bool {
        let r = self;
        r.spec_target() == UNIT_TYPE_ID
    }

    fn from_type() -> (r: Self) {
        ReflectDeserialize { target: UNIT_TYPE_ID }
    }
}

impl FromType<bool> for ReflectDeserialize {
    open spec fn built_for(self) -> bool {
        let r = self;
        r.spec_target() == BOOL_TYPE_ID
    }

    fn from_type() -> (r: Self) {
        ReflectDeserialize { target: BOOL_TYPE_ID }
    }
}

impl FromType<i64> for ReflectDeserialize {
    open spec fn built_for(self) -> bool {
        let r = self;
        r.spec_target() == I64_TYPE_ID
    }

    fn from_type() -> (r: Self) {
        ReflectDeserialize { target: I64_TYPE_ID }
    }
}

impl FromType<u64> for ReflectDeserialize {
    open spec fn built_for(self) -> bool {
        let r = self;
        r.spec_target() == U64_TYPE_ID
    }

    fn from_type() -> (r: Self) {
        ReflectDeserialize { target: U64_TYPE_ID }
    }
}

impl FromType<char> for ReflectDeserialize {
    open spec fn built_for(self) -> bool {
        let r = self;
        r.spec_target() == CHAR_TYPE_ID
    }

    fn from_type() -> (r: Self) {
        ReflectDeserialize { target: CHAR_TYPE_ID }
    }
}

impl FromType<String> for ReflectDeserialize {
    open spec fn built_for(self) -> bool {
        let r = self;
        r.spec_target() == STRING_TYPE_ID
    }

    fn from_type() -> (r: Self) {
        ReflectDeserialize { target: STRING_TYPE_ID }
    }
}

impl FromType<i8> for ReflectDefault {
    open spec fn built_for(self) -> bool {
        let r = self;
        r.spec_value() == Value::I8(0)
    }

    fn from_type() -> (r: Self) {
        ReflectDefault { value: Value::I8(0) }
    }
}

impl FromType<i8> for ReflectSerialize {
    open spec fn built_for(self) -> bool {
        let r = self;
        r.spec_target() == I8_TYPE_ID
    }

    fn from_type() -> (r: Self) {
        ReflectSerialize { target: I8_TYPE_ID }
    }
}

impl FromType<i8> for ReflectDeserialize {
    open spec fn built_for(self) -> bool {
        let r = self;
        r.spec_target() == I8_TYPE_ID
    }

    fn from_type() -> (r: Self) {
        ReflectDeserialize { target: I8_TYPE_ID }
    }
}

impl FromType<i16> for ReflectDefault {
    open spec fn built_for(self) -> bool {
        let r = self;
        r.spec_value() == Value::I16(0)
    }

    fn from_type() -> (r: Self) {
        ReflectDefault { value: Value::I16(0) }
    }
}

impl FromType<i16> for ReflectSerialize {
    open spec fn built_for(self) -> bool {
        let r = self;
        r.spec_target() == I16_TYPE_ID
    }

    fn from_type() -> (r: Self) {
        ReflectSerialize { target: I16_TYPE_ID }
    }
}

impl FromType<i16> for ReflectDeserialize {
    open spec fn built_for(self) -> bool {
        let r = self;
        r.spec_target() == I16_TYPE_ID
    }

    fn from_type() -> (r: Self) {
        ReflectDeserialize { target: I16_TYPE_ID }
    }
}

impl FromType<i32> for ReflectDefault {
    open spec fn built_for(self) -> bool {
        let r = self;
        r.spec_value() == Value::I32(0)
    }

    fn from_type() -> (r: Self) {
        ReflectDefault { value: Value::I32(0) }
    }
}

impl FromType<i32> for ReflectSerialize {
    open spec fn built_for(self) -> bool {
        let r = self;
        r.spec_target() == I32_TYPE_ID
    }

    fn from_type() -> (r: Self) {
        ReflectSerialize { target: I32_TYPE_ID }
    }
}

impl FromType<i32> for ReflectDeserialize {
    open spec fn built_for(self) -> bool {
        let r = self;
        r.spec_target() == I32_TYPE_ID
    }

    fn from_type() -> (r: Self) {
        ReflectDeserialize { target: I32_TYPE_ID }
    }
}

impl FromType<i128> for ReflectDefault {
    open spec fn built_for(self) -> bool {
        let r = self;
        r.spec_value() == Value::I128(0)
    }

    fn from_type() -> (r: Self) {
        ReflectDefault { value: Value::I128(0) }
    }
}

impl FromType<i128> for ReflectSerialize {
    open spec fn built_for(self) -> bool {
        let r = self;
        r.spec_target() == I128_TYPE_ID
    }

    fn from_type() -> (r: Self) {
        ReflectSerialize { target: I128_TYPE_ID }
    }
}

impl FromType<i128> for ReflectDeserialize {
    open spec fn built_for(self) -> bool {
        let r = self;
        r.spec_target() == I128_TYPE_ID
    }

    fn from_type() -> (r: Self) {
        ReflectDeserialize { target: I128_TYPE_ID }
    }
}

impl FromType<isize> for ReflectDefault {
    open spec fn built_for(self) -> bool {
        let r = self;
        r.spec_value() == Value::Isize(0)
    }

    fn from_type() -> (r: Self) {
        ReflectDefault { value: Value::Isize(0) }
    }
}

impl FromType<isize> for ReflectSerialize {
    open spec fn built_for(self) -> bool {
        let r = self;
        r.spec_target() == ISIZE_TYPE_ID
    }

    fn from_type() -> (r: Self) {
        ReflectSerialize { target: ISIZE_TYPE_ID }
    }
}

impl FromType<isize> for ReflectDeserialize {
    open spec fn built_for(self) -> bool {
        let r = self;
        r.spec_target() == ISIZE_TYPE_ID
    }

    fn from_type() -> (r: Self) {
        ReflectDeserialize { target: ISIZE_TYPE_ID }
    }
}

impl FromType<u8> for ReflectDefault {
    open spec fn built_for(self) -> bool {
        let r = self;
        r.spec_value() == Value::U8(0)
    }

    fn from_type() -> (r: Self) {
        ReflectDefault { value: Value::U8(0) }
    }
}

impl FromType<u8> for ReflectSerialize {
    open spec fn built_for(self) -> bool {
        let r = self;
        r.spec_target() == U8_TYPE_ID
    }

    fn from_type() -> (r: Self) {
        ReflectSerialize { target: U8_TYPE_ID }
    }
}

impl FromType<u8> for ReflectDeserialize {
    open spec fn built_for(self) -> bool {
        let r = self;
        r.spec_target() == U8_TYPE_ID
    }

    fn from_type() -> (r: Self) {
        ReflectDeserialize { target: U8_TYPE_ID }
    }
}

impl FromType<u16> for ReflectDefault {
    open spec fn built_for(self) -> bool {
        let r = self;
        r.spec_value() == Value::U16(0)
    }

    fn from_type() -> (r: Self) {
        ReflectDefault { value: Value::U16(0) }
    }
}

impl FromType<u16> for ReflectSerialize {
    open spec fn built_for(self) -> bool {
        let r = self;
        r.spec_target() == U16_TYPE_ID
    }

    fn from_type() -> (r: Self) {
        ReflectSerialize { target: U16_TYPE_ID }
    }
}

impl FromType<u16> for ReflectDeserialize {
    open spec fn built_for(self) -> bool {
        let r = self;
        r.spec_target() == U16_TYPE_ID
    }

    fn from_type() -> (r: Self) {
        ReflectDeserialize { target: U16_TYPE_ID }
    }
}

impl FromType<u32> for ReflectDefault {
    open spec fn built_for(self) -> bool {
        let r = self;
        r.spec_value() == Value::U32(0)
    }

    fn from_type() -> (r: Self) {
        ReflectDefault { value: Value::U32(0) }
    }
}

impl FromType<u32> for ReflectSerialize {
    open spec fn built_for(self) -> bool {
        let r = self;
        r.spec_target() == U32_TYPE_ID
    }

    fn from_type() -> (r: Self) {
        ReflectSerialize { target: U32_TYPE_ID }
    }
}

impl FromType<u32> for ReflectDeserialize {
    open spec fn built_for(self) -> bool {
        let r = self;
        r.spec_target() == U32_TYPE_ID
    }

    fn from_type() -> (r: Self) {
        ReflectDeserialize { target: U32_TYPE_ID }
    }
}

impl FromType<u128> for ReflectDefault {
    open spec fn built_for(self) -> bool {
        let r = self;
        r.spec_value() == Value::U128(0)
    }

    fn from_type() -> (r: Self) {
        ReflectDefault { value: Value::U128(0) }
    }
}

impl FromType<u128> for ReflectSerialize {
    open spec fn built_for(self) -> bool {
        let r = self;
        r.spec_target() == U128_TYPE_ID
    }

    fn from_type() -> (r: Self) {
        ReflectSerialize { target: U128_TYPE_ID }
    }
}

impl FromType<u128> for ReflectDeserialize {
    open spec fn built_for(self) -> bool {
        let r = self;
        r.spec_target() == U128_TYPE_ID
    }

    fn from_type() -> (r: Self) {
        ReflectDeserialize { target: U128_TYPE_ID }
    }
}

impl FromType<usize> for ReflectDefault {
    open spec fn built_for(self) -> bool {
        let r = self;
        r.spec_value() == Value::Usize(0)
    }

    fn from_type() -> (r: Self) {
        ReflectDefault { value: Value::Usize(0) }
    }
}

impl FromType<usize> for ReflectSerialize {
    open spec fn built_for(self) -> bool {
        let r = self;
        r.spec_target() == USIZE_TYPE_ID
    }

    fn from_type() -> (r: Self) {
        ReflectSerialize { target: USIZE_TYPE_ID }
    }
}

impl FromType<usize> for ReflectDeserialize {
    open spec fn built_for(self) -> bool {
        let r = self;
        r.spec_target() == USIZE_TYPE_ID
    }

    fn from_type() -> (r: Self) {
        ReflectDeserialize { target: USIZE_TYPE_ID }
    }
}

impl TypePath for ReflectDefault {
    open spec fn spec_type_path() -> Seq<char> {
        "vc_reflect::registry::ReflectDefault"@
    }

    open spec fn spec_type_short_name() -> Seq<char> {
        "ReflectDefault"@
    }

    open spec fn spec_type_ident() -> Seq<char> {
        "ReflectDefault"@
    }

    open spec fn spec_type_module() -> Option<Seq<char>> {
        Some("vc_reflect::registry"@)
    }

    fn type_path() -> &'static str {
        "vc_reflect::registry::ReflectDefault"
    }

    fn type_short_name() -> &'static str {
        "ReflectDefault"
    }

    fn type_ident() -> &'static str {
        "ReflectDefault"
    }

    fn type_module() -> Option<&'static str> {
        Some("vc_reflect::registry")
    }
}

impl TypePath for ReflectFromReflect {
    open spec fn spec_type_path() -> Seq<char> {
        "vc_reflect::registry::ReflectFromReflect"@
    }

    open spec fn spec_type_short_name() -> Seq<char> {
        "ReflectFromReflect"@
    }

    open spec fn spec_type_ident() -> Seq<char> {
        "ReflectFromReflect"@
    }

    open spec fn spec_type_module() -> Option<Seq<char>> {
        Some("vc_reflect::registry"@)
    }

    fn type_path() -> &'static str {
        "vc_reflect::registry::ReflectFromReflect"
    }

    fn type_short_name() -> &'static str {
        "ReflectFromReflect"
    }

    fn type_ident() -> &'static str {
        "ReflectFromReflect"
    }

    fn type_module() -> Option<&'static str> {
        Some("vc_reflect::registry")
    }
}

impl TypePath for ReflectSerialize {
    open spec fn spec_type_path() -> Seq<char> {
        "vc_reflect::registry::ReflectSerialize"@
    }

    open spec fn spec_type_short_name() -> Seq<char> {
        "ReflectSerialize"@
    }

    open spec fn spec_type_ident() -> Seq<char> {
        "ReflectSerialize"@
    }

    open spec fn spec_type_module() -> Option<Seq<char>> {
        Some("vc_reflect::registry"@)
    }

    fn type_path() -> &'static str {
        "vc_reflect::registry::ReflectSerialize"
    }

    fn type_short_name() -> &'static str {
        "ReflectSerialize"
    }

    fn type_ident() -> &'static str {
        "ReflectSerialize"
    }

    fn type_module() -> Option<&'static str> {
        Some("vc_reflect::registry")
    }
}

impl TypePath for ReflectDeserialize {
    open spec fn spec_type_path() -> Seq<char> {
        "vc_reflect::registry::ReflectDeserialize"@
    }

    open spec fn spec_type_short_name() -> Seq<char> {
        "ReflectDeserialize"@
    }

    open spec fn spec_type_ident() -> Seq<char> {
        "ReflectDeserialize"@
    }

    open spec fn spec_type_module() -> Option<Seq<char>> {
        Some("vc_reflect::registry"@)
    }

    fn type_path() -> &'static str {
        "vc_reflect::registry::ReflectDeserialize"
    }

    fn type_short_name() -> &'static str {
        "ReflectDeserialize"
    }

    fn type_ident() -> &'static str {
        "ReflectDeserialize"
    }

    fn type_module() -> Option<&'static str> {
        Some("vc_reflect::registry")
    }
}

} // verus!
