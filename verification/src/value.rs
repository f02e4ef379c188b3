//! Reflected values: what a type-erased value holds, and its mathematical model.
use vstd::prelude::*;

use crate::info::{TypeId, TypeInfo, Typed};
use crate::info::{UNIT_TYPE_ID, BOOL_TYPE_ID, I64_TYPE_ID, U64_TYPE_ID, CHAR_TYPE_ID, STRING_TYPE_ID};
use crate::info::{DYNAMIC_ARRAY_TYPE_ID, DYNAMIC_LIST_TYPE_ID, DYNAMIC_TUPLE_TYPE_ID, DYNAMIC_TUPLE_STRUCT_TYPE_ID};
use crate::info::{DYNAMIC_STRUCT_TYPE_ID, DYNAMIC_MAP_TYPE_ID, DYNAMIC_SET_TYPE_ID, DYNAMIC_ENUM_TYPE_ID};
use crate::ops::ReflectCloneError;
use crate::ops::{Array, List, Tuple, TupleStruct};
use crate::ops::{DynamicArray, DynamicList, DynamicTuple, DynamicTupleStruct, DynamicStruct};
use crate::ops::{DynamicMap, DynamicSet, DynamicEnum, DynamicVariant};

verus! {

/// A type-erased reflected value.
pub enum Value {
    Unit,
    Bool(bool),
    Int(i64),
    UInt(u64),
    I8(i8),
    I16(i16),
    I32(i32),
    I128(i128),
    Isize(isize),
    U8(u8),
    U16(u16),
    U32(u32),
    U128(u128),
    Usize(usize),
    Char(char),
    Str(String),
    Array(DynamicArray),
    List(DynamicList),
    Tuple(DynamicTuple),
    TupleStruct(DynamicTupleStruct),
    Struct(DynamicStruct),
    MapLike(DynamicMap),
    SetLike(DynamicSet),
    Enum(DynamicEnum),
}

/// The kind of a reflected value.
#[derive(PartialEq, Eq, Structural, Clone, Copy)]
pub enum ValueKind {
    Unit,
    Bool,
    Int,
    UInt,
    I8,
    I16,
    I32,
    I128,
    Isize,
    U8,
    U16,
    U32,
    U128,
    Usize,
    Char,
    Str,
    Array,
    List,
    Tuple,
    TupleStruct,
    Struct,
    MapLike,
    SetLike,
    Enum,
}

/// The kind of the data of an enum variant.
#[derive(PartialEq, Eq, Structural, Clone, Copy)]
pub enum VariantKind {
    Unit,
    Tuple,
    Struct,
}

/// The integer types other than `i64` and `u64`.
pub enum Width {
    I8,
    I16,
    I32,
    I128,
    Isize,
    U8,
    U16,
    U32,
    U128,
    Usize,
}

/// The mathematical content of a reflected value.
pub enum Data {
    Unit,
    Bool(bool),
    Int(int),
    UInt(int),
    /// An integer of one of the other integer types.
    Num(Width, int),
    Char(char),
    Str(Seq<char>),
    Array(Seq<Data>),
    List(Seq<Data>),
    Tuple(Seq<Data>),
    TupleStruct(Seq<Data>),
    Struct(Seq<Seq<char>>, Seq<Data>),
    MapLike(Seq<(Data, Data)>),
    SetLike(Seq<Data>),
    Enum(Seq<char>, int, VariantData),
}

/// The mathematical content of an enum variant.
pub enum VariantData {
    Unit,
    Tuple(Seq<Data>),
    Struct(Seq<Seq<char>>, Seq<Data>),
}

/// The content of a sequence of values.
pub open spec fn deep_seq(s: Seq<Value>) -> Seq<Data>
    decreases s,
{
    Seq::new(
        s.len(),
        |i: int|
            if 0 <= i < s.len() {
                s[i].deep()
            } else {
                Data::Unit
            },
    )
}

pub broadcast proof fn lemma_deep_seq(s: Seq<Value>, i: int)
    ensures
        #[trigger] deep_seq(s).len() == s.len(),
        0 <= i < s.len() ==> #[trigger] deep_seq(s)[i] == s[i].deep(),
{
}

pub broadcast proof fn lemma_deep_fields(s: Seq<(String, Value)>, i: int)
    ensures
        #[trigger] deep_fields(s).len() == s.len(),
        0 <= i < s.len() ==> #[trigger] deep_fields(s)[i] == s[i].1.deep(),
{
}

pub broadcast proof fn lemma_deep_entries(s: Seq<(Value, Value)>, i: int)
    ensures
        #[trigger] deep_entries(s).len() == s.len(),
        0 <= i < s.len() ==> #[trigger] deep_entries(s)[i] == (s[i].0.deep(), s[i].1.deep()),
{
}

pub broadcast group group_deep {
    lemma_deep_seq,
    lemma_deep_fields,
    lemma_deep_entries,
    lemma_marks_seq,
    lemma_marks_fields,
    lemma_marks_entries,
}

/// The names of a sequence of named fields.
pub open spec fn names_of(s: Seq<(String, Value)>) -> Seq<Seq<char>> {
    Seq::new(s.len(), |i: int| s[i].0@)
}

/// The contents of a sequence of named fields.
pub open spec fn deep_fields(s: Seq<(String, Value)>) -> Seq<Data>
    decreases s,
{
    Seq::new(
        s.len(),
        |i: int|
            if 0 <= i < s.len() {
                s[i].1.deep()
            } else {
                Data::Unit
            },
    )
}

/// The contents of a sequence of map entries.
pub open spec fn deep_entries(s: Seq<(Value, Value)>) -> Seq<(Data, Data)>
    decreases s,
{
    Seq::new(
        s.len(),
        |i: int|
            if 0 <= i < s.len() {
                (s[i].0.deep(), s[i].1.deep())
            } else {
                (Data::Unit, Data::Unit)
            },
    )
}

/// The content of the data of an enum variant.
pub open spec fn deep_variant(v: DynamicVariant) -> VariantData
    decreases v,
{
    proof {
        match v {
            DynamicVariant::Tuple(t) => t.lemma_decreases(),
            DynamicVariant::Struct(s) => s.lemma_decreases(),
            DynamicVariant::Unit => {},
        }
    }
    match v {
        DynamicVariant::Unit => VariantData::Unit,
        DynamicVariant::Tuple(t) => VariantData::Tuple(deep_seq(t.spec_fields())),
        DynamicVariant::Struct(s) => VariantData::Struct(names_of(s.spec_fields()), deep_fields(s.spec_fields())),
    }
}

impl Value {
    /// The mathematical content of the value; represented type information is not part of it.
    pub open spec fn deep(self) -> Data
        decreases self,
    {
        proof {
            match self {
                Value::Array(a) => a.lemma_decreases(),
                Value::List(l) => l.lemma_decreases(),
                Value::Tuple(t) => t.lemma_decreases(),
                Value::TupleStruct(t) => t.lemma_decreases(),
                Value::Struct(s) => s.lemma_decreases(),
                Value::MapLike(m) => m.lemma_decreases(),
                Value::SetLike(s) => s.lemma_decreases(),
                Value::Enum(e) => e.lemma_decreases(),
                _ => {},
            }
        }
        match self {
            Value::Unit => Data::Unit,
            Value::Bool(b) => Data::Bool(b),
            Value::Int(i) => Data::Int(i as int),
            Value::I8(x) => Data::Num(Width::I8, x as int),
            Value::I16(x) => Data::Num(Width::I16, x as int),
            Value::I32(x) => Data::Num(Width::I32, x as int),
            Value::I128(x) => Data::Num(Width::I128, x as int),
            Value::Isize(x) => Data::Num(Width::Isize, x as int),
            Value::U8(x) => Data::Num(Width::U8, x as int),
            Value::U16(x) => Data::Num(Width::U16, x as int),
            Value::U32(x) => Data::Num(Width::U32, x as int),
            Value::U128(x) => Data::Num(Width::U128, x as int),
            Value::Usize(x) => Data::Num(Width::Usize, x as int),
            Value::UInt(u) => Data::UInt(u as int),
            Value::Char(c) => Data::Char(c),
            Value::Str(s) => Data::Str(s@),
            Value::Array(a) => Data::Array(deep_seq(a.spec_values())),
            Value::List(l) => Data::List(deep_seq(l.spec_values())),
            Value::Tuple(t) => Data::Tuple(deep_seq(t.spec_fields())),
            Value::TupleStruct(t) => Data::TupleStruct(deep_seq(t.spec_fields())),
            Value::Struct(s) => Data::Struct(names_of(s.spec_fields()), deep_fields(s.spec_fields())),
            Value::MapLike(m) => Data::MapLike(deep_entries(m.spec_entries())),
            Value::SetLike(s) => Data::SetLike(deep_seq(s.spec_values())),
            Value::Enum(e) => Data::Enum(
                e.spec_variant_name(),
                e.spec_variant_index() as int,
                deep_variant(e.spec_variant()),
            ),
        }
    }
}


/// What a value's content leaves out: the type information that the value and each value it
/// holds represent, and the variant index of each enum, in the order of the content.
pub enum Marks {
    /// A primitive value.
    Plain,
    /// A container: its represented type, its variant index (0 but for an enum) and the marks of
    /// what it holds.
    Node { info: Option<TypeInfo>, index: int, children: Seq<Marks> },
}

/// The marks of a sequence of values.
pub open spec fn marks_seq(s: Seq<Value>) -> Seq<Marks>
    decreases s,
{
    Seq::new(
        s.len(),
        |i: int|
            if 0 <= i < s.len() {
                s[i].marks()
            } else {
                Marks::Plain
            },
    )
}

/// The marks of the values of a sequence of named fields.
pub open spec fn marks_fields(s: Seq<(String, Value)>) -> Seq<Marks>
    decreases s,
{
    Seq::new(
        s.len(),
        |i: int|
            if 0 <= i < s.len() {
                s[i].1.marks()
            } else {
                Marks::Plain
            },
    )
}

/// The marks of a map entry: those of its key and of its value.
pub open spec fn entry_marks(e: (Value, Value)) -> Marks
    decreases e,
{
    Marks::Node { info: None, index: 0, children: seq![e.0.marks(), e.1.marks()] }
}

/// The marks of a sequence of map entries: for each entry, the marks of its key and its value.
pub open spec fn marks_entries(s: Seq<(Value, Value)>) -> Seq<Marks>
    decreases s,
{
    Seq::new(
        s.len(),
        |i: int|
            if 0 <= i < s.len() {
                entry_marks(s[i])
            } else {
                Marks::Plain
            },
    )
}

/// The marks of the data of an enum variant.
pub open spec fn marks_variant(v: DynamicVariant) -> Marks
    decreases v,
{
    proof {
        match v {
            DynamicVariant::Tuple(t) => t.lemma_decreases(),
            DynamicVariant::Struct(s) => s.lemma_decreases(),
            DynamicVariant::Unit => {},
        }
    }
    match v {
        DynamicVariant::Unit => Marks::Plain,
        DynamicVariant::Tuple(t) => Marks::Node {
            info: t.spec_info(),
            index: 0,
            children: marks_seq(t.spec_fields()),
        },
        DynamicVariant::Struct(s) => Marks::Node {
            info: s.spec_info(),
            index: 0,
            children: marks_fields(s.spec_fields()),
        },
    }
}

pub broadcast proof fn lemma_marks_seq(s: Seq<Value>, i: int)
    ensures
        #[trigger] marks_seq(s).len() == s.len(),
        0 <= i < s.len() ==> #[trigger] marks_seq(s)[i] == s[i].marks(),
{
}

pub broadcast proof fn lemma_marks_fields(s: Seq<(String, Value)>, i: int)
    ensures
        #[trigger] marks_fields(s).len() == s.len(),
        0 <= i < s.len() ==> #[trigger] marks_fields(s)[i] == s[i].1.marks(),
{
}

pub broadcast proof fn lemma_marks_entries(s: Seq<(Value, Value)>, i: int)
    ensures
        #[trigger] marks_entries(s).len() == s.len(),
        0 <= i < s.len() ==> #[trigger] marks_entries(s)[i] == entry_marks(s[i]),
{
}

impl Value {
    /// The marks of the value: the represented types and variant indices at every level.
    pub open spec fn marks(self) -> Marks
        decreases self,
    {
        proof {
            match self {
                Value::Array(a) => a.lemma_decreases(),
                Value::List(l) => l.lemma_decreases(),
                Value::Tuple(t) => t.lemma_decreases(),
                Value::TupleStruct(t) => t.lemma_decreases(),
                Value::Struct(s) => s.lemma_decreases(),
                Value::MapLike(m) => m.lemma_decreases(),
                Value::SetLike(s) => s.lemma_decreases(),
                Value::Enum(e) => e.lemma_decreases(),
                _ => {},
            }
        }
        match self {
            Value::Array(a) => Marks::Node { info: a.spec_info(), index: 0, children: marks_seq(a.spec_values()) },
            Value::List(l) => Marks::Node { info: l.spec_info(), index: 0, children: marks_seq(l.spec_values()) },
            Value::Tuple(t) => Marks::Node { info: t.spec_info(), index: 0, children: marks_seq(t.spec_fields()) },
            Value::TupleStruct(t) => Marks::Node {
                info: t.spec_info(),
                index: 0,
                children: marks_seq(t.spec_fields()),
            },
            Value::Struct(s) => Marks::Node { info: s.spec_info(), index: 0, children: marks_fields(s.spec_fields()) },
            Value::MapLike(m) => Marks::Node {
                info: m.spec_info(),
                index: 0,
                children: marks_entries(m.spec_entries()),
            },
            Value::SetLike(s) => Marks::Node { info: s.spec_info(), index: 0, children: marks_seq(s.spec_values()) },
            Value::Enum(e) => Marks::Node {
                info: e.spec_info(),
                index: e.spec_variant_index() as int,
                children: seq![marks_variant(e.spec_variant())],
            },
            _ => Marks::Plain,
        }
    }
}

/// Equality of contents as reflection compares values: maps by their entries and sets by their
/// values, whatever their order; everything else in order.
pub open spec fn data_eq(a: Data, b: Data) -> bool
    decreases a, 0nat,
{
    match (a, b) {
        (Data::Array(x), Data::Array(y)) => x.len() == y.len() && seqs_eq(x, y, x.len()),
        (Data::List(x), Data::List(y)) => x.len() == y.len() && seqs_eq(x, y, x.len()),
        (Data::Tuple(x), Data::Tuple(y)) => x.len() == y.len() && seqs_eq(x, y, x.len()),
        (Data::TupleStruct(x), Data::TupleStruct(y)) => x.len() == y.len() && seqs_eq(x, y, x.len()),
        (Data::Struct(nx, x), Data::Struct(ny, y)) => nx == ny && x.len() == y.len() && seqs_eq(
            x,
            y,
            x.len(),
        ),
        (Data::MapLike(x), Data::MapLike(y)) => x.len() == y.len() && entries_in(x, y, x.len()),
        (Data::SetLike(x), Data::SetLike(y)) => x.len() == y.len() && values_in(x, y, x.len()),
        (Data::Enum(n1, i1, v1), Data::Enum(n2, i2, v2)) => n1 == n2 && i1 == i2 && variant_eq(v1, v2),
        _ => a == b,
    }
}

/// Whether the first `n` contents are equal in pairs.
pub open spec fn seqs_eq(x: Seq<Data>, y: Seq<Data>, n: nat) -> bool
    decreases x, n,
{
    if n == 0 || n > x.len() || n > y.len() {
        true
    } else {
        seqs_eq(x, y, (n - 1) as nat) && data_eq(x[n - 1], y[n - 1])
    }
}

/// Whether the contents of two variants are equal.
pub open spec fn variant_eq(v1: VariantData, v2: VariantData) -> bool
    decreases v1, 0nat,
{
    match (v1, v2) {
        (VariantData::Unit, VariantData::Unit) => true,
        (VariantData::Tuple(x), VariantData::Tuple(y)) => x.len() == y.len() && seqs_eq(x, y, x.len()),
        (VariantData::Struct(nx, x), VariantData::Struct(ny, y)) => nx == ny && x.len() == y.len()
            && seqs_eq(x, y, x.len()),
        _ => false,
    }
}

/// Whether one of the first `m` values of `y` equals `e`.
pub open spec fn value_in(e: Data, y: Seq<Data>, m: nat) -> bool
    decreases e, m,
{
    if m == 0 || m > y.len() {
        false
    } else {
        data_eq(e, y[m - 1]) || value_in(e, y, (m - 1) as nat)
    }
}

/// Whether each of the first `n` values of `x` equals a value of `y`.
pub open spec fn values_in(x: Seq<Data>, y: Seq<Data>, n: nat) -> bool
    decreases x, n,
{
    if n == 0 || n > x.len() {
        true
    } else {
        values_in(x, y, (n - 1) as nat) && value_in(x[n - 1], y, y.len())
    }
}

/// Whether one of the first `m` entries of `y` has a key equal to the key of `e` and a value
/// equal to its value.
pub open spec fn entry_in(e: (Data, Data), y: Seq<(Data, Data)>, m: nat) -> bool
    decreases e, m,
{
    if m == 0 || m > y.len() {
        false
    } else {
        (data_eq(e.0, y[m - 1].0) && data_eq(e.1, y[m - 1].1)) || entry_in(e, y, (m - 1) as nat)
    }
}

/// Whether each of the first `n` entries of `x` is matched by an entry of `y`.
pub open spec fn entries_in(x: Seq<(Data, Data)>, y: Seq<(Data, Data)>, n: nat) -> bool
    decreases x, n,
{
    if n == 0 || n > x.len() {
        true
    } else {
        entries_in(x, y, (n - 1) as nat) && entry_in(x[n - 1], y, y.len())
    }
}

impl Value {
    pub open spec fn spec_kind(self) -> ValueKind {
        match self {
            Value::Unit => ValueKind::Unit,
            Value::Bool(_) => ValueKind::Bool,
            Value::Int(_) => ValueKind::Int,
            Value::I8(_) => ValueKind::I8,
            Value::I16(_) => ValueKind::I16,
            Value::I32(_) => ValueKind::I32,
            Value::I128(_) => ValueKind::I128,
            Value::Isize(_) => ValueKind::Isize,
            Value::U8(_) => ValueKind::U8,
            Value::U16(_) => ValueKind::U16,
            Value::U32(_) => ValueKind::U32,
            Value::U128(_) => ValueKind::U128,
            Value::Usize(_) => ValueKind::Usize,
            Value::UInt(_) => ValueKind::UInt,
            Value::Char(_) => ValueKind::Char,
            Value::Str(_) => ValueKind::Str,
            Value::Array(_) => ValueKind::Array,
            Value::List(_) => ValueKind::List,
            Value::Tuple(_) => ValueKind::Tuple,
            Value::TupleStruct(_) => ValueKind::TupleStruct,
            Value::Struct(_) => ValueKind::Struct,
            Value::MapLike(_) => ValueKind::MapLike,
            Value::SetLike(_) => ValueKind::SetLike,
            Value::Enum(_) => ValueKind::Enum,
        }
    }

    /// The identifier of the value's own type: a primitive type or a dynamic container.
    pub open spec fn spec_ty_id(self) -> TypeId {
        match self {
            Value::Unit => UNIT_TYPE_ID,
            Value::Bool(_) => BOOL_TYPE_ID,
            Value::Int(_) => I64_TYPE_ID,
            Value::I8(_) => crate::info::I8_TYPE_ID,
            Value::I16(_) => crate::info::I16_TYPE_ID,
            Value::I32(_) => crate::info::I32_TYPE_ID,
            Value::I128(_) => crate::info::I128_TYPE_ID,
            Value::Isize(_) => crate::info::ISIZE_TYPE_ID,
            Value::U8(_) => crate::info::U8_TYPE_ID,
            Value::U16(_) => crate::info::U16_TYPE_ID,
            Value::U32(_) => crate::info::U32_TYPE_ID,
            Value::U128(_) => crate::info::U128_TYPE_ID,
            Value::Usize(_) => crate::info::USIZE_TYPE_ID,
            Value::UInt(_) => U64_TYPE_ID,
            Value::Char(_) => CHAR_TYPE_ID,
            Value::Str(_) => STRING_TYPE_ID,
            Value::Array(_) => DYNAMIC_ARRAY_TYPE_ID,
            Value::List(_) => DYNAMIC_LIST_TYPE_ID,
            Value::Tuple(_) => DYNAMIC_TUPLE_TYPE_ID,
            Value::TupleStruct(_) => DYNAMIC_TUPLE_STRUCT_TYPE_ID,
            Value::Struct(_) => DYNAMIC_STRUCT_TYPE_ID,
            Value::MapLike(_) => DYNAMIC_MAP_TYPE_ID,
            Value::SetLike(_) => DYNAMIC_SET_TYPE_ID,
            Value::Enum(_) => DYNAMIC_ENUM_TYPE_ID,
        }
    }

    /// The type information of the value's own type.
    pub open spec fn spec_reflect_type_info(self) -> TypeInfo {
        match self {
            Value::Unit => <() as Typed>::spec_type_info(),
            Value::Bool(_) => <bool as Typed>::spec_type_info(),
            Value::Int(_) => <i64 as Typed>::spec_type_info(),
            Value::I8(_) => <i8 as Typed>::spec_type_info(),
            Value::I16(_) => <i16 as Typed>::spec_type_info(),
            Value::I32(_) => <i32 as Typed>::spec_type_info(),
            Value::I128(_) => <i128 as Typed>::spec_type_info(),
            Value::Isize(_) => <isize as Typed>::spec_type_info(),
            Value::U8(_) => <u8 as Typed>::spec_type_info(),
            Value::U16(_) => <u16 as Typed>::spec_type_info(),
            Value::U32(_) => <u32 as Typed>::spec_type_info(),
            Value::U128(_) => <u128 as Typed>::spec_type_info(),
            Value::Usize(_) => <usize as Typed>::spec_type_info(),
            Value::UInt(_) => <u64 as Typed>::spec_type_info(),
            Value::Char(_) => <char as Typed>::spec_type_info(),
            Value::Str(_) => <String as Typed>::spec_type_info(),
            Value::Array(_) => <DynamicArray as Typed>::spec_type_info(),
            Value::List(_) => <DynamicList as Typed>::spec_type_info(),
            Value::Tuple(_) => <DynamicTuple as Typed>::spec_type_info(),
            Value::TupleStruct(_) => <DynamicTupleStruct as Typed>::spec_type_info(),
            Value::Struct(_) => <DynamicStruct as Typed>::spec_type_info(),
            Value::MapLike(_) => <DynamicMap as Typed>::spec_type_info(),
            Value::SetLike(_) => <DynamicSet as Typed>::spec_type_info(),
            Value::Enum(_) => <DynamicEnum as Typed>::spec_type_info(),
        }
    }

    /// Whether the value is of one of the primitive types.
    pub open spec fn spec_is_primitive(self) -> bool {
        self is Unit || self is Bool || self is Int || self is UInt || self is Char || self is Str
            || self.spec_is_integer()
    }

    /// Whether the value is of one of the integer types other than `i64` and `u64`.
    pub open spec fn spec_is_integer(self) -> bool {
        self is I8 || self is I16 || self is I32 || self is I128 || self is Isize || self is U8 || self is U16 || self is U32 || self is U128 || self is Usize
    }

    /// The type information that the value represents: a primitive value its own type, a dynamic
    /// container the type it was given, if any.
    pub open spec fn spec_represented(self) -> Option<TypeInfo> {
        match self {
            Value::Array(a) => a.spec_info(),
            Value::List(l) => l.spec_info(),
            Value::Tuple(t) => t.spec_info(),
            Value::TupleStruct(t) => t.spec_info(),
            Value::Struct(s) => s.spec_info(),
            Value::MapLike(m) => m.spec_info(),
            Value::SetLike(s) => s.spec_info(),
            Value::Enum(e) => e.spec_info(),
            _ => Some(self.spec_reflect_type_info()),
        }
    }

    /// The kind of the value.
    pub fn reflect_kind(&self) -> (r: ValueKind)
        ensures
            r == self.spec_kind(),
    {
        match self {
            Value::Unit => ValueKind::Unit,
            Value::Bool(_) => ValueKind::Bool,
            Value::Int(_) => ValueKind::Int,
            Value::UInt(_) => ValueKind::UInt,
            Value::I8(_) => ValueKind::I8,
            Value::I16(_) => ValueKind::I16,
            Value::I32(_) => ValueKind::I32,
            Value::I128(_) => ValueKind::I128,
            Value::Isize(_) => ValueKind::Isize,
            Value::U8(_) => ValueKind::U8,
            Value::U16(_) => ValueKind::U16,
            Value::U32(_) => ValueKind::U32,
            Value::U128(_) => ValueKind::U128,
            Value::Usize(_) => ValueKind::Usize,
            Value::Char(_) => ValueKind::Char,
            Value::Str(_) => ValueKind::Str,
            Value::Array(_) => ValueKind::Array,
            Value::List(_) => ValueKind::List,
            Value::Tuple(_) => ValueKind::Tuple,
            Value::TupleStruct(_) => ValueKind::TupleStruct,
            Value::Struct(_) => ValueKind::Struct,
            Value::MapLike(_) => ValueKind::MapLike,
            Value::SetLike(_) => ValueKind::SetLike,
            Value::Enum(_) => ValueKind::Enum,
        }
    }

    /// The identifier of the value's own type.
    pub fn ty_id(&self) -> (r: TypeId)
        ensures
            r == self.spec_ty_id(),
    {
        match self {
            Value::Unit => UNIT_TYPE_ID,
            Value::Bool(_) => BOOL_TYPE_ID,
            Value::Int(_) => I64_TYPE_ID,
            Value::UInt(_) => U64_TYPE_ID,
            Value::I8(_) => crate::info::I8_TYPE_ID,
            Value::I16(_) => crate::info::I16_TYPE_ID,
            Value::I32(_) => crate::info::I32_TYPE_ID,
            Value::I128(_) => crate::info::I128_TYPE_ID,
            Value::Isize(_) => crate::info::ISIZE_TYPE_ID,
            Value::U8(_) => crate::info::U8_TYPE_ID,
            Value::U16(_) => crate::info::U16_TYPE_ID,
            Value::U32(_) => crate::info::U32_TYPE_ID,
            Value::U128(_) => crate::info::U128_TYPE_ID,
            Value::Usize(_) => crate::info::USIZE_TYPE_ID,
            Value::Char(_) => CHAR_TYPE_ID,
            Value::Str(_) => STRING_TYPE_ID,
            Value::Array(_) => DYNAMIC_ARRAY_TYPE_ID,
            Value::List(_) => DYNAMIC_LIST_TYPE_ID,
            Value::Tuple(_) => DYNAMIC_TUPLE_TYPE_ID,
            Value::TupleStruct(_) => DYNAMIC_TUPLE_STRUCT_TYPE_ID,
            Value::Struct(_) => DYNAMIC_STRUCT_TYPE_ID,
            Value::MapLike(_) => DYNAMIC_MAP_TYPE_ID,
            Value::SetLike(_) => DYNAMIC_SET_TYPE_ID,
            Value::Enum(_) => DYNAMIC_ENUM_TYPE_ID,
        }
    }

    /// The type information of the value's own type.
    pub fn reflect_type_info(&self) -> (r: TypeInfo)
        ensures
            r == self.spec_reflect_type_info(),
            r.spec_ty().id == self.spec_ty_id(),
    {
        match self {
            Value::Unit => <() as Typed>::type_info(),
            Value::Bool(_) => <bool as Typed>::type_info(),
            Value::Int(_) => <i64 as Typed>::type_info(),
            Value::I8(_) => <i8 as Typed>::type_info(),
            Value::I16(_) => <i16 as Typed>::type_info(),
            Value::I32(_) => <i32 as Typed>::type_info(),
            Value::I128(_) => <i128 as Typed>::type_info(),
            Value::Isize(_) => <isize as Typed>::type_info(),
            Value::U8(_) => <u8 as Typed>::type_info(),
            Value::U16(_) => <u16 as Typed>::type_info(),
            Value::U32(_) => <u32 as Typed>::type_info(),
            Value::U128(_) => <u128 as Typed>::type_info(),
            Value::Usize(_) => <usize as Typed>::type_info(),
            Value::UInt(_) => <u64 as Typed>::type_info(),
            Value::Char(_) => <char as Typed>::type_info(),
            Value::Str(_) => <String as Typed>::type_info(),
            Value::Array(_) => <DynamicArray as Typed>::type_info(),
            Value::List(_) => <DynamicList as Typed>::type_info(),
            Value::Tuple(_) => <DynamicTuple as Typed>::type_info(),
            Value::TupleStruct(_) => <DynamicTupleStruct as Typed>::type_info(),
            Value::Struct(_) => <DynamicStruct as Typed>::type_info(),
            Value::MapLike(_) => <DynamicMap as Typed>::type_info(),
            Value::SetLike(_) => <DynamicSet as Typed>::type_info(),
            Value::Enum(_) => <DynamicEnum as Typed>::type_info(),
        }
    }

    /// The full path of the value's own type.
    pub fn reflect_type_path(&self) -> (r: &'static str)
        ensures
            r == self.spec_reflect_type_info().spec_ty().path,
    {
        self.reflect_type_info().type_path()
    }

    /// Whether the value is a dynamic container.
    pub fn is_dynamic(&self) -> (r: bool)
        ensures
            r == !self.spec_is_primitive(),
    {
        match self {
            Value::Array(_) | Value::List(_) | Value::Tuple(_) | Value::TupleStruct(_) => true,
            Value::Struct(_) | Value::MapLike(_) | Value::SetLike(_) | Value::Enum(_) => true,
            _ => false,
        }
    }

    /// The type information that the value represents.
    pub fn represented_type_info(&self) -> (r: Option<TypeInfo>)
        ensures
            r == self.spec_represented(),
    {
        match self {
            Value::Array(a) => a.represented_type_info(),
            Value::List(l) => l.represented_type_info(),
            Value::Tuple(t) => t.represented_type_info(),
            Value::TupleStruct(t) => t.represented_type_info(),
            Value::Struct(s) => s.represented_type_info(),
            Value::MapLike(m) => m.represented_type_info(),
            Value::SetLike(s) => s.represented_type_info(),
            Value::Enum(e) => e.represented_type_info(),
            _ => Some(self.reflect_type_info()),
        }
    }

    /// A copy of the value made of dynamic containers: same content, same represented type.
    pub fn to_dynamic(&self) -> (r: Value)
        ensures
            r.deep() == self.deep(),
            r.marks() == self.marks(),
            r.spec_represented() == self.spec_represented(),
            r.spec_kind() == self.spec_kind(),
        decreases self,
    {
        match self {
            Value::Unit => Value::Unit,
            Value::Bool(b) => Value::Bool(*b),
            Value::Int(i) => Value::Int(*i),
            Value::I8(x) => Value::I8(*x),
            Value::I16(x) => Value::I16(*x),
            Value::I32(x) => Value::I32(*x),
            Value::I128(x) => Value::I128(*x),
            Value::Isize(x) => Value::Isize(*x),
            Value::U8(x) => Value::U8(*x),
            Value::U16(x) => Value::U16(*x),
            Value::U32(x) => Value::U32(*x),
            Value::U128(x) => Value::U128(*x),
            Value::Usize(x) => Value::Usize(*x),
            Value::UInt(u) => Value::UInt(*u),
            Value::Char(c) => Value::Char(*c),
            Value::Str(s) => Value::Str(s.clone()),
            Value::Array(a) => {
                proof {
                    a.lemma_decreases();
                }
                Value::Array(a.to_dynamic_array())
            },
            Value::List(l) => {
                proof {
                    l.lemma_decreases();
                }
                Value::List(l.to_dynamic_list())
            },
            Value::Tuple(t) => {
                proof {
                    t.lemma_decreases();
                }
                Value::Tuple(t.to_dynamic_tuple())
            },
            Value::TupleStruct(t) => {
                proof {
                    t.lemma_decreases();
                }
                Value::TupleStruct(t.to_dynamic_tuple_struct())
            },
            Value::Struct(s) => {
                proof {
                    s.lemma_decreases();
                }
                Value::Struct(s.to_dynamic_struct())
            },
            Value::MapLike(m) => {
                proof {
                    m.lemma_decreases();
                }
                Value::MapLike(m.to_dynamic_map())
            },
            Value::SetLike(s) => {
                proof {
                    s.lemma_decreases();
                }
                Value::SetLike(s.to_dynamic_set())
            },
            Value::Enum(e) => {
                proof {
                    e.lemma_decreases();
                }
                Value::Enum(e.to_dynamic_enum())
            },
        }
    }

    /// Clones the value; every value of this library can be cloned.
    pub fn reflect_clone(&self) -> (r: Result<Value, ReflectCloneError>)
        ensures
            r matches Ok(v) && v.deep() == self.deep() && v.marks() == self.marks()
                && v.spec_represented() == self.spec_represented(),
    {
        Ok(self.to_dynamic())
    }

    /// Compares two values as reflection does: maps by their entries and sets by their values,
    /// whatever their order; everything else by content, in order.
    pub fn reflect_eq(&self, other: &Value) -> (r: bool)
        ensures
            r == data_eq(self.deep(), other.deep()),
        decreases self, 0nat,
    {
        match (self, other) {
            (Value::Array(a), Value::Array(b)) => {
                proof {
                    a.lemma_decreases();
                }
                seq_data_eq(a.items(), b.items())
            },
            (Value::List(a), Value::List(b)) => {
                proof {
                    a.lemma_decreases();
                }
                seq_data_eq(a.items(), b.items())
            },
            (Value::Tuple(a), Value::Tuple(b)) => {
                proof {
                    a.lemma_decreases();
                }
                seq_data_eq(a.items(), b.items())
            },
            (Value::TupleStruct(a), Value::TupleStruct(b)) => {
                proof {
                    a.lemma_decreases();
                }
                seq_data_eq(a.items(), b.items())
            },
            (Value::Struct(a), Value::Struct(b)) => {
                proof {
                    a.lemma_decreases();
                }
                fields_data_eq(a.items(), b.items())
            },
            (Value::MapLike(a), Value::MapLike(b)) => {
                proof {
                    a.lemma_decreases();
                }
                map_data_eq(a.items(), b.items())
            },
            (Value::SetLike(a), Value::SetLike(b)) => {
                proof {
                    a.lemma_decreases();
                }
                set_data_eq(a.items(), b.items())
            },
            (Value::Enum(a), Value::Enum(b)) => {
                proof {
                    a.lemma_decreases();
                }
                let same_name = crate::info::str_eq(a.variant_name(), b.variant_name());
                if !same_name || a.variant_index() != b.variant_index() {
                    return false;
                }
                match (a.variant(), b.variant()) {
                    (DynamicVariant::Unit, DynamicVariant::Unit) => true,
                    (DynamicVariant::Tuple(x), DynamicVariant::Tuple(y)) => {
                        proof {
                            x.lemma_decreases();
                        }
                        seq_data_eq(x.items(), y.items())
                    },
                    (DynamicVariant::Struct(x), DynamicVariant::Struct(y)) => {
                        proof {
                            x.lemma_decreases();
                        }
                        fields_data_eq(x.items(), y.items())
                    },
                    _ => false,
                }
            },
            _ => self.content_eq(other),
        }
    }

    /// Whether two values compare equal under reflection's equality each way round: how sets
    /// and maps match values and keys.
    pub fn same_as(&self, other: &Value) -> (r: bool)
        ensures
            r == same_content(self.deep(), other.deep()),
    {
        self.reflect_eq(other) && other.reflect_eq(self)
    }

    /// Whether two values have the same content, map entries and set values in the same order.
    pub fn content_eq(&self, other: &Value) -> (r: bool)
        ensures
            r == (self.deep() == other.deep()),
        decreases self,
    {
        match (self, other) {
            (Value::Unit, Value::Unit) => true,
            (Value::Bool(a), Value::Bool(b)) => *a == *b,
            (Value::Int(a), Value::Int(b)) => *a == *b,
            (Value::I8(a), Value::I8(b)) => *a == *b,
            (Value::I16(a), Value::I16(b)) => *a == *b,
            (Value::I32(a), Value::I32(b)) => *a == *b,
            (Value::I128(a), Value::I128(b)) => *a == *b,
            (Value::Isize(a), Value::Isize(b)) => *a == *b,
            (Value::U8(a), Value::U8(b)) => *a == *b,
            (Value::U16(a), Value::U16(b)) => *a == *b,
            (Value::U32(a), Value::U32(b)) => *a == *b,
            (Value::U128(a), Value::U128(b)) => *a == *b,
            (Value::Usize(a), Value::Usize(b)) => *a == *b,
            (Value::UInt(a), Value::UInt(b)) => *a == *b,
            (Value::Char(a), Value::Char(b)) => *a == *b,
            (Value::Str(a), Value::Str(b)) => *a == *b,
            (Value::Array(a), Value::Array(b)) => {
                proof {
                    a.lemma_decreases();
                }
                eq_values(a.items(), b.items())
            },
            (Value::List(a), Value::List(b)) => {
                proof {
                    a.lemma_decreases();
                }
                eq_values(a.items(), b.items())
            },
            (Value::Tuple(a), Value::Tuple(b)) => {
                proof {
                    a.lemma_decreases();
                }
                eq_values(a.items(), b.items())
            },
            (Value::TupleStruct(a), Value::TupleStruct(b)) => {
                proof {
                    a.lemma_decreases();
                }
                eq_values(a.items(), b.items())
            },
            (Value::Struct(a), Value::Struct(b)) => {
                proof {
                    a.lemma_decreases();
                }
                eq_fields(a.items(), b.items())
            },
            (Value::MapLike(a), Value::MapLike(b)) => {
                proof {
                    a.lemma_decreases();
                }
                eq_entries(a.items(), b.items())
            },
            (Value::SetLike(a), Value::SetLike(b)) => {
                proof {
                    a.lemma_decreases();
                }
                eq_values(a.items(), b.items())
            },
            (Value::Enum(a), Value::Enum(b)) => {
                proof {
                    a.lemma_decreases();
                }
                let same_name = crate::info::str_eq(a.variant_name(), b.variant_name());
                if !same_name || a.variant_index() != b.variant_index() {
                    return false;
                }
                match (a.variant(), b.variant()) {
                    (DynamicVariant::Unit, DynamicVariant::Unit) => true,
                    (DynamicVariant::Tuple(x), DynamicVariant::Tuple(y)) => {
                        proof {
                            x.lemma_decreases();
                        }
                        eq_values(x.items(), y.items())
                    },
                    (DynamicVariant::Struct(x), DynamicVariant::Struct(y)) => {
                        proof {
                            x.lemma_decreases();
                        }
                        eq_fields(x.items(), y.items())
                    },
                    _ => false,
                }
            },
            _ => false,
        }
    }
}

/// Copies a sequence of values.
pub fn clone_values(v: &Vec<Value>) -> (r: Vec<Value>)
    ensures
        deep_seq(r@) == deep_seq(v@),
        marks_seq(r@) == marks_seq(v@),
    decreases v@,
{
    broadcast use group_deep;

    let mut out: Vec<Value> = Vec::new();
    let mut k: usize = 0;
    while k < v.len()
        invariant
            k <= v@.len(),
            out@.len() == k,
            forall|j: int| 0 <= j < k ==> #[trigger] out@[j].deep() == v@[j].deep(),
            forall|j: int| 0 <= j < k ==> #[trigger] out@[j].marks() == v@[j].marks(),
        decreases v@.len() - k,
    {
        let c = v[k].to_dynamic();
        out.push(c);
        k = k + 1;
    }
    assert(deep_seq(out@) =~= deep_seq(v@));
    assert(marks_seq(out@) =~= marks_seq(v@));
    out
}

/// Copies a sequence of named fields.
pub fn clone_fields(v: &Vec<(String, Value)>) -> (r: Vec<(String, Value)>)
    ensures
        names_of(r@) == names_of(v@),
        deep_fields(r@) == deep_fields(v@),
        marks_fields(r@) == marks_fields(v@),
    decreases v@,
{
    broadcast use group_deep;

    let mut out: Vec<(String, Value)> = Vec::new();
    let mut k: usize = 0;
    while k < v.len()
        invariant
            k <= v@.len(),
            out@.len() == k,
            forall|j: int| #![trigger out@[j]] 0 <= j < k ==> out@[j].1.deep() == v@[j].1.deep(),
            forall|j: int| #![trigger out@[j]] 0 <= j < k ==> out@[j].1.marks() == v@[j].1.marks(),
            forall|j: int| #![trigger out@[j]] 0 <= j < k ==> out@[j].0@ == v@[j].0@,
        decreases v@.len() - k,
    {
        let name = v[k].0.clone();
        let c = v[k].1.to_dynamic();
        out.push((name, c));
        k = k + 1;
    }
    assert(deep_fields(out@) =~= deep_fields(v@));
    assert(names_of(out@) =~= names_of(v@));
    assert(marks_fields(out@) =~= marks_fields(v@));
    out
}

/// Copies a sequence of map entries.
pub fn clone_entries(v: &Vec<(Value, Value)>) -> (r: Vec<(Value, Value)>)
    ensures
        deep_entries(r@) == deep_entries(v@),
        marks_entries(r@) == marks_entries(v@),
    decreases v@,
{
    broadcast use group_deep;

    let mut out: Vec<(Value, Value)> = Vec::new();
    let mut k: usize = 0;
    while k < v.len()
        invariant
            k <= v@.len(),
            out@.len() == k,
            forall|j: int| #![trigger out@[j]] 0 <= j < k ==> out@[j].0.deep() == v@[j].0.deep(),
            forall|j: int| #![trigger out@[j]] 0 <= j < k ==> out@[j].1.deep() == v@[j].1.deep(),
            forall|j: int| #![trigger out@[j]] 0 <= j < k ==> out@[j].0.marks() == v@[j].0.marks(),
            forall|j: int| #![trigger out@[j]] 0 <= j < k ==> out@[j].1.marks() == v@[j].1.marks(),
        decreases v@.len() - k,
    {
        let a = v[k].0.to_dynamic();
        let b = v[k].1.to_dynamic();
        out.push((a, b));
        k = k + 1;
    }
    assert(deep_entries(out@) =~= deep_entries(v@));
    assert(marks_entries(out@) =~= marks_entries(v@));
    out
}

/// Compares two sequences of values by content.
pub fn eq_values(a: &Vec<Value>, b: &Vec<Value>) -> (r: bool)
    ensures
        r == (deep_seq(a@) == deep_seq(b@)),
    decreases a@,
{
    broadcast use group_deep;

    if a.len() != b.len() {
        proof {
            assert(deep_seq(a@).len() != deep_seq(b@).len());
        }
        return false;
    }
    let mut k: usize = 0;
    while k < a.len()
        invariant
            k <= a@.len(),
            a@.len() == b@.len(),
            forall|j: int| 0 <= j < k ==> #[trigger] a@[j].deep() == b@[j].deep(),
        decreases a@.len() - k,
    {
        if !a[k].content_eq(&b[k]) {
            proof {
                assert(deep_seq(a@)[k as int] != deep_seq(b@)[k as int]);
            }
            return false;
        }
        k = k + 1;
    }
    assert(deep_seq(a@) =~= deep_seq(b@));
    true
}

/// Compares two sequences of named fields by names and contents.
pub fn eq_fields(a: &Vec<(String, Value)>, b: &Vec<(String, Value)>) -> (r: bool)
    ensures
        r == (names_of(a@) == names_of(b@) && deep_fields(a@) == deep_fields(b@)),
    decreases a@,
{
    broadcast use group_deep;

    if a.len() != b.len() {
        proof {
            assert(names_of(a@).len() != names_of(b@).len());
        }
        return false;
    }
    let mut k: usize = 0;
    while k < a.len()
        invariant
            k <= a@.len(),
            a@.len() == b@.len(),
            forall|j: int| #![trigger a@[j]] 0 <= j < k ==> a@[j].1.deep() == b@[j].1.deep(),
            forall|j: int| #![trigger a@[j]] 0 <= j < k ==> a@[j].0@ == b@[j].0@,
        decreases a@.len() - k,
    {
        if a[k].0 != b[k].0 {
            proof {
                assert(names_of(a@)[k as int] != names_of(b@)[k as int]);
            }
            return false;
        }
        if !a[k].1.content_eq(&b[k].1) {
            proof {
                assert(deep_fields(a@)[k as int] != deep_fields(b@)[k as int]);
            }
            return false;
        }
        k = k + 1;
    }
    assert(deep_fields(a@) =~= deep_fields(b@));
    assert(names_of(a@) =~= names_of(b@));
    true
}

/// Compares two sequences of map entries by content, in order.
pub fn eq_entries(a: &Vec<(Value, Value)>, b: &Vec<(Value, Value)>) -> (r: bool)
    ensures
        r == (deep_entries(a@) == deep_entries(b@)),
    decreases a@,
{
    broadcast use group_deep;

    if a.len() != b.len() {
        proof {
            assert(deep_entries(a@).len() != deep_entries(b@).len());
        }
        return false;
    }
    let mut k: usize = 0;
    while k < a.len()
        invariant
            k <= a@.len(),
            a@.len() == b@.len(),
            forall|j: int| #![trigger a@[j]] 0 <= j < k ==> a@[j].0.deep() == b@[j].0.deep(),
            forall|j: int| #![trigger a@[j]] 0 <= j < k ==> a@[j].1.deep() == b@[j].1.deep(),
        decreases a@.len() - k,
    {
        if !a[k].0.content_eq(&b[k].0) {
            proof {
                assert(deep_entries(a@)[k as int] != deep_entries(b@)[k as int]);
            }
            return false;
        }
        if !a[k].1.content_eq(&b[k].1) {
            proof {
                assert(deep_entries(a@)[k as int] != deep_entries(b@)[k as int]);
            }
            return false;
        }
        k = k + 1;
    }
    assert(deep_entries(a@) =~= deep_entries(b@));
    true
}

/// Compares two sequences of values in pairs, as reflection compares values.
pub fn seq_data_eq(a: &Vec<Value>, b: &Vec<Value>) -> (r: bool)
    ensures
        r == (deep_seq(a@).len() == deep_seq(b@).len() && seqs_eq(
            deep_seq(a@),
            deep_seq(b@),
            deep_seq(a@).len(),
        )),
    decreases a@, 0nat,
{
    broadcast use group_deep;

    if a.len() != b.len() {
        return false;
    }
    let ghost x = deep_seq(a@);
    let ghost y = deep_seq(b@);
    let mut all = true;
    let mut k: usize = 0;
    while k < a.len()
        invariant
            k <= a@.len(),
            a@.len() == b@.len(),
            x == deep_seq(a@),
            y == deep_seq(b@),
            all == seqs_eq(x, y, k as nat),
        decreases a@.len() - k,
    {
        let e = a[k].reflect_eq(&b[k]);
        all = all && e;
        k = k + 1;
    }
    all
}

/// Compares two sequences of named fields: the same names in order, the values in pairs as
/// reflection compares values.
pub fn fields_data_eq(a: &Vec<(String, Value)>, b: &Vec<(String, Value)>) -> (r: bool)
    ensures
        r == (names_of(a@) == names_of(b@) && deep_fields(a@).len() == deep_fields(b@).len()
            && seqs_eq(deep_fields(a@), deep_fields(b@), deep_fields(a@).len())),
    decreases a@, 0nat,
{
    broadcast use group_deep;

    if a.len() != b.len() {
        proof {
            assert(names_of(a@).len() != names_of(b@).len());
        }
        return false;
    }
    let ghost x = deep_fields(a@);
    let ghost y = deep_fields(b@);
    let mut all = true;
    let mut names = true;
    let mut k: usize = 0;
    while k < a.len()
        invariant
            k <= a@.len(),
            a@.len() == b@.len(),
            x == deep_fields(a@),
            y == deep_fields(b@),
            all == seqs_eq(x, y, k as nat),
            names == (forall|j: int| 0 <= j < k ==> #[trigger] a@[j].0@ == b@[j].0@),
        decreases a@.len() - k,
    {
        let e = a[k].1.reflect_eq(&b[k].1);
        all = all && e;
        let same = a[k].0 == b[k].0;
        proof {
            if !same {
                assert(a@[k as int].0@ != b@[k as int].0@);
            }
        }
        names = names && same;
        k = k + 1;
    }
    proof {
        if names {
            assert(names_of(a@) =~= names_of(b@));
        } else {
            let j = choose|j: int| 0 <= j < a@.len() && a@[j].0@ != b@[j].0@;
            assert(names_of(a@)[j] != names_of(b@)[j]);
        }
    }
    all && names
}

/// Whether one of the values equals `v` as reflection compares values.
fn value_in_exec(v: &Value, b: &Vec<Value>) -> (r: bool)
    ensures
        r == value_in(v.deep(), deep_seq(b@), b@.len()),
    decreases v, 1nat,
{
    broadcast use group_deep;

    let ghost y = deep_seq(b@);
    let mut found = false;
    let mut j: usize = 0;
    while j < b.len()
        invariant
            j <= b@.len(),
            y == deep_seq(b@),
            found == value_in(v.deep(), y, j as nat),
        decreases b@.len() - j,
    {
        let e = v.reflect_eq(&b[j]);
        found = e || found;
        j = j + 1;
    }
    found
}

/// Compares two sets as reflection does: the same number of values, each of one equal to a
/// value of the other.
pub fn set_data_eq(a: &Vec<Value>, b: &Vec<Value>) -> (r: bool)
    ensures
        r == (deep_seq(a@).len() == deep_seq(b@).len() && values_in(
            deep_seq(a@),
            deep_seq(b@),
            deep_seq(a@).len(),
        )),
    decreases a@, 0nat,
{
    broadcast use group_deep;

    if a.len() != b.len() {
        return false;
    }
    let ghost x = deep_seq(a@);
    let ghost y = deep_seq(b@);
    let mut all = true;
    let mut k: usize = 0;
    while k < a.len()
        invariant
            k <= a@.len(),
            a@.len() == b@.len(),
            x == deep_seq(a@),
            y == deep_seq(b@),
            all == values_in(x, y, k as nat),
        decreases a@.len() - k,
    {
        let e = value_in_exec(&a[k], b);
        all = all && e;
        k = k + 1;
    }
    all
}

/// Whether one of the entries has a key and a value equal to those of `e`, as reflection
/// compares values.
fn entry_in_exec(e: &(Value, Value), b: &Vec<(Value, Value)>) -> (r: bool)
    ensures
        r == entry_in((e.0.deep(), e.1.deep()), deep_entries(b@), b@.len()),
    decreases e, 1nat,
{
    broadcast use group_deep;

    let ghost y = deep_entries(b@);
    let mut found = false;
    let mut j: usize = 0;
    while j < b.len()
        invariant
            j <= b@.len(),
            y == deep_entries(b@),
            found == entry_in((e.0.deep(), e.1.deep()), y, j as nat),
        decreases b@.len() - j,
    {
        let k = e.0.reflect_eq(&b[j].0);
        let v = e.1.reflect_eq(&b[j].1);
        found = (k && v) || found;
        j = j + 1;
    }
    found
}

/// Compares two maps as reflection does: the same number of entries, each of one matched by
/// an entry of the other with an equal key and an equal value.
pub fn map_data_eq(a: &Vec<(Value, Value)>, b: &Vec<(Value, Value)>) -> (r: bool)
    ensures
        r == (deep_entries(a@).len() == deep_entries(b@).len() && entries_in(
            deep_entries(a@),
            deep_entries(b@),
            deep_entries(a@).len(),
        )),
    decreases a@, 0nat,
{
    broadcast use group_deep;

    if a.len() != b.len() {
        return false;
    }
    let ghost x = deep_entries(a@);
    let ghost y = deep_entries(b@);
    let mut all = true;
    let mut k: usize = 0;
    while k < a.len()
        invariant
            k <= a@.len(),
            a@.len() == b@.len(),
            x == deep_entries(a@),
            y == deep_entries(b@),
            all == entries_in(x, y, k as nat),
        decreases a@.len() - k,
    {
        let e = entry_in_exec(&a[k], b);
        all = all && e;
        k = k + 1;
    }
    all
}

proof fn lemma_value_in_at(e: Data, y: Seq<Data>, m: nat, j: int)
    requires
        0 <= j < m <= y.len(),
        data_eq(e, y[j]),
    ensures
        value_in(e, y, m),
    decreases m,
{
    if j < m - 1 {
        lemma_value_in_at(e, y, (m - 1) as nat, j);
    }
}

proof fn lemma_entry_in_at(e: (Data, Data), y: Seq<(Data, Data)>, m: nat, j: int)
    requires
        0 <= j < m <= y.len(),
        data_eq(e.0, y[j].0),
        data_eq(e.1, y[j].1),
    ensures
        entry_in(e, y, m),
    decreases m,
{
    if j < m - 1 {
        lemma_entry_in_at(e, y, (m - 1) as nat, j);
    }
}

proof fn lemma_seqs_eq_refl(x: Seq<Data>, n: nat)
    requires
        n <= x.len(),
    ensures
        seqs_eq(x, x, n),
    decreases x, n,
{
    if n > 0 {
        lemma_seqs_eq_refl(x, (n - 1) as nat);
        lemma_data_eq_refl(x[n - 1]);
    }
}

proof fn lemma_values_in_refl(x: Seq<Data>, n: nat)
    requires
        n <= x.len(),
    ensures
        values_in(x, x, n),
    decreases x, n,
{
    if n > 0 {
        lemma_values_in_refl(x, (n - 1) as nat);
        lemma_data_eq_refl(x[n - 1]);
        lemma_value_in_at(x[n - 1], x, x.len(), n - 1);
    }
}

proof fn lemma_entries_in_refl(x: Seq<(Data, Data)>, n: nat)
    requires
        n <= x.len(),
    ensures
        entries_in(x, x, n),
    decreases x, n,
{
    if n > 0 {
        lemma_entries_in_refl(x, (n - 1) as nat);
        lemma_data_eq_refl(x[n - 1].0);
        lemma_data_eq_refl(x[n - 1].1);
        lemma_entry_in_at(x[n - 1], x, x.len(), n - 1);
    }
}

/// Every content is equal to itself as reflection compares contents.
pub proof fn lemma_data_eq_refl(a: Data)
    ensures
        data_eq(a, a),
    decreases a, 1nat,
{
    match a {
        Data::Array(x) => lemma_seqs_eq_refl(x, x.len()),
        Data::List(x) => lemma_seqs_eq_refl(x, x.len()),
        Data::Tuple(x) => lemma_seqs_eq_refl(x, x.len()),
        Data::TupleStruct(x) => lemma_seqs_eq_refl(x, x.len()),
        Data::Struct(_, x) => lemma_seqs_eq_refl(x, x.len()),
        Data::MapLike(x) => lemma_entries_in_refl(x, x.len()),
        Data::SetLike(x) => lemma_values_in_refl(x, x.len()),
        Data::Enum(_, _, v) => match v {
            VariantData::Unit => {},
            VariantData::Tuple(x) => lemma_seqs_eq_refl(x, x.len()),
            VariantData::Struct(_, x) => lemma_seqs_eq_refl(x, x.len()),
        },
        _ => {},
    }
}

/// Two values of the same content compare equal under reflection's equality; in particular
/// every value equals each of its copies.
pub proof fn lemma_reflect_eq_of_equal_content(a: Value, b: Value)
    requires
        a.deep() == b.deep(),
    ensures
        data_eq(a.deep(), b.deep()),
{
    lemma_data_eq_refl(a.deep());
}

proof fn lemma_value_in_witness(e: Data, y: Seq<Data>, m: nat) -> (j: int)
    requires
        value_in(e, y, m),
    ensures
        0 <= j < m <= y.len(),
        data_eq(e, y[j]),
    decreases m,
{
    if data_eq(e, y[m - 1]) {
        (m - 1) as int
    } else {
        lemma_value_in_witness(e, y, (m - 1) as nat)
    }
}

proof fn lemma_entry_in_witness(e: (Data, Data), y: Seq<(Data, Data)>, m: nat) -> (j: int)
    requires
        entry_in(e, y, m),
    ensures
        0 <= j < m <= y.len(),
        data_eq(e.0, y[j].0),
        data_eq(e.1, y[j].1),
    decreases m,
{
    if data_eq(e.0, y[m - 1].0) && data_eq(e.1, y[m - 1].1) {
        (m - 1) as int
    } else {
        lemma_entry_in_witness(e, y, (m - 1) as nat)
    }
}

proof fn lemma_values_in_elem(x: Seq<Data>, y: Seq<Data>, n: nat, j: int)
    requires
        values_in(x, y, n),
        0 <= j < n <= x.len(),
    ensures
        value_in(x[j], y, y.len()),
    decreases n,
{
    if j < n - 1 {
        lemma_values_in_elem(x, y, (n - 1) as nat, j);
    }
}

proof fn lemma_entries_in_elem(x: Seq<(Data, Data)>, y: Seq<(Data, Data)>, n: nat, j: int)
    requires
        entries_in(x, y, n),
        0 <= j < n <= x.len(),
    ensures
        entry_in(x[j], y, y.len()),
    decreases n,
{
    if j < n - 1 {
        lemma_entries_in_elem(x, y, (n - 1) as nat, j);
    }
}

proof fn lemma_seqs_eq_trans(x: Seq<Data>, y: Seq<Data>, z: Seq<Data>, n: nat)
    requires
        n <= x.len(),
        x.len() == y.len(),
        y.len() == z.len(),
        seqs_eq(x, y, n),
        seqs_eq(y, z, n),
    ensures
        seqs_eq(x, z, n),
    decreases x, n,
{
    if n > 0 {
        lemma_seqs_eq_trans(x, y, z, (n - 1) as nat);
        lemma_data_eq_trans(x[n - 1], y[n - 1], z[n - 1]);
    }
}

proof fn lemma_values_in_trans(x: Seq<Data>, y: Seq<Data>, z: Seq<Data>, n: nat)
    requires
        n <= x.len(),
        values_in(x, y, n),
        values_in(y, z, y.len()),
    ensures
        values_in(x, z, n),
    decreases x, n,
{
    if n > 0 {
        lemma_values_in_trans(x, y, z, (n - 1) as nat);
        let j = lemma_value_in_witness(x[n - 1], y, y.len());
        lemma_values_in_elem(y, z, y.len(), j);
        let k = lemma_value_in_witness(y[j], z, z.len());
        lemma_data_eq_trans(x[n - 1], y[j], z[k]);
        lemma_value_in_at(x[n - 1], z, z.len(), k);
    }
}

proof fn lemma_entries_in_trans(x: Seq<(Data, Data)>, y: Seq<(Data, Data)>, z: Seq<(Data, Data)>, n: nat)
    requires
        n <= x.len(),
        entries_in(x, y, n),
        entries_in(y, z, y.len()),
    ensures
        entries_in(x, z, n),
    decreases x, n,
{
    if n > 0 {
        lemma_entries_in_trans(x, y, z, (n - 1) as nat);
        let j = lemma_entry_in_witness(x[n - 1], y, y.len());
        lemma_entries_in_elem(y, z, y.len(), j);
        let k = lemma_entry_in_witness(y[j], z, z.len());
        lemma_data_eq_trans(x[n - 1].0, y[j].0, z[k].0);
        lemma_data_eq_trans(x[n - 1].1, y[j].1, z[k].1);
        lemma_entry_in_at(x[n - 1], z, z.len(), k);
    }
}

/// Equality of contents as reflection compares them is transitive.
pub proof fn lemma_data_eq_trans(a: Data, b: Data, c: Data)
    requires
        data_eq(a, b),
        data_eq(b, c),
    ensures
        data_eq(a, c),
    decreases a, 1nat,
{
    match (a, b, c) {
        (Data::Array(x), Data::Array(y), Data::Array(z)) => lemma_seqs_eq_trans(x, y, z, x.len()),
        (Data::List(x), Data::List(y), Data::List(z)) => lemma_seqs_eq_trans(x, y, z, x.len()),
        (Data::Tuple(x), Data::Tuple(y), Data::Tuple(z)) => lemma_seqs_eq_trans(x, y, z, x.len()),
        (Data::TupleStruct(x), Data::TupleStruct(y), Data::TupleStruct(z)) => lemma_seqs_eq_trans(x, y, z, x.len()),
        (Data::Struct(_, x), Data::Struct(_, y), Data::Struct(_, z)) => lemma_seqs_eq_trans(x, y, z, x.len()),
        (Data::MapLike(x), Data::MapLike(y), Data::MapLike(z)) => lemma_entries_in_trans(x, y, z, x.len()),
        (Data::SetLike(x), Data::SetLike(y), Data::SetLike(z)) => lemma_values_in_trans(x, y, z, x.len()),
        (Data::Enum(_, _, v1), Data::Enum(_, _, v2), Data::Enum(_, _, v3)) => match (v1, v2, v3) {
            (VariantData::Tuple(x), VariantData::Tuple(y), VariantData::Tuple(z)) => lemma_seqs_eq_trans(x, y, z, x.len()),
            (VariantData::Struct(_, x), VariantData::Struct(_, y), VariantData::Struct(_, z)) => lemma_seqs_eq_trans(x, y, z, x.len()),
            _ => {},
        },
        _ => {},
    }
}

/// Whether two contents are equal as reflection compares them, each way round: the relation by
/// which sets and maps tell their values and keys apart.
pub open spec fn same_content(a: Data, b: Data) -> bool {
    data_eq(a, b) && data_eq(b, a)
}

/// `same_content` is reflexive, symmetric and transitive.
pub proof fn lemma_same_content_equivalence(a: Data, b: Data, c: Data)
    ensures
        same_content(a, a),
        same_content(a, b) == same_content(b, a),
        same_content(a, b) && same_content(b, c) ==> same_content(a, c),
{
    lemma_data_eq_refl(a);
    if same_content(a, b) && same_content(b, c) {
        lemma_data_eq_trans(a, b, c);
        lemma_data_eq_trans(c, b, a);
    }
}

/// Contents related to one content by `same_content` are related to each other.
pub proof fn lemma_same_content_via(a: Data, b: Data, v: Data)
    requires
        same_content(a, v),
        same_content(b, v),
    ensures
        same_content(a, b),
{
    lemma_data_eq_trans(a, v, b);
    lemma_data_eq_trans(b, v, a);
}

} // verus!
