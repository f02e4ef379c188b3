//! The serialized form of reflected values: the data model of serialization formats.
use vstd::prelude::*;

verus! {

/// A value in the data model of serialization formats.
///
/// Serialization produces it from a reflected value; a format writes it out.
/// Deserialization reads it back, guided by the type information of a registry.
pub enum Serial {
    Unit,
    Bool(bool),
    I64(i64),
    U64(u64),
    I8(i8),
    I16(i16),
    I32(i32),
    I128(i128),
    U8(u8),
    U16(u16),
    U32(u32),
    U128(u128),
    Char(char),
    Str(String),
    OptionNone,
    OptionSome(Box<Serial>),
    UnitVariant { name: &'static str, index: u32, variant: &'static str },
    NewtypeStruct { name: &'static str, value: Box<Serial> },
    NewtypeVariant { name: &'static str, index: u32, variant: &'static str, value: Box<Serial> },
    Sequence(Vec<Serial>),
    Tuple(Vec<Serial>),
    TupleStruct { name: &'static str, fields: Vec<Serial> },
    TupleVariant { name: &'static str, index: u32, variant: &'static str, fields: Vec<Serial> },
    Mapping(Vec<(Serial, Serial)>),
    Struct { name: &'static str, fields: Vec<(&'static str, Serial)> },
    StructVariant {
        name: &'static str,
        index: u32,
        variant: &'static str,
        fields: Vec<(&'static str, Serial)>,
    },
}

/// The mathematical content of a serialized value.
pub enum SerialData {
    Unit,
    Bool(bool),
    I64(int),
    U64(int),
    I8(int),
    I16(int),
    I32(int),
    I128(int),
    U8(int),
    U16(int),
    U32(int),
    U128(int),
    Char(char),
    Str(Seq<char>),
    OptionNone,
    OptionSome(Box<SerialData>),
    UnitVariant { name: Seq<char>, index: int, variant: Seq<char> },
    NewtypeStruct { name: Seq<char>, value: Box<SerialData> },
    NewtypeVariant { name: Seq<char>, index: int, variant: Seq<char>, value: Box<SerialData> },
    Sequence(Seq<SerialData>),
    Tuple(Seq<SerialData>),
    TupleStruct { name: Seq<char>, fields: Seq<SerialData> },
    TupleVariant { name: Seq<char>, index: int, variant: Seq<char>, fields: Seq<SerialData> },
    Mapping(Seq<(SerialData, SerialData)>),
    Struct { name: Seq<char>, fields: Seq<(Seq<char>, SerialData)> },
    StructVariant {
        name: Seq<char>,
        index: int,
        variant: Seq<char>,
        fields: Seq<(Seq<char>, SerialData)>,
    },
}

/// The content of a sequence of serialized values.
pub open spec fn serial_seq(s: Seq<Serial>) -> Seq<SerialData>
    decreases s,
{
    Seq::new(
        s.len(),
        |i: int|
            if 0 <= i < s.len() {
                s[i].data()
            } else {
                SerialData::Unit
            },
    )
}

/// The content of a sequence of serialized map entries.
pub open spec fn serial_entries(s: Seq<(Serial, Serial)>) -> Seq<(SerialData, SerialData)>
    decreases s,
{
    Seq::new(
        s.len(),
        |i: int|
            if 0 <= i < s.len() {
                (s[i].0.data(), s[i].1.data())
            } else {
                (SerialData::Unit, SerialData::Unit)
            },
    )
}

/// The content of a sequence of serialized named fields.
pub open spec fn serial_fields(s: Seq<(&'static str, Serial)>) -> Seq<(Seq<char>, SerialData)>
    decreases s,
{
    Seq::new(
        s.len(),
        |i: int|
            if 0 <= i < s.len() {
                (s[i].0@, s[i].1.data())
            } else {
                (Seq::empty(), SerialData::Unit)
            },
    )
}

pub broadcast proof fn lemma_serial_seq(s: Seq<Serial>, i: int)
    ensures
        #[trigger] serial_seq(s).len() == s.len(),
        0 <= i < s.len() ==> #[trigger] serial_seq(s)[i] == s[i].data(),
{
}

pub broadcast proof fn lemma_serial_entries(s: Seq<(Serial, Serial)>, i: int)
    ensures
        #[trigger] serial_entries(s).len() == s.len(),
        0 <= i < s.len() ==> #[trigger] serial_entries(s)[i] == (s[i].0.data(), s[i].1.data()),
{
}

pub broadcast proof fn lemma_serial_fields(s: Seq<(&'static str, Serial)>, i: int)
    ensures
        #[trigger] serial_fields(s).len() == s.len(),
        0 <= i < s.len() ==> #[trigger] serial_fields(s)[i] == (s[i].0@, s[i].1.data()),
{
}

pub broadcast group group_serial {
    lemma_serial_seq,
    lemma_serial_entries,
    lemma_serial_fields,
}

impl Serial {
    /// The mathematical content of the serialized value.
    pub open spec fn data(self) -> SerialData
        decreases self,
    {
        proof {
            broadcast use vstd::std_specs::vec::axiom_vec_decreases_to_view;

            match self {
                Serial::Sequence(v) => assert(decreases_to!(v => v@)),
                Serial::Tuple(v) => assert(decreases_to!(v => v@)),
                Serial::TupleStruct { fields, .. } => assert(decreases_to!(fields => fields@)),
                Serial::TupleVariant { fields, .. } => assert(decreases_to!(fields => fields@)),
                Serial::Mapping(v) => assert(decreases_to!(v => v@)),
                Serial::Struct { fields, .. } => assert(decreases_to!(fields => fields@)),
                Serial::StructVariant { fields, .. } => assert(decreases_to!(fields => fields@)),
                _ => {},
            }
        }
        match self {
            Serial::Unit => SerialData::Unit,
            Serial::Bool(b) => SerialData::Bool(b),
            Serial::I64(i) => SerialData::I64(i as int),
            Serial::U64(u) => SerialData::U64(u as int),
            Serial::I8(x) => SerialData::I8(x as int),
            Serial::I16(x) => SerialData::I16(x as int),
            Serial::I32(x) => SerialData::I32(x as int),
            Serial::I128(x) => SerialData::I128(x as int),
            Serial::U8(x) => SerialData::U8(x as int),
            Serial::U16(x) => SerialData::U16(x as int),
            Serial::U32(x) => SerialData::U32(x as int),
            Serial::U128(x) => SerialData::U128(x as int),
            Serial::Char(c) => SerialData::Char(c),
            Serial::Str(s) => SerialData::Str(s@),
            Serial::OptionNone => SerialData::OptionNone,
            Serial::OptionSome(v) => SerialData::OptionSome(Box::new(v.data())),
            Serial::UnitVariant { name, index, variant } => SerialData::UnitVariant {
                name: name@,
                index: index as int,
                variant: variant@,
            },
            Serial::NewtypeStruct { name, value } => SerialData::NewtypeStruct {
                name: name@,
                value: Box::new(value.data()),
            },
            Serial::NewtypeVariant { name, index, variant, value } => SerialData::NewtypeVariant {
                name: name@,
                index: index as int,
                variant: variant@,
                value: Box::new(value.data()),
            },
            Serial::Sequence(v) => SerialData::Sequence(serial_seq(v@)),
            Serial::Tuple(v) => SerialData::Tuple(serial_seq(v@)),
            Serial::TupleStruct { name, fields } => SerialData::TupleStruct {
                name: name@,
                fields: serial_seq(fields@),
            },
            Serial::TupleVariant { name, index, variant, fields } => SerialData::TupleVariant {
                name: name@,
                index: index as int,
                variant: variant@,
                fields: serial_seq(fields@),
            },
            Serial::Mapping(v) => SerialData::Mapping(serial_entries(v@)),
            Serial::Struct { name, fields } => SerialData::Struct {
                name: name@,
                fields: serial_fields(fields@),
            },
            Serial::StructVariant { name, index, variant, fields } => SerialData::StructVariant {
                name: name@,
                index: index as int,
                variant: variant@,
                fields: serial_fields(fields@),
            },
        }
    }
}

} // verus!
