//! Static type information: what a reflected type looks like.
use vstd::prelude::*;

verus! {

/// An identifier of a reflected type, unique within a registry.
pub type TypeId = u64;

/// Compares two string slices by their characters.
pub fn str_eq(a: &str, b: &str) -> (r: bool)
    ensures
        r == (a@ == b@),
{
    let x = a.to_owned();
    let y = b.to_owned();
    x == y
}

/// The identity and names of a type.
#[derive(Clone, Copy)]
pub struct Type {
    pub id: TypeId,
    /// Full path, such as `alloc::vec::Vec<i32>`.
    pub path: &'static str,
    /// Short name, such as `Vec<i32>`.
    pub name: &'static str,
    /// Identifier, such as `Vec`.
    pub ident: &'static str,
    /// Module path, such as `alloc::vec`.
    pub module: Option<&'static str>,
}

/// A named field of a struct or a struct variant.
#[derive(Clone, Copy)]
pub struct NamedField {
    pub name: &'static str,
    pub type_id: TypeId,
    pub skip_serde: bool,
}

/// An unnamed field of a tuple, a tuple struct or a tuple variant.
#[derive(Clone, Copy)]
pub struct UnnamedField {
    pub index: usize,
    pub type_id: TypeId,
    pub skip_serde: bool,
}

#[derive(Clone, Copy)]
pub struct StructInfo {
    pub ty: Type,
    pub fields: &'static [NamedField],
}

#[derive(Clone, Copy)]
pub struct TupleStructInfo {
    pub ty: Type,
    pub fields: &'static [UnnamedField],
}

#[derive(Clone, Copy)]
pub struct TupleInfo {
    pub ty: Type,
    pub fields: &'static [UnnamedField],
}

#[derive(Clone, Copy)]
pub struct ListInfo {
    pub ty: Type,
    pub item: TypeId,
}

#[derive(Clone, Copy)]
pub struct ArrayInfo {
    pub ty: Type,
    pub item: TypeId,
    pub len: usize,
}

#[derive(Clone, Copy)]
pub struct MapInfo {
    pub ty: Type,
    pub key: TypeId,
    pub value: TypeId,
}

#[derive(Clone, Copy)]
pub struct SetInfo {
    pub ty: Type,
    pub value: TypeId,
}

#[derive(Clone, Copy)]
pub struct UnitVariantInfo {
    pub name: &'static str,
}

#[derive(Clone, Copy)]
pub struct TupleVariantInfo {
    pub name: &'static str,
    pub fields: &'static [UnnamedField],
}

#[derive(Clone, Copy)]
pub struct StructVariantInfo {
    pub name: &'static str,
    pub fields: &'static [NamedField],
}

#[derive(Clone, Copy)]
pub enum VariantInfo {
    Unit(UnitVariantInfo),
    Tuple(TupleVariantInfo),
    Struct(StructVariantInfo),
}

#[derive(Clone, Copy)]
pub struct EnumInfo {
    pub ty: Type,
    pub variants: &'static [VariantInfo],
}

#[derive(Clone, Copy)]
pub struct OpaqueInfo {
    pub ty: Type,
}

/// The shape of a reflected type.
#[derive(Clone, Copy)]
pub enum TypeInfo {
    Struct(StructInfo),
    TupleStruct(TupleStructInfo),
    Tuple(TupleInfo),
    List(ListInfo),
    Array(ArrayInfo),
    MapLike(MapInfo),
    SetLike(SetInfo),
    Enum(EnumInfo),
    Opaque(OpaqueInfo),
}

/// First index of a named field with the given name.
pub open spec fn first_named(fields: Seq<NamedField>, name: Seq<char>, i: int) -> bool {
    &&& 0 <= i < fields.len()
    &&& fields[i].name@ == name
    &&& forall|j: int| 0 <= j < i ==> fields[j].name@ != name
}

pub open spec fn has_named(fields: Seq<NamedField>, name: Seq<char>) -> bool {
    exists|i: int| 0 <= i < fields.len() && fields[i].name@ == name
}

/// Number of fields that take part in serialization.
pub open spec fn serde_count_named(fields: Seq<NamedField>) -> nat
    decreases fields.len(),
{
    if fields.len() == 0 {
        0
    } else {
        serde_count_named(fields.drop_last()) + if fields.last().skip_serde {
            0nat
        } else {
            1nat
        }
    }
}

pub open spec fn serde_count_unnamed(fields: Seq<UnnamedField>) -> nat
    decreases fields.len(),
{
    if fields.len() == 0 {
        0
    } else {
        serde_count_unnamed(fields.drop_last()) + if fields.last().skip_serde {
            0nat
        } else {
            1nat
        }
    }
}

/// Looks a named field up by name: the first one that has it.
pub fn find_named(fields: &[NamedField], name: &str) -> (r: Option<usize>)
    ensures
        match r {
            Some(i) => first_named(fields@, name@, i as int),
            None => !has_named(fields@, name@),
        },
{
    let mut i: usize = 0;
    while i < fields.len()
        invariant
            i <= fields@.len(),
            forall|j: int| 0 <= j < i ==> fields@[j].name@ != name@,
        decreases fields@.len() - i,
    {
        if str_eq(fields[i].name, name) {
            return Some(i);
        }
        i = i + 1;
    }
    None
}

/// Counts the named fields that are not skipped by serialization.
pub fn count_serde_named(fields: &[NamedField]) -> (r: usize)
    ensures
        r == serde_count_named(fields@),
{
    let mut i: usize = 0;
    let mut n: usize = 0;
    while i < fields.len()
        invariant
            i <= fields@.len(),
            n == serde_count_named(fields@.take(i as int)),
            n <= i,
        decreases fields@.len() - i,
    {
        assert(fields@.take(i + 1).drop_last() == fields@.take(i as int));
        if !fields[i].skip_serde {
            n = n + 1;
        }
        i = i + 1;
    }
    assert(fields@.take(fields@.len() as int) == fields@);
    n
}

/// Counts the unnamed fields that are not skipped by serialization.
pub fn count_serde_unnamed(fields: &[UnnamedField]) -> (r: usize)
    ensures
        r == serde_count_unnamed(fields@),
{
    let mut i: usize = 0;
    let mut n: usize = 0;
    while i < fields.len()
        invariant
            i <= fields@.len(),
            n == serde_count_unnamed(fields@.take(i as int)),
            n <= i,
        decreases fields@.len() - i,
    {
        assert(fields@.take(i + 1).drop_last() == fields@.take(i as int));
        if !fields[i].skip_serde {
            n = n + 1;
        }
        i = i + 1;
    }
    assert(fields@.take(fields@.len() as int) == fields@);
    n
}


/// First index of a variant with the given name.
pub open spec fn first_variant(variants: Seq<VariantInfo>, name: Seq<char>, i: int) -> bool {
    &&& 0 <= i < variants.len()
    &&& variants[i].spec_name()@ == name
    &&& forall|j: int| 0 <= j < i ==> variants[j].spec_name()@ != name
}

pub open spec fn has_variant(variants: Seq<VariantInfo>, name: Seq<char>) -> bool {
    exists|i: int| 0 <= i < variants.len() && variants[i].spec_name()@ == name
}

impl StructInfo {
    pub fn field_len(&self) -> (r: usize)
        ensures
            r == self.fields@.len(),
    {
        self.fields.len()
    }

    /// The field at the given position, if there is one.
    pub fn field_at(&self, index: usize) -> (r: Option<NamedField>)
        ensures
            r == (if index < self.fields@.len() {
                Some(self.fields@[index as int])
            } else {
                None
            }),
    {
        if index < self.fields.len() {
            Some(self.fields[index])
        } else {
            None
        }
    }

    /// The position of the field with the given name.
    pub fn index_of(&self, name: &str) -> (r: Option<usize>)
        ensures
            match r {
                Some(i) => first_named(self.fields@, name@, i as int),
                None => !has_named(self.fields@, name@),
            },
    {
        find_named(self.fields, name)
    }

    /// The field with the given name.
    pub fn field(&self, name: &str) -> (r: Option<NamedField>)
        ensures
            match r {
                Some(f) => exists|i: int| first_named(self.fields@, name@, i) && f == self.fields@[i],
                None => !has_named(self.fields@, name@),
            },
    {
        match find_named(self.fields, name) {
            Some(i) => Some(self.fields[i]),
            None => None,
        }
    }
}

impl StructVariantInfo {
    pub fn field_len(&self) -> (r: usize)
        ensures
            r == self.fields@.len(),
    {
        self.fields.len()
    }

    pub fn field_at(&self, index: usize) -> (r: Option<NamedField>)
        ensures
            r == (if index < self.fields@.len() {
                Some(self.fields@[index as int])
            } else {
                None
            }),
    {
        if index < self.fields.len() {
            Some(self.fields[index])
        } else {
            None
        }
    }

    pub fn field(&self, name: &str) -> (r: Option<NamedField>)
        ensures
            match r {
                Some(f) => exists|i: int| first_named(self.fields@, name@, i) && f == self.fields@[i],
                None => !has_named(self.fields@, name@),
            },
    {
        match find_named(self.fields, name) {
            Some(i) => Some(self.fields[i]),
            None => None,
        }
    }
}

impl TupleStructInfo {
    pub fn field_len(&self) -> (r: usize)
        ensures
            r == self.fields@.len(),
    {
        self.fields.len()
    }

    pub fn field_at(&self, index: usize) -> (r: Option<UnnamedField>)
        ensures
            r == (if index < self.fields@.len() {
                Some(self.fields@[index as int])
            } else {
                None
            }),
    {
        if index < self.fields.len() {
            Some(self.fields[index])
        } else {
            None
        }
    }
}

impl TupleInfo {
    pub fn field_len(&self) -> (r: usize)
        ensures
            r == self.fields@.len(),
    {
        self.fields.len()
    }

    pub fn field_at(&self, index: usize) -> (r: Option<UnnamedField>)
        ensures
            r == (if index < self.fields@.len() {
                Some(self.fields@[index as int])
            } else {
                None
            }),
    {
        if index < self.fields.len() {
            Some(self.fields[index])
        } else {
            None
        }
    }
}

impl TupleVariantInfo {
    pub fn field_len(&self) -> (r: usize)
        ensures
            r == self.fields@.len(),
    {
        self.fields.len()
    }

    pub fn field_at(&self, index: usize) -> (r: Option<UnnamedField>)
        ensures
            r == (if index < self.fields@.len() {
                Some(self.fields@[index as int])
            } else {
                None
            }),
    {
        if index < self.fields.len() {
            Some(self.fields[index])
        } else {
            None
        }
    }
}

impl VariantInfo {
    pub open spec fn spec_name(self) -> &'static str {
        match self {
            VariantInfo::Unit(v) => v.name,
            VariantInfo::Tuple(v) => v.name,
            VariantInfo::Struct(v) => v.name,
        }
    }

    pub open spec fn spec_field_len(self) -> nat {
        match self {
            VariantInfo::Unit(_) => 0,
            VariantInfo::Tuple(v) => v.fields@.len(),
            VariantInfo::Struct(v) => v.fields@.len(),
        }
    }

    pub fn name(&self) -> (r: &'static str)
        ensures
            r == self.spec_name(),
    {
        match self {
            VariantInfo::Unit(v) => v.name,
            VariantInfo::Tuple(v) => v.name,
            VariantInfo::Struct(v) => v.name,
        }
    }

    pub fn field_len(&self) -> (r: usize)
        ensures
            r == self.spec_field_len(),
    {
        match self {
            VariantInfo::Unit(_) => 0,
            VariantInfo::Tuple(v) => v.fields.len(),
            VariantInfo::Struct(v) => v.fields.len(),
        }
    }
}

impl EnumInfo {
    pub fn variant_len(&self) -> (r: usize)
        ensures
            r == self.variants@.len(),
    {
        self.variants.len()
    }

    /// The variant at the given position.
    pub fn variant_at(&self, index: usize) -> (r: Option<VariantInfo>)
        ensures
            r == (if index < self.variants@.len() {
                Some(self.variants@[index as int])
            } else {
                None
            }),
    {
        if index < self.variants.len() {
            Some(self.variants[index])
        } else {
            None
        }
    }

    /// The position of the variant with the given name.
    pub fn index_of(&self, name: &str) -> (r: Option<usize>)
        ensures
            match r {
                Some(i) => first_variant(self.variants@, name@, i as int),
                None => !has_variant(self.variants@, name@),
            },
    {
        let mut i: usize = 0;
        while i < self.variants.len()
            invariant
                i <= self.variants@.len(),
                forall|j: int| 0 <= j < i ==> self.variants@[j].spec_name()@ != name@,
            decreases self.variants@.len() - i,
        {
            if str_eq(self.variants[i].name(), name) {
                return Some(i);
            }
            i = i + 1;
        }
        None
    }

    /// The variant with the given name.
    pub fn variant(&self, name: &str) -> (r: Option<VariantInfo>)
        ensures
            match r {
                Some(v) => exists|i: int| first_variant(self.variants@, name@, i) && v == self.variants@[i],
                None => !has_variant(self.variants@, name@),
            },
    {
        match self.index_of(name) {
            Some(i) => Some(self.variants[i]),
            None => None,
        }
    }
}

impl TypeInfo {
    pub open spec fn spec_ty(self) -> Type {
        match self {
            TypeInfo::Struct(i) => i.ty,
            TypeInfo::TupleStruct(i) => i.ty,
            TypeInfo::Tuple(i) => i.ty,
            TypeInfo::List(i) => i.ty,
            TypeInfo::Array(i) => i.ty,
            TypeInfo::MapLike(i) => i.ty,
            TypeInfo::SetLike(i) => i.ty,
            TypeInfo::Enum(i) => i.ty,
            TypeInfo::Opaque(i) => i.ty,
        }
    }

    /// The identity and names of the described type.
    pub fn ty(&self) -> (r: Type)
        ensures
            r == self.spec_ty(),
    {
        match self {
            TypeInfo::Struct(i) => i.ty,
            TypeInfo::TupleStruct(i) => i.ty,
            TypeInfo::Tuple(i) => i.ty,
            TypeInfo::List(i) => i.ty,
            TypeInfo::Array(i) => i.ty,
            TypeInfo::MapLike(i) => i.ty,
            TypeInfo::SetLike(i) => i.ty,
            TypeInfo::Enum(i) => i.ty,
            TypeInfo::Opaque(i) => i.ty,
        }
    }

    pub fn type_id(&self) -> (r: TypeId)
        ensures
            r == self.spec_ty().id,
    {
        self.ty().id
    }

    pub fn type_path(&self) -> (r: &'static str)
        ensures
            r == self.spec_ty().path,
    {
        self.ty().path
    }

    pub fn is_struct(&self) -> (r: bool)
        ensures
            r == (*self is Struct),
    {
        matches!(self, TypeInfo::Struct(_))
    }

    pub fn is_tuple_struct(&self) -> (r: bool)
        ensures
            r == (*self is TupleStruct),
    {
        matches!(self, TypeInfo::TupleStruct(_))
    }

    pub fn is_tuple(&self) -> (r: bool)
        ensures
            r == (*self is Tuple),
    {
        matches!(self, TypeInfo::Tuple(_))
    }

    pub fn is_list(&self) -> (r: bool)
        ensures
            r == (*self is List),
    {
        matches!(self, TypeInfo::List(_))
    }

    pub fn is_array(&self) -> (r: bool)
        ensures
            r == (*self is Array),
    {
        matches!(self, TypeInfo::Array(_))
    }

    pub fn is_map(&self) -> (r: bool)
        ensures
            r == (*self is MapLike),
    {
        matches!(self, TypeInfo::MapLike(_))
    }

    pub fn is_set(&self) -> (r: bool)
        ensures
            r == (*self is SetLike),
    {
        matches!(self, TypeInfo::SetLike(_))
    }

    pub fn is_enum(&self) -> (r: bool)
        ensures
            r == (*self is Enum),
    {
        matches!(self, TypeInfo::Enum(_))
    }
}

/// The names under which a type is known.
pub trait TypePath {
    spec fn spec_type_path() -> Seq<char>;

    spec fn spec_type_short_name() -> Seq<char>;

    spec fn spec_type_ident() -> Seq<char>;

    spec fn spec_type_module() -> Option<Seq<char>>;

    /// Full path, such as `vc_reflect::ops::DynamicTuple`.
    fn type_path() -> (r: &'static str)
        ensures
            r@ == Self::spec_type_path(),
    ;

    /// Short name, such as `DynamicTuple`.
    fn type_short_name() -> (r: &'static str)
        ensures
            r@ == Self::spec_type_short_name(),
    ;

    /// Identifier, such as `DynamicTuple`.
    fn type_ident() -> (r: &'static str)
        ensures
            r@ == Self::spec_type_ident(),
    ;

    /// Path of the defining module, such as `vc_reflect::ops`.
    fn type_module() -> (r: Option<&'static str>)
        ensures
            match r {
                Some(m) => Self::spec_type_module() == Some(m@),
                None => Self::spec_type_module() is None,
            },
    ;
}

/// A type with static type information.
pub trait Typed: TypePath {
    spec fn spec_type_info() -> TypeInfo;

    /// The type information; its type carries the type's full path and identifier.
    fn type_info() -> (r: TypeInfo)
        ensures
            r == Self::spec_type_info(),
            r.spec_ty().path@ == Self::spec_type_path(),
            r.spec_ty().ident@ == Self::spec_type_ident(),
    ;
}

/// Identifier of `()`.
pub const UNIT_TYPE_ID: TypeId = 0x100;

/// Identifier of `bool`.
pub const BOOL_TYPE_ID: TypeId = 0x101;

/// Identifier of `i64`.
pub const I64_TYPE_ID: TypeId = 0x102;

/// Identifier of `u64`.
pub const U64_TYPE_ID: TypeId = 0x103;

/// Identifier of `char`.
pub const CHAR_TYPE_ID: TypeId = 0x104;

/// Identifier of `String`.
pub const STRING_TYPE_ID: TypeId = 0x105;

/// Identifier of `i8`.
pub const I8_TYPE_ID: TypeId = 0x106;

/// Identifier of `i16`.
pub const I16_TYPE_ID: TypeId = 0x107;

/// Identifier of `i32`.
pub const I32_TYPE_ID: TypeId = 0x108;

/// Identifier of `i128`.
pub const I128_TYPE_ID: TypeId = 0x109;

/// Identifier of `isize`.
pub const ISIZE_TYPE_ID: TypeId = 0x10a;

/// Identifier of `u8`.
pub const U8_TYPE_ID: TypeId = 0x10b;

/// Identifier of `u16`.
pub const U16_TYPE_ID: TypeId = 0x10c;

/// Identifier of `u32`.
pub const U32_TYPE_ID: TypeId = 0x10d;

/// Identifier of `u128`.
pub const U128_TYPE_ID: TypeId = 0x10e;

/// Identifier of `usize`.
pub const USIZE_TYPE_ID: TypeId = 0x10f;

/// Identifier of `DynamicArray`.
pub const DYNAMIC_ARRAY_TYPE_ID: TypeId = 0x110;

/// Identifier of `DynamicList`.
pub const DYNAMIC_LIST_TYPE_ID: TypeId = 0x111;

/// Identifier of `DynamicTuple`.
pub const DYNAMIC_TUPLE_TYPE_ID: TypeId = 0x112;

/// Identifier of `DynamicTupleStruct`.
pub const DYNAMIC_TUPLE_STRUCT_TYPE_ID: TypeId = 0x113;

/// Identifier of `DynamicStruct`.
pub const DYNAMIC_STRUCT_TYPE_ID: TypeId = 0x114;

/// Identifier of `DynamicMap`.
pub const DYNAMIC_MAP_TYPE_ID: TypeId = 0x115;

/// Identifier of `DynamicSet`.
pub const DYNAMIC_SET_TYPE_ID: TypeId = 0x116;

/// Identifier of `DynamicEnum`.
pub const DYNAMIC_ENUM_TYPE_ID: TypeId = 0x117;

/// Whether the identifier is that of one of the primitive types.
pub open spec fn is_primitive_id(id: TypeId) -> bool {
    id == UNIT_TYPE_ID || id == BOOL_TYPE_ID || id == I64_TYPE_ID || id == U64_TYPE_ID || id
        == CHAR_TYPE_ID || id == STRING_TYPE_ID || is_integer_id(id)
}

/// Whether the identifier is that of one of the integer types other than `i64` and `u64`.
pub open spec fn is_integer_id(id: TypeId) -> bool {
    id == I8_TYPE_ID || id == I16_TYPE_ID || id == I32_TYPE_ID || id == I128_TYPE_ID || id == ISIZE_TYPE_ID || id == U8_TYPE_ID || id == U16_TYPE_ID || id == U32_TYPE_ID || id == U128_TYPE_ID || id == USIZE_TYPE_ID
}

/// Opaque type information built from a type's names.
pub open spec fn opaque_info(id: TypeId, path: &'static str, name: &'static str, module: Option<&'static str>) -> TypeInfo {
    TypeInfo::Opaque(OpaqueInfo { ty: Type { id, path, name, ident: name, module } })
}

pub(crate) fn make_opaque(id: TypeId, path: &'static str, name: &'static str, module: Option<&'static str>) -> (r: TypeInfo)
    ensures
        r == opaque_info(id, path, name, module),
{
    TypeInfo::Opaque(OpaqueInfo { ty: Type { id, path, name, ident: name, module } })
}

impl TypePath for () {
    open spec fn spec_type_path() -> Seq<char> {
        "()"@
    }

    open spec fn spec_type_short_name() -> Seq<char> {
        "()"@
    }

    open spec fn spec_type_ident() -> Seq<char> {
        "()"@
    }

    open spec fn spec_type_module() -> Option<Seq<char>> {
        None
    }

    fn type_path() -> &'static str {
        "()"
    }

    fn type_short_name() -> &'static str {
        "()"
    }

    fn type_ident() -> &'static str {
        "()"
    }

    fn type_module() -> Option<&'static str> {
        None
    }
}

impl Typed for () {
    open spec fn spec_type_info() -> TypeInfo {
        opaque_info(UNIT_TYPE_ID, "()", "()", None)
    }

    fn type_info() -> (r: TypeInfo) {
        make_opaque(UNIT_TYPE_ID, "()", "()", None)
    }
}

impl TypePath for bool {
    open spec fn spec_type_path() -> Seq<char> {
        "bool"@
    }

    open spec fn spec_type_short_name() -> Seq<char> {
        "bool"@
    }

    open spec fn spec_type_ident() -> Seq<char> {
        "bool"@
    }

    open spec fn spec_type_module() -> Option<Seq<char>> {
        None
    }

    fn type_path() -> &'static str {
        "bool"
    }

    fn type_short_name() -> &'static str {
        "bool"
    }

    fn type_ident() -> &'static str {
        "bool"
    }

    fn type_module() -> Option<&'static str> {
        None
    }
}

impl Typed for bool {
    open spec fn spec_type_info() -> TypeInfo {
        opaque_info(BOOL_TYPE_ID, "bool", "bool", None)
    }

    fn type_info() -> (r: TypeInfo) {
        make_opaque(BOOL_TYPE_ID, "bool", "bool", None)
    }
}

impl TypePath for i64 {
    open spec fn spec_type_path() -> Seq<char> {
        "i64"@
    }

    open spec fn spec_type_short_name() -> Seq<char> {
        "i64"@
    }

    open spec fn spec_type_ident() -> Seq<char> {
        "i64"@
    }

    open spec fn spec_type_module() -> Option<Seq<char>> {
        None
    }

    fn type_path() -> &'static str {
        "i64"
    }

    fn type_short_name() -> &'static str {
        "i64"
    }

    fn type_ident() -> &'static str {
        "i64"
    }

    fn type_module() -> Option<&'static str> {
        None
    }
}

impl Typed for i64 {
    open spec fn spec_type_info() -> TypeInfo {
        opaque_info(I64_TYPE_ID, "i64", "i64", None)
    }

    fn type_info() -> (r: TypeInfo) {
        make_opaque(I64_TYPE_ID, "i64", "i64", None)
    }
}

impl TypePath for u64 {
    open spec fn spec_type_path() -> Seq<char> {
        "u64"@
    }

    open spec fn spec_type_short_name() -> Seq<char> {
        "u64"@
    }

    open spec fn spec_type_ident() -> Seq<char> {
        "u64"@
    }

    open spec fn spec_type_module() -> Option<Seq<char>> {
        None
    }

    fn type_path() -> &'static str {
        "u64"
    }

    fn type_short_name() -> &'static str {
        "u64"
    }

    fn type_ident() -> &'static str {
        "u64"
    }

    fn type_module() -> Option<&'static str> {
        None
    }
}

impl Typed for u64 {
    open spec fn spec_type_info() -> TypeInfo {
        opaque_info(U64_TYPE_ID, "u64", "u64", None)
    }

    fn type_info() -> (r: TypeInfo) {
        make_opaque(U64_TYPE_ID, "u64", "u64", None)
    }
}

impl TypePath for char {
    open spec fn spec_type_path() -> Seq<char> {
        "char"@
    }

    open spec fn spec_type_short_name() -> Seq<char> {
        "char"@
    }

    open spec fn spec_type_ident() -> Seq<char> {
        "char"@
    }

    open spec fn spec_type_module() -> Option<Seq<char>> {
        None
    }

    fn type_path() -> &'static str {
        "char"
    }

    fn type_short_name() -> &'static str {
        "char"
    }

    fn type_ident() -> &'static str {
        "char"
    }

    fn type_module() -> Option<&'static str> {
        None
    }
}

impl Typed for char {
    open spec fn spec_type_info() -> TypeInfo {
        opaque_info(CHAR_TYPE_ID, "char", "char", None)
    }

    fn type_info() -> (r: TypeInfo) {
        make_opaque(CHAR_TYPE_ID, "char", "char", None)
    }
}

impl TypePath for String {
    open spec fn spec_type_path() -> Seq<char> {
        "alloc::string::String"@
    }

    open spec fn spec_type_short_name() -> Seq<char> {
        "String"@
    }

    open spec fn spec_type_ident() -> Seq<char> {
        "String"@
    }

    open spec fn spec_type_module() -> Option<Seq<char>> {
        Some("alloc::string"@)
    }

    fn type_path() -> &'static str {
        "alloc::string::String"
    }

    fn type_short_name() -> &'static str {
        "String"
    }

    fn type_ident() -> &'static str {
        "String"
    }

    fn type_module() -> Option<&'static str> {
        Some("alloc::string")
    }
}

impl Typed for String {
    open spec fn spec_type_info() -> TypeInfo {
        opaque_info(STRING_TYPE_ID, "alloc::string::String", "String", Some("alloc::string"))
    }

    fn type_info() -> (r: TypeInfo) {
        make_opaque(STRING_TYPE_ID, "alloc::string::String", "String", Some("alloc::string"))
    }
}

impl TypePath for i8 {
    open spec fn spec_type_path() -> Seq<char> {
        "i8"@
    }

    open spec fn spec_type_short_name() -> Seq<char> {
        "i8"@
    }

    open spec fn spec_type_ident() -> Seq<char> {
        "i8"@
    }

    open spec fn spec_type_module() -> Option<Seq<char>> {
        None
    }

    fn type_path() -> &'static str {
        "i8"
    }

    fn type_short_name() -> &'static str {
        "i8"
    }

    fn type_ident() -> &'static str {
        "i8"
    }

    fn type_module() -> Option<&'static str> {
        None
    }
}

impl Typed for i8 {
    open spec fn spec_type_info() -> TypeInfo {
        opaque_info(I8_TYPE_ID, "i8", "i8", None)
    }

    fn type_info() -> (r: TypeInfo) {
        make_opaque(I8_TYPE_ID, "i8", "i8", None)
    }
}

impl TypePath for i16 {
    open spec fn spec_type_path() -> Seq<char> {
        "i16"@
    }

    open spec fn spec_type_short_name() -> Seq<char> {
        "i16"@
    }

    open spec fn spec_type_ident() -> Seq<char> {
        "i16"@
    }

    open spec fn spec_type_module() -> Option<Seq<char>> {
        None
    }

    fn type_path() -> &'static str {
        "i16"
    }

    fn type_short_name() -> &'static str {
        "i16"
    }

    fn type_ident() -> &'static str {
        "i16"
    }

    fn type_module() -> Option<&'static str> {
        None
    }
}

impl Typed for i16 {
    open spec fn spec_type_info() -> TypeInfo {
        opaque_info(I16_TYPE_ID, "i16", "i16", None)
    }

    fn type_info() -> (r: TypeInfo) {
        make_opaque(I16_TYPE_ID, "i16", "i16", None)
    }
}

impl TypePath for i32 {
    open spec fn spec_type_path() -> Seq<char> {
        "i32"@
    }

    open spec fn spec_type_short_name() -> Seq<char> {
        "i32"@
    }

    open spec fn spec_type_ident() -> Seq<char> {
        "i32"@
    }

    open spec fn spec_type_module() -> Option<Seq<char>> {
        None
    }

    fn type_path() -> &'static str {
        "i32"
    }

    fn type_short_name() -> &'static str {
        "i32"
    }

    fn type_ident() -> &'static str {
        "i32"
    }

    fn type_module() -> Option<&'static str> {
        None
    }
}

impl Typed for i32 {
    open spec fn spec_type_info() -> TypeInfo {
        opaque_info(I32_TYPE_ID, "i32", "i32", None)
    }

    fn type_info() -> (r: TypeInfo) {
        make_opaque(I32_TYPE_ID, "i32", "i32", None)
    }
}

impl TypePath for i128 {
    open spec fn spec_type_path() -> Seq<char> {
        "i128"@
    }

    open spec fn spec_type_short_name() -> Seq<char> {
        "i128"@
    }

    open spec fn spec_type_ident() -> Seq<char> {
        "i128"@
    }

    open spec fn spec_type_module() -> Option<Seq<char>> {
        None
    }

    fn type_path() -> &'static str {
        "i128"
    }

    fn type_short_name() -> &'static str {
        "i128"
    }

    fn type_ident() -> &'static str {
        "i128"
    }

    fn type_module() -> Option<&'static str> {
        None
    }
}

impl Typed for i128 {
    open spec fn spec_type_info() -> TypeInfo {
        opaque_info(I128_TYPE_ID, "i128", "i128", None)
    }

    fn type_info() -> (r: TypeInfo) {
        make_opaque(I128_TYPE_ID, "i128", "i128", None)
    }
}

impl TypePath for isize {
    open spec fn spec_type_path() -> Seq<char> {
        "isize"@
    }

    open spec fn spec_type_short_name() -> Seq<char> {
        "isize"@
    }

    open spec fn spec_type_ident() -> Seq<char> {
        "isize"@
    }

    open spec fn spec_type_module() -> Option<Seq<char>> {
        None
    }

    fn type_path() -> &'static str {
        "isize"
    }

    fn type_short_name() -> &'static str {
        "isize"
    }

    fn type_ident() -> &'static str {
        "isize"
    }

    fn type_module() -> Option<&'static str> {
        None
    }
}

impl Typed for isize {
    open spec fn spec_type_info() -> TypeInfo {
        opaque_info(ISIZE_TYPE_ID, "isize", "isize", None)
    }

    fn type_info() -> (r: TypeInfo) {
        make_opaque(ISIZE_TYPE_ID, "isize", "isize", None)
    }
}

impl TypePath for u8 {
    open spec fn spec_type_path() -> Seq<char> {
        "u8"@
    }

    open spec fn spec_type_short_name() -> Seq<char> {
        "u8"@
    }

    open spec fn spec_type_ident() -> Seq<char> {
        "u8"@
    }

    open spec fn spec_type_module() -> Option<Seq<char>> {
        None
    }

    fn type_path() -> &'static str {
        "u8"
    }

    fn type_short_name() -> &'static str {
        "u8"
    }

    fn type_ident() -> &'static str {
        "u8"
    }

    fn type_module() -> Option<&'static str> {
        None
    }
}

impl Typed for u8 {
    open spec fn spec_type_info() -> TypeInfo {
        opaque_info(U8_TYPE_ID, "u8", "u8", None)
    }

    fn type_info() -> (r: TypeInfo) {
        make_opaque(U8_TYPE_ID, "u8", "u8", None)
    }
}

impl TypePath for u16 {
    open spec fn spec_type_path() -> Seq<char> {
        "u16"@
    }

    open spec fn spec_type_short_name() -> Seq<char> {
        "u16"@
    }

    open spec fn spec_type_ident() -> Seq<char> {
        "u16"@
    }

    open spec fn spec_type_module() -> Option<Seq<char>> {
        None
    }

    fn type_path() -> &'static str {
        "u16"
    }

    fn type_short_name() -> &'static str {
        "u16"
    }

    fn type_ident() -> &'static str {
        "u16"
    }

    fn type_module() -> Option<&'static str> {
        None
    }
}

impl Typed for u16 {
    open spec fn spec_type_info() -> TypeInfo {
        opaque_info(U16_TYPE_ID, "u16", "u16", None)
    }

    fn type_info() -> (r: TypeInfo) {
        make_opaque(U16_TYPE_ID, "u16", "u16", None)
    }
}

impl TypePath for u32 {
    open spec fn spec_type_path() -> Seq<char> {
        "u32"@
    }

    open spec fn spec_type_short_name() -> Seq<char> {
        "u32"@
    }

    open spec fn spec_type_ident() -> Seq<char> {
        "u32"@
    }

    open spec fn spec_type_module() -> Option<Seq<char>> {
        None
    }

    fn type_path() -> &'static str {
        "u32"
    }

    fn type_short_name() -> &'static str {
        "u32"
    }

    fn type_ident() -> &'static str {
        "u32"
    }

    fn type_module() -> Option<&'static str> {
        None
    }
}

impl Typed for u32 {
    open spec fn spec_type_info() -> TypeInfo {
        opaque_info(U32_TYPE_ID, "u32", "u32", None)
    }

    fn type_info() -> (r: TypeInfo) {
        make_opaque(U32_TYPE_ID, "u32", "u32", None)
    }
}

impl TypePath for u128 {
    open spec fn spec_type_path() -> Seq<char> {
        "u128"@
    }

    open spec fn spec_type_short_name() -> Seq<char> {
        "u128"@
    }

    open spec fn spec_type_ident() -> Seq<char> {
        "u128"@
    }

    open spec fn spec_type_module() -> Option<Seq<char>> {
        None
    }

    fn type_path() -> &'static str {
        "u128"
    }

    fn type_short_name() -> &'static str {
        "u128"
    }

    fn type_ident() -> &'static str {
        "u128"
    }

    fn type_module() -> Option<&'static str> {
        None
    }
}

impl Typed for u128 {
    open spec fn spec_type_info() -> TypeInfo {
        opaque_info(U128_TYPE_ID, "u128", "u128", None)
    }

    fn type_info() -> (r: TypeInfo) {
        make_opaque(U128_TYPE_ID, "u128", "u128", None)
    }
}

impl TypePath for usize {
    open spec fn spec_type_path() -> Seq<char> {
        "usize"@
    }

    open spec fn spec_type_short_name() -> Seq<char> {
        "usize"@
    }

    open spec fn spec_type_ident() -> Seq<char> {
        "usize"@
    }

    open spec fn spec_type_module() -> Option<Seq<char>> {
        None
    }

    fn type_path() -> &'static str {
        "usize"
    }

    fn type_short_name() -> &'static str {
        "usize"
    }

    fn type_ident() -> &'static str {
        "usize"
    }

    fn type_module() -> Option<&'static str> {
        None
    }
}

impl Typed for usize {
    open spec fn spec_type_info() -> TypeInfo {
        opaque_info(USIZE_TYPE_ID, "usize", "usize", None)
    }

    fn type_info() -> (r: TypeInfo) {
        make_opaque(USIZE_TYPE_ID, "usize", "usize", None)
    }
}

} // verus!
