//! What a registry holds for one type: its information and the capabilities it offers.
use vstd::prelude::*;

use crate::info::{Type, TypeId, TypeInfo, Typed};
use crate::registry::traits::{ReflectDefault, ReflectDeserialize, ReflectFromReflect, ReflectSerialize};

verus! {

/// The kinds of capabilities that a type can offer.
#[derive(PartialEq, Eq, Structural, Clone, Copy)]
pub enum TraitKind {
    Default,
    FromReflect,
    Serialize,
    Deserialize,
}

/// A capability that a type offers.
pub enum TypeTrait {
    Default(ReflectDefault),
    FromReflect(ReflectFromReflect),
    Serialize(ReflectSerialize),
    Deserialize(ReflectDeserialize),
}

impl TypeTrait {
    pub open spec fn spec_kind(self) -> TraitKind {
        match self {
            TypeTrait::Default(_) => TraitKind::Default,
            TypeTrait::FromReflect(_) => TraitKind::FromReflect,
            TypeTrait::Serialize(_) => TraitKind::Serialize,
            TypeTrait::Deserialize(_) => TraitKind::Deserialize,
        }
    }

    /// The kind of the capability.
    pub fn kind(&self) -> (r: TraitKind)
        ensures
            r == self.spec_kind(),
    {
        match self {
            TypeTrait::Default(_) => TraitKind::Default,
            TypeTrait::FromReflect(_) => TraitKind::FromReflect,
            TypeTrait::Serialize(_) => TraitKind::Serialize,
            TypeTrait::Deserialize(_) => TraitKind::Deserialize,
        }
    }
}

/// Whether two default generators produce the same content, with the same represented types.
pub open spec fn same_default(a: ReflectDefault, b: ReflectDefault) -> bool {
    &&& a.spec_value().deep() == b.spec_value().deep()
    &&& a.spec_value().marks() == b.spec_value().marks()
    &&& a.spec_value().spec_represented() == b.spec_value().spec_represented()
    &&& a.spec_value().spec_kind() == b.spec_value().spec_kind()
}

/// Whether two optional default generators are both absent or produce the same content.
pub open spec fn same_default_opt(a: Option<ReflectDefault>, b: Option<ReflectDefault>) -> bool {
    match (a, b) {
        (Some(x), Some(y)) => same_default(x, y),
        (None, None) => true,
        _ => false,
    }
}

/// The identifier of the type that a registration describes.
pub open spec fn meta_id(m: TypeMeta) -> TypeId {
    m.spec_info().spec_ty().id
}

/// The information about one type that a registry holds: its type information and a table
/// with at most one capability of each kind.
pub struct TypeMeta {
    info: TypeInfo,
    default: Option<ReflectDefault>,
    from_reflect: Option<ReflectFromReflect>,
    serialize: Option<ReflectSerialize>,
    deserialize: Option<ReflectDeserialize>,
}

impl TypeMeta {
    pub closed spec fn spec_info(self) -> TypeInfo {
        self.info
    }

    pub closed spec fn spec_default(self) -> Option<ReflectDefault> {
        self.default
    }

    pub closed spec fn spec_from_reflect(self) -> Option<ReflectFromReflect> {
        self.from_reflect
    }

    pub closed spec fn spec_serialize(self) -> Option<ReflectSerialize> {
        self.serialize
    }

    pub closed spec fn spec_deserialize(self) -> Option<ReflectDeserialize> {
        self.deserialize
    }

    /// Whether the table holds a capability of the kind.
    pub open spec fn spec_has(self, kind: TraitKind) -> bool {
        match kind {
            TraitKind::Default => self.spec_default() is Some,
            TraitKind::FromReflect => self.spec_from_reflect() is Some,
            TraitKind::Serialize => self.spec_serialize() is Some,
            TraitKind::Deserialize => self.spec_deserialize() is Some,
        }
    }

    /// The number of capabilities in the table.
    pub open spec fn spec_trait_len(self) -> nat {
        (if self.spec_has(TraitKind::Default) { 1nat } else { 0nat }) + (if self.spec_has(
            TraitKind::FromReflect,
        ) {
            1nat
        } else {
            0nat
        }) + (if self.spec_has(TraitKind::Serialize) { 1nat } else { 0nat }) + (if self.spec_has(
            TraitKind::Deserialize,
        ) {
            1nat
        } else {
            0nat
        })
    }

    /// Whether `self` and `other` describe the same type with the same capabilities.
    pub open spec fn same_as(self, other: TypeMeta) -> bool {
        &&& self.spec_info() == other.spec_info()
        &&& same_default_opt(self.spec_default(), other.spec_default())
        &&& self.spec_from_reflect() == other.spec_from_reflect()
        &&& self.spec_serialize() == other.spec_serialize()
        &&& self.spec_deserialize() == other.spec_deserialize()
    }

    /// Whether `self` is `old` with the capability `t` put in place of the one of its kind.
    pub open spec fn inserted(self, old: TypeMeta, t: TypeTrait) -> bool {
        &&& self.spec_info() == old.spec_info()
        &&& self.spec_default() == (match t {
            TypeTrait::Default(d) => Some(d),
            _ => old.spec_default(),
        })
        &&& self.spec_from_reflect() == (match t {
            TypeTrait::FromReflect(d) => Some(d),
            _ => old.spec_from_reflect(),
        })
        &&& self.spec_serialize() == (match t {
            TypeTrait::Serialize(d) => Some(d),
            _ => old.spec_serialize(),
        })
        &&& self.spec_deserialize() == (match t {
            TypeTrait::Deserialize(d) => Some(d),
            _ => old.spec_deserialize(),
        })
    }

    /// A registration of a type with no capabilities.
    pub fn new(info: TypeInfo) -> (r: Self)
        ensures
            r.spec_info() == info,
            r.spec_trait_len() == 0,
    {
        TypeMeta { info, default: None, from_reflect: None, serialize: None, deserialize: None }
    }

    /// A registration of `T` with no capabilities.
    pub fn of<T: Typed>() -> (r: Self)
        ensures
            r.spec_info() == T::spec_type_info(),
            r.spec_trait_len() == 0,
    {
        TypeMeta::new(T::type_info())
    }

    /// A registration of `T` with no capabilities, with room for `capacity` of them.
    pub fn with_capacity<T: Typed>(capacity: usize) -> (r: Self)
        ensures
            r.spec_info() == T::spec_type_info(),
            r.spec_trait_len() == 0,
    {
        TypeMeta::new(T::type_info())
    }

    /// The type information.
    pub fn type_info(&self) -> (r: TypeInfo)
        ensures
            r == self.spec_info(),
    {
        self.info
    }

    /// The identity and names of the type.
    pub fn ty(&self) -> (r: Type)
        ensures
            r == self.spec_info().spec_ty(),
    {
        self.info.ty()
    }

    /// The identifier of the type.
    pub fn type_id(&self) -> (r: TypeId)
        ensures
            r == meta_id(*self),
    {
        self.info.type_id()
    }

    /// The full path of the type.
    pub fn type_path(&self) -> (r: &'static str)
        ensures
            r == self.spec_info().spec_ty().path,
    {
        self.info.type_path()
    }

    /// Puts the capability in the table, in place of the one of its kind.
    pub fn insert_trait(&mut self, t: TypeTrait)
        ensures
            final(self).inserted(*old(self), t),
    {
        match t {
            TypeTrait::Default(d) => self.default = Some(d),
            TypeTrait::FromReflect(d) => self.from_reflect = Some(d),
            TypeTrait::Serialize(d) => self.serialize = Some(d),
            TypeTrait::Deserialize(d) => self.deserialize = Some(d),
        }
    }

    /// Takes the capability of the kind out of the table.
    pub fn remove_trait(&mut self, kind: TraitKind) -> (r: Option<TypeTrait>)
        ensures
            final(self).spec_info() == old(self).spec_info(),
            !final(self).spec_has(kind),
            r is Some == old(self).spec_has(kind),
            r matches Some(t) ==> t.spec_kind() == kind,
            kind == TraitKind::Default ==> r == (match old(self).spec_default() {
                Some(d) => Some(TypeTrait::Default(d)),
                None => None,
            }),
            kind == TraitKind::FromReflect ==> r == (match old(self).spec_from_reflect() {
                Some(d) => Some(TypeTrait::FromReflect(d)),
                None => None,
            }),
            kind == TraitKind::Serialize ==> r == (match old(self).spec_serialize() {
                Some(d) => Some(TypeTrait::Serialize(d)),
                None => None,
            }),
            kind == TraitKind::Deserialize ==> r == (match old(self).spec_deserialize() {
                Some(d) => Some(TypeTrait::Deserialize(d)),
                None => None,
            }),
            kind != TraitKind::Default ==> final(self).spec_default() == old(self).spec_default(),
            kind != TraitKind::FromReflect ==> final(self).spec_from_reflect() == old(
                self,
            ).spec_from_reflect(),
            kind != TraitKind::Serialize ==> final(self).spec_serialize() == old(
                self,
            ).spec_serialize(),
            kind != TraitKind::Deserialize ==> final(self).spec_deserialize() == old(
                self,
            ).spec_deserialize(),
    {
        match kind {
            TraitKind::Default => match self.default.take() {
                Some(d) => Some(TypeTrait::Default(d)),
                None => None,
            },
            TraitKind::FromReflect => match self.from_reflect.take() {
                Some(d) => Some(TypeTrait::FromReflect(d)),
                None => None,
            },
            TraitKind::Serialize => match self.serialize.take() {
                Some(d) => Some(TypeTrait::Serialize(d)),
                None => None,
            },
            TraitKind::Deserialize => match self.deserialize.take() {
                Some(d) => Some(TypeTrait::Deserialize(d)),
                None => None,
            },
        }
    }

    /// Whether the table holds a capability of the kind.
    pub fn has_trait(&self, kind: TraitKind) -> (r: bool)
        ensures
            r == self.spec_has(kind),
    {
        match kind {
            TraitKind::Default => self.default.is_some(),
            TraitKind::FromReflect => self.from_reflect.is_some(),
            TraitKind::Serialize => self.serialize.is_some(),
            TraitKind::Deserialize => self.deserialize.is_some(),
        }
    }

    /// The default generator, if the type offers one.
    pub fn get_default(&self) -> (r: Option<&ReflectDefault>)
        ensures
            match r {
                Some(d) => self.spec_default() == Some(*d),
                None => self.spec_default() is None,
            },
    {
        self.default.as_ref()
    }

    /// The converter from reflected values, if the type offers one.
    pub fn get_from_reflect(&self) -> (r: Option<ReflectFromReflect>)
        ensures
            r == self.spec_from_reflect(),
    {
        self.from_reflect
    }

    /// The serializer, if the type offers one.
    pub fn get_serialize(&self) -> (r: Option<ReflectSerialize>)
        ensures
            r == self.spec_serialize(),
    {
        self.serialize
    }

    /// The deserializer, if the type offers one.
    pub fn get_deserialize(&self) -> (r: Option<ReflectDeserialize>)
        ensures
            r == self.spec_deserialize(),
    {
        self.deserialize
    }

    /// The number of capabilities in the table.
    pub fn trait_len(&self) -> (r: usize)
        ensures
            r == self.spec_trait_len(),
    {
        let mut n: usize = 0;
        if self.default.is_some() {
            n = n + 1;
        }
        if self.from_reflect.is_some() {
            n = n + 1;
        }
        if self.serialize.is_some() {
            n = n + 1;
        }
        if self.deserialize.is_some() {
            n = n + 1;
        }
        n
    }

    /// The kinds of the capabilities in the table, in declaration order of the kinds.
    pub open spec fn spec_trait_kinds(self) -> Seq<TraitKind> {
        let s0 = if self.spec_has(TraitKind::Default) {
            seq![TraitKind::Default]
        } else {
            Seq::empty()
        };
        let s1 = if self.spec_has(TraitKind::FromReflect) {
            s0.push(TraitKind::FromReflect)
        } else {
            s0
        };
        let s2 = if self.spec_has(TraitKind::Serialize) {
            s1.push(TraitKind::Serialize)
        } else {
            s1
        };
        if self.spec_has(TraitKind::Deserialize) {
            s2.push(TraitKind::Deserialize)
        } else {
            s2
        }
    }

    /// The kinds of the capabilities in the table.
    pub fn trait_kinds(&self) -> (r: Vec<TraitKind>)
        ensures
            r@ == self.spec_trait_kinds(),
            r@.len() == self.spec_trait_len(),
    {
        let mut v: Vec<TraitKind> = Vec::new();
        if self.default.is_some() {
            v.push(TraitKind::Default);
        }
        if self.from_reflect.is_some() {
            v.push(TraitKind::FromReflect);
        }
        if self.serialize.is_some() {
            v.push(TraitKind::Serialize);
        }
        if self.deserialize.is_some() {
            v.push(TraitKind::Deserialize);
        }
        v
    }

    /// A copy of the registration.
    pub fn clone_meta(&self) -> (r: TypeMeta)
        ensures
            r.same_as(*self),
    {
        let default = match &self.default {
            Some(d) => Some(d.clone_default()),
            None => None,
        };
        TypeMeta {
            info: self.info,
            default,
            from_reflect: self.from_reflect,
            serialize: self.serialize,
            deserialize: self.deserialize,
        }
    }
}

} // verus!
