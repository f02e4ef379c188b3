use vstd::prelude::*;

use crate::ops::{DynamicEnum, DynamicStruct, DynamicTuple};
use crate::value::{Value, VariantKind, deep_variant};

verus! {

/// The data of an enum variant.
pub enum DynamicVariant {
    Unit,
    Tuple(DynamicTuple),
    Struct(DynamicStruct),
}

impl DynamicVariant {
    pub open spec fn spec_kind(self) -> VariantKind {
        match self {
            DynamicVariant::Unit => VariantKind::Unit,
            DynamicVariant::Tuple(_) => VariantKind::Tuple,
            DynamicVariant::Struct(_) => VariantKind::Struct,
        }
    }

    /// The kind of the variant data.
    pub fn kind(&self) -> (r: VariantKind)
        ensures
            r == self.spec_kind(),
    {
        match self {
            DynamicVariant::Unit => VariantKind::Unit,
            DynamicVariant::Tuple(_) => VariantKind::Tuple,
            DynamicVariant::Struct(_) => VariantKind::Struct,
        }
    }

    /// A copy made of dynamic containers.
    pub fn clone_variant(&self) -> (r: DynamicVariant)
        ensures
            deep_variant(r) == deep_variant(*self),
            crate::value::marks_variant(r) == crate::value::marks_variant(*self),
            r.spec_kind() == self.spec_kind(),
        decreases self,
    {
        match self {
            DynamicVariant::Unit => DynamicVariant::Unit,
            DynamicVariant::Tuple(t) => DynamicVariant::Tuple(crate::ops::Tuple::to_dynamic_tuple(t)),
            DynamicVariant::Struct(s) => DynamicVariant::Struct(s.to_dynamic_struct()),
        }
    }
}

/// A field of an enum variant: named in a struct variant, unnamed in a tuple variant.
pub enum VariantField<'a> {
    Struct(&'a str, &'a Value),
    Tuple(&'a Value),
}

impl<'a> VariantField<'a> {
    /// The field name, for a struct variant.
    pub fn name(&self) -> (r: Option<&'a str>)
        ensures
            r == match *self {
                VariantField::Struct(n, _) => Some(n),
                VariantField::Tuple(_) => None,
            },
    {
        match self {
            VariantField::Struct(n, _) => Some(*n),
            VariantField::Tuple(_) => None,
        }
    }

    /// The field value.
    pub fn value(&self) -> (r: &'a Value)
        ensures
            r == match *self {
                VariantField::Struct(_, v) => v,
                VariantField::Tuple(v) => v,
            },
    {
        match self {
            VariantField::Struct(_, v) => *v,
            VariantField::Tuple(v) => *v,
        }
    }
}

/// An iterator over the fields of the variant of an enum.
pub struct VariantFieldIter<'a> {
    container: &'a DynamicEnum,
    index: usize,
}

impl<'a> VariantFieldIter<'a> {
    pub closed spec fn spec_container(self) -> DynamicEnum {
        *self.container
    }

    pub closed spec fn spec_index(self) -> usize {
        self.index
    }

    /// Starts at the first field.
    pub fn new(container: &'a DynamicEnum) -> (r: Self)
        ensures
            r.spec_container() == *container,
            r.spec_index() == 0,
    {
        VariantFieldIter { container, index: 0 }
    }

    /// The next field, if any.
    pub fn next(&mut self) -> (r: Option<VariantField<'a>>)
        ensures
            final(self).spec_container() == old(self).spec_container(),
            match old(self).spec_container().spec_variant() {
                DynamicVariant::Unit => r is None && final(self).spec_index() == old(self).spec_index(),
                DynamicVariant::Tuple(t) => if old(self).spec_index() < t.spec_fields().len() {
                    &&& r == Some(
                        VariantField::Tuple(&t.spec_fields()[old(self).spec_index() as int]),
                    )
                    &&& final(self).spec_index() == old(self).spec_index() + 1
                } else {
                    r is None && final(self).spec_index() == old(self).spec_index()
                },
                DynamicVariant::Struct(s) => if old(self).spec_index() < s.spec_fields().len() {
                    &&& r matches Some(VariantField::Struct(n, v)) && n@ == s.spec_fields()[old(
                        self,
                    ).spec_index() as int].0@ && v == &s.spec_fields()[old(self).spec_index() as int].1
                    &&& final(self).spec_index() == old(self).spec_index() + 1
                } else {
                    r is None && final(self).spec_index() == old(self).spec_index()
                },
            },
    {
        match self.container.variant() {
            DynamicVariant::Unit => None,
            DynamicVariant::Tuple(t) => {
                if self.index < crate::ops::Tuple::field_len(t) {
                    match crate::ops::Tuple::field(t, self.index) {
                        Some(v) => {
                            self.index = self.index + 1;
                            Some(VariantField::Tuple(v))
                        },
                        None => None,
                    }
                } else {
                    None
                }
            },
            DynamicVariant::Struct(s) => {
                if self.index < s.field_len() {
                    match (s.name_at(self.index), s.field_at(self.index)) {
                        (Some(n), Some(v)) => {
                            self.index = self.index + 1;
                            Some(VariantField::Struct(n, v))
                        },
                        _ => None,
                    }
                } else {
                    None
                }
            },
        }
    }
}

/// What one call of `VariantFieldIter::next` does: from `a` to `b`, returning `r`.
pub open spec fn variant_step<'a>(
    a: VariantFieldIter<'a>,
    b: VariantFieldIter<'a>,
    r: Option<VariantField<'a>>,
) -> bool {
    &&& b.spec_container() == a.spec_container()
    &&& match a.spec_container().spec_variant() {
        DynamicVariant::Unit => r is None && b.spec_index() == a.spec_index(),
        DynamicVariant::Tuple(t) => if a.spec_index() < t.spec_fields().len() {
            &&& r == Some(VariantField::Tuple(&t.spec_fields()[a.spec_index() as int]))
            &&& b.spec_index() == a.spec_index() + 1
        } else {
            r is None && b.spec_index() == a.spec_index()
        },
        DynamicVariant::Struct(s) => if a.spec_index() < s.spec_fields().len() {
            &&& r matches Some(VariantField::Struct(n, v)) && n@ == s.spec_fields()[a.spec_index() as int].0@
                && v == &s.spec_fields()[a.spec_index() as int].1
            &&& b.spec_index() == a.spec_index() + 1
        } else {
            r is None && b.spec_index() == a.spec_index()
        },
    }
}

/// The number of fields of the variant data.
pub open spec fn variant_field_count(d: DynamicVariant) -> nat {
    match d {
        DynamicVariant::Unit => 0,
        DynamicVariant::Tuple(t) => t.spec_fields().len(),
        DynamicVariant::Struct(s) => s.spec_fields().len(),
    }
}

/// Iterating the fields of an enum value from the start yields its fields in order, one per
/// call of `next` (with its name for a struct variant), and then nothing: a unit variant
/// yields nothing at all.
pub proof fn lemma_variant_iteration<'a>(states: Seq<VariantFieldIter<'a>>, outs: Seq<Option<VariantField<'a>>>)
    requires
        states.len() == outs.len() + 1,
        states[0].spec_index() == 0,
        forall|i: int| 0 <= i < outs.len() ==> #[trigger] variant_step(states[i], states[i + 1], outs[i]),
    ensures
        forall|j: int|
            0 <= j < states.len() ==> (#[trigger] states[j]).spec_container() == states[0].spec_container(),
        forall|j: int|
            0 <= j < states.len() ==> (#[trigger] states[j]).spec_index() == if j
                <= variant_field_count(states[0].spec_container().spec_variant()) {
                j
            } else {
                variant_field_count(states[0].spec_container().spec_variant()) as int
            },
        forall|i: int|
            0 <= i < outs.len() ==> (#[trigger] outs[i] is Some <==> i < variant_field_count(
                states[0].spec_container().spec_variant(),
            )),
        forall|i: int|
            0 <= i < outs.len() ==> match states[0].spec_container().spec_variant() {
                DynamicVariant::Tuple(t) => i < t.spec_fields().len() ==> #[trigger] outs[i] == Some(
                    VariantField::Tuple(&t.spec_fields()[i]),
                ),
                DynamicVariant::Struct(s) => i < s.spec_fields().len() ==> (#[trigger] outs[i] matches Some(
                    VariantField::Struct(n, v),
                ) && n@ == s.spec_fields()[i].0@ && v == &s.spec_fields()[i].1),
                DynamicVariant::Unit => true,
            },
    decreases outs.len(),
{
    if outs.len() > 0 {
        let k = outs.len() - 1;
        lemma_variant_iteration(states.take(k + 1), outs.take(k));
        assert forall|i: int| 0 <= i < k implies #[trigger] variant_step(states[i], states[i + 1], outs[i]) by {
            assert(variant_step(states[i], states[i + 1], outs[i]));
        }
        assert(states.take(k + 1)[0] == states[0]);
        assert(variant_step(states[k], states[k + 1], outs[k]));
        assert(states.take(k + 1)[k] == states[k]);
        assert forall|j: int| 0 <= j <= k implies states.take(k + 1)[j] == states[j] by {}
        assert forall|i: int| 0 <= i < k implies outs[i] == outs.take(k)[i] by {}
    }
}

} // verus!
