//! The structured form of a grammar description.
//!
//! A description is an ordered sequence of top-level bindings; each binds
//! a name to a `NewType`, which may nest further inline definitions. The
//! `view` of every type maps it to the mathematical model in `model`.

use vstd::prelude::*;

use crate::model::{EnumTypeV, FieldV, NewTypeV, StructTypeV, TyV, VariantV, WrapperStructV};

verus! {

/// A type reference: a head name with zero or more generic arguments.
#[derive(Debug)]
pub struct TypeRef {
    pub name: String,
    pub args: Vec<TypeRef>,
}

/// One case of an enum definition. `new_type` carries an inline
/// definition until the flattener hoists it; `ty` is the payload
/// reference, absent for a raw tag variant.
#[derive(Debug)]
pub struct Variant {
    pub new_type: Option<NewType>,
    pub name: String,
    pub ty: Option<TypeRef>,
}

/// One component of a struct definition.
#[derive(Debug)]
pub struct Field {
    pub new_type: Option<NewType>,
    pub ident: String,
    pub ty: TypeRef,
}

/// A named type definition: a sum, a product, or a single-value wrapper.
#[derive(Debug)]
pub enum NewType {
    Enum(EnumType),
    Struct(StructType),
    WrapperStruct(WrapperStruct),
}

/// A sum type: a name and its ordered cases.
#[derive(Debug)]
pub struct EnumType {
    pub name: String,
    pub variants: Vec<Variant>,
}

/// A product type: a name and its ordered components.
#[derive(Debug)]
pub struct StructType {
    pub name: String,
    pub fields: Vec<Field>,
}

/// A single-value tuple type around an existing type.
#[derive(Debug)]
pub struct WrapperStruct {
    pub name: String,
    pub ty: TypeRef,
}

/// A parsed description: the hoisted type table in order, and the
/// top-level bindings that become the cases of the root aggregate.
#[derive(Debug)]
pub struct Context {
    pub new_types: Vec<NewType>,
    pub variants: Vec<Variant>,
}

pub open spec fn ty_view(t: TypeRef) -> TyV
    decreases t,
{
    TyV { name: t.name@, args: tys_view(t.args@) }
}

pub open spec fn tys_view(s: Seq<TypeRef>) -> Seq<TyV>
    decreases s,
{
    if s.len() == 0 {
        seq![]
    } else {
        tys_view(s.drop_last()) + seq![ty_view(s.last())]
    }
}

pub open spec fn variant_view(v: Variant) -> VariantV
    decreases v,
{
    VariantV {
        new_type: match v.new_type {
            Some(nt) => Some(nt_view(nt)),
            None => None,
        },
        name: v.name@,
        ty: match v.ty {
            Some(t) => Some(ty_view(t)),
            None => None,
        },
    }
}

pub open spec fn variants_view(s: Seq<Variant>) -> Seq<VariantV>
    decreases s,
{
    if s.len() == 0 {
        seq![]
    } else {
        variants_view(s.drop_last()) + seq![variant_view(s.last())]
    }
}

pub open spec fn field_view(f: Field) -> FieldV
    decreases f,
{
    FieldV {
        new_type: match f.new_type {
            Some(nt) => Some(nt_view(nt)),
            None => None,
        },
        ident: f.ident@,
        ty: ty_view(f.ty),
    }
}

pub open spec fn fields_view(s: Seq<Field>) -> Seq<FieldV>
    decreases s,
{
    if s.len() == 0 {
        seq![]
    } else {
        fields_view(s.drop_last()) + seq![field_view(s.last())]
    }
}

pub open spec fn nt_view(nt: NewType) -> NewTypeV
    decreases nt,
{
    match nt {
        NewType::Enum(e) => NewTypeV::Enum(
            EnumTypeV { name: e.name@, variants: variants_view(e.variants@) },
        ),
        NewType::Struct(s) => NewTypeV::Struct(
            StructTypeV { name: s.name@, fields: fields_view(s.fields@) },
        ),
        NewType::WrapperStruct(w) => NewTypeV::WrapperStruct(
            WrapperStructV { name: w.name@, ty: ty_view(w.ty) },
        ),
    }
}

/// The view of a type table.
pub open spec fn table_view(s: Seq<NewType>) -> Seq<NewTypeV>
    decreases s,
{
    if s.len() == 0 {
        seq![]
    } else {
        table_view(s.drop_last()) + seq![nt_view(s.last())]
    }
}

pub proof fn lemma_tys_view(s: Seq<TypeRef>)
    ensures
        tys_view(s).len() == s.len(),
        forall|k: int| 0 <= k < s.len() ==> tys_view(s)[k] == ty_view(s[k]),
    decreases s.len(),
{
    if s.len() > 0 {
        lemma_tys_view(s.drop_last());
    }
}

pub proof fn lemma_variants_view(s: Seq<Variant>)
    ensures
        variants_view(s).len() == s.len(),
        forall|k: int| 0 <= k < s.len() ==> variants_view(s)[k] == variant_view(s[k]),
    decreases s.len(),
{
    if s.len() > 0 {
        lemma_variants_view(s.drop_last());
    }
}

pub proof fn lemma_fields_view(s: Seq<Field>)
    ensures
        fields_view(s).len() == s.len(),
        forall|k: int| 0 <= k < s.len() ==> fields_view(s)[k] == field_view(s[k]),
    decreases s.len(),
{
    if s.len() > 0 {
        lemma_fields_view(s.drop_last());
    }
}

pub proof fn lemma_table_view(s: Seq<NewType>)
    ensures
        table_view(s).len() == s.len(),
        forall|k: int| 0 <= k < s.len() ==> table_view(s)[k] == nt_view(s[k]),
    decreases s.len(),
{
    if s.len() > 0 {
        lemma_table_view(s.drop_last());
    }
}

impl View for TypeRef {
    type V = TyV;

    open spec fn view(&self) -> TyV {
        ty_view(*self)
    }
}

impl View for Variant {
    type V = VariantV;

    open spec fn view(&self) -> VariantV {
        variant_view(*self)
    }
}

impl View for Field {
    type V = FieldV;

    open spec fn view(&self) -> FieldV {
        field_view(*self)
    }
}

impl View for NewType {
    type V = NewTypeV;

    open spec fn view(&self) -> NewTypeV {
        nt_view(*self)
    }
}

impl View for EnumType {
    type V = EnumTypeV;

    open spec fn view(&self) -> EnumTypeV {
        EnumTypeV { name: self.name@, variants: variants_view(self.variants@) }
    }
}

impl View for StructType {
    type V = StructTypeV;

    open spec fn view(&self) -> StructTypeV {
        StructTypeV { name: self.name@, fields: fields_view(self.fields@) }
    }
}

impl View for WrapperStruct {
    type V = WrapperStructV;

    open spec fn view(&self) -> WrapperStructV {
        WrapperStructV { name: self.name@, ty: ty_view(self.ty) }
    }
}

impl NewType {
    /// The name a definition binds.
    pub fn name(&self) -> (r: &String)
        ensures
            r@ == self@.name(),
    {
        match self {
            NewType::Enum(e) => &e.name,
            NewType::Struct(s) => &s.name,
            NewType::WrapperStruct(w) => &w.name,
        }
    }
}

impl Default for Context {
    /// An empty description: no hoisted types, no top-level bindings.
    fn default() -> (r: Context)
        ensures
            r.new_types@ =~= Seq::<NewType>::empty(),
            r.variants@ =~= Seq::<Variant>::empty(),
    {
        Context { new_types: Vec::new(), variants: Vec::new() }
    }
}

} // verus!
