//! The mathematical model of a grammar description.
//!
//! These types mirror the executable description types one for one, with
//! mathematical sequences in place of vectors and strings. Every contract
//! of the library speaks in terms of this model.

use vstd::prelude::*;

verus! {

/// A type reference: a head name with zero or more generic arguments,
/// such as `isize` or `Box<Expr>`.
#[verifier::ext_equal]
pub struct TyV {
    pub name: Seq<char>,
    pub args: Seq<TyV>,
}

impl TyV {
    /// A reference is plain when it is a bare name without arguments;
    /// only plain references can name a hoisted type.
    pub open spec fn is_plain(self) -> bool {
        self.args.len() == 0
    }
}

/// One case of an enum definition. `ty` is the payload reference, absent
/// for a raw tag variant; `new_type` carries an inline definition until
/// the flattener hoists it.
#[verifier::ext_equal]
pub struct VariantV {
    pub new_type: Option<NewTypeV>,
    pub name: Seq<char>,
    pub ty: Option<TyV>,
}

/// One component of a struct definition.
#[verifier::ext_equal]
pub struct FieldV {
    pub new_type: Option<NewTypeV>,
    pub ident: Seq<char>,
    pub ty: TyV,
}

/// A named type definition: a sum, a product, or a single-value wrapper.
#[verifier::ext_equal]
pub enum NewTypeV {
    Enum(EnumTypeV),
    Struct(StructTypeV),
    WrapperStruct(WrapperStructV),
}

#[verifier::ext_equal]
pub struct EnumTypeV {
    pub name: Seq<char>,
    pub variants: Seq<VariantV>,
}

#[verifier::ext_equal]
pub struct StructTypeV {
    pub name: Seq<char>,
    pub fields: Seq<FieldV>,
}

#[verifier::ext_equal]
pub struct WrapperStructV {
    pub name: Seq<char>,
    pub ty: TyV,
}

impl NewTypeV {
    /// The name a definition binds.
    pub open spec fn name(self) -> Seq<char> {
        match self {
            NewTypeV::Enum(e) => e.name,
            NewTypeV::Struct(s) => s.name,
            NewTypeV::WrapperStruct(w) => w.name,
        }
    }
}

/// A case is well-formed when any inline definition it carries is
/// well-formed and its recorded payload reference is the plain name of
/// that definition.
pub open spec fn wf_variant(v: VariantV) -> bool
    decreases v,
{
    match v.new_type {
        Some(d) => wf_new_type(d) && v.ty == Some(TyV { name: d.name(), args: seq![] }),
        None => true,
    }
}

/// A component is well-formed in the same sense.
pub open spec fn wf_field(f: FieldV) -> bool
    decreases f,
{
    match f.new_type {
        Some(d) => wf_new_type(d) && f.ty == (TyV { name: d.name(), args: seq![] }),
        None => true,
    }
}

/// A definition is well-formed when all its cases and components are.
pub open spec fn wf_new_type(nt: NewTypeV) -> bool
    decreases nt,
{
    match nt {
        NewTypeV::Enum(e) => forall|k: int|
            0 <= k < e.variants.len() ==> wf_variant(#[trigger] e.variants[k]),
        NewTypeV::Struct(s) => forall|k: int|
            0 <= k < s.fields.len() ==> wf_field(#[trigger] s.fields[k]),
        NewTypeV::WrapperStruct(_) => true,
    }
}

} // verus!
