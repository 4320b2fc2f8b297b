//! The type code generator: each table entry rendered into a target
//! declaration with its operations.
//!
//! A struct gets a constructor taking all components in declaration
//! order, one read accessor and one mutable accessor per component; an
//! enum gets one construction helper per case, lower-cased; a wrapper
//! gets a constructor, both accessors, a consuming unwrap, and a
//! conversion from the inner type. Helper names are the identifier
//! lower-cased; mutable accessors add `_mut`.

use vstd::prelude::*;

use crate::context::{
    fields_view, lemma_fields_view, lemma_tys_view, lemma_variants_view, table_view,
    ty_view, tys_view, variant_view, variants_view, field_view, Context, EnumType, Field, NewType,
    StructType, TypeRef, Variant, WrapperStruct,
};
use crate::lexer::push_char;
use crate::lower_char_exec;
use crate::lower_seq;
use crate::model::{EnumTypeV, FieldV, NewTypeV, StructTypeV, TyV, VariantV, WrapperStructV};

verus! {

/// The rendered form of a type reference: `Name` or `Name<args>`.
pub open spec fn render_ty(t: TyV) -> Seq<char>
    decreases t, 0int,
{
    if t.args.len() == 0 {
        t.name
    } else {
        t.name + "<"@ + render_ty_args(t.args, 0) + ">"@
    }
}

/// The rendered arguments from position `i` on, comma-separated.
pub open spec fn render_ty_args(args: Seq<TyV>, i: int) -> Seq<char>
    decreases args, args.len() - i,
{
    if 0 <= i < args.len() {
        (if i > 0 {
            ", "@
        } else {
            Seq::<char>::empty()
        }) + render_ty(args[i]) + render_ty_args(args, i + 1)
    } else {
        Seq::<char>::empty()
    }
}

/// Lower-cases a name.
pub fn lower_string(s: &String) -> (r: String)
    ensures
        r@ == lower_seq(s@),
{
    let n = s.as_str().unicode_len();
    let mut r = String::new();
    let mut i: usize = 0;
    while i < n
        invariant
            i <= n,
            n == s@.len(),
            r@.len() == i,
            forall|k: int| 0 <= k < i ==> r@[k] == crate::lower_char(s@[k]),
        decreases n - i,
    {
        let c = s.as_str().get_char(i);
        push_char(&mut r, lower_char_exec(c));
        i = i + 1;
    }
    proof {
        assert(r@ =~= lower_seq(s@));
    }
    r
}

/// Appends the rendered form of a type reference.
pub fn emit_ty(out: &mut String, t: &TypeRef)
    ensures
        final(out)@ == old(out)@ + render_ty(ty_view(*t)),
    decreases *t, 0int,
{
    let ghost pre = out@;
    out.append(t.name.as_str());
    if t.args.len() > 0 {
        out.append("<");
        emit_ty_args(out, &t.args, 0);
        out.append(">");
        proof {
            assert(out@ =~= pre + render_ty(ty_view(*t)));
        }
    }
}

/// Appends the rendered arguments from position `i` on.
fn emit_ty_args(out: &mut String, args: &Vec<TypeRef>, i: usize)
    requires
        i <= args@.len(),
    ensures
        final(out)@ == old(out)@ + render_ty_args(tys_view(args@), i as int),
    decreases *args, args@.len() - i,
{
    let ghost pre = out@;
    let ghost argsv = tys_view(args@);
    proof {
        lemma_tys_view(args@);
    }
    if i < args.len() {
        if i > 0 {
            out.append(", ");
        }
        proof {
            let ag = *args;
            assert(decreases_to!(ag => ag@));
            assert(decreases_to!(ag@ => ag@[i as int]));
        }
        emit_ty(out, &args[i]);
        emit_ty_args(out, args, i + 1);
        proof {
            assert(out@ =~= pre + render_ty_args(argsv, i as int));
        }
    } else {
        proof {
            assert(out@ =~= pre + render_ty_args(argsv, i as int));
        }
    }
}

/// The rendered form of one enum case: `Name(Ty)` or a bare `Name`.
pub open spec fn render_variant_decl(v: VariantV) -> Seq<char> {
    match v.ty {
        Some(t) => v.name + "("@ + render_ty(t) + ")"@,
        None => v.name,
    }
}

/// The rendered form of one struct component: `ident: Ty`.
pub open spec fn render_field_decl(f: FieldV) -> Seq<char> {
    f.ident + ": "@ + render_ty(f.ty)
}

impl Variant {
    /// Appends this case as it stands in the enum declaration.
    pub fn to_tokens(&self, out: &mut String)
        ensures
            final(out)@ == old(out)@ + render_variant_decl(self@),
    {
        let ghost pre = out@;
        out.append(self.name.as_str());
        match &self.ty {
            Some(t) => {
                out.append("(");
                emit_ty(out, t);
                out.append(")");
                proof {
                    assert(out@ =~= pre + render_variant_decl(variant_view(*self)));
                }
            },
            None => {},
        }
    }
}

impl Field {
    /// Appends this component as it stands in the struct declaration.
    pub fn to_tokens(&self, out: &mut String)
        ensures
            final(out)@ == old(out)@ + render_field_decl(self@),
    {
        let ghost pre = out@;
        out.append(self.ident.as_str());
        out.append(": ");
        emit_ty(out, &self.ty);
        proof {
            assert(out@ =~= pre + render_field_decl(field_view(*self)));
        }
    }
}

/// The rendered cases of an enum declaration from position `i` on, one
/// per line.
pub open spec fn render_variant_decls(vs: Seq<VariantV>, i: int) -> Seq<char>
    decreases vs.len() - i,
{
    if 0 <= i < vs.len() {
        render_variant_decl(vs[i]) + ",\n"@ + render_variant_decls(vs, i + 1)
    } else {
        Seq::<char>::empty()
    }
}

/// The rendered construction helpers for payload-carrying cases from
/// position `i` on.
pub open spec fn render_typed_ctors(en: Seq<char>, vs: Seq<VariantV>, i: int) -> Seq<char>
    decreases vs.len() - i,
{
    if 0 <= i < vs.len() {
        (match vs[i].ty {
            Some(t) => "pub fn "@ + lower_seq(vs[i].name) + "(e: "@ + render_ty(t)
                + ") -> Self {\n"@ + en + "::"@ + vs[i].name + "(e)\n}\n"@,
            None => Seq::<char>::empty(),
        }) + render_typed_ctors(en, vs, i + 1)
    } else {
        Seq::<char>::empty()
    }
}

/// The rendered zero-argument construction helpers for raw cases from
/// position `i` on.
pub open spec fn render_raw_ctors(en: Seq<char>, vs: Seq<VariantV>, i: int) -> Seq<char>
    decreases vs.len() - i,
{
    if 0 <= i < vs.len() {
        (match vs[i].ty {
            Some(_) => Seq::<char>::empty(),
            None => "pub fn "@ + lower_seq(vs[i].name) + "() -> Self {\n"@ + en + "::"@
                + vs[i].name + "\n}\n"@,
        }) + render_raw_ctors(en, vs, i + 1)
    } else {
        Seq::<char>::empty()
    }
}

/// The rendered declaration and operations of a sum type.
pub open spec fn render_enum(e: EnumTypeV) -> Seq<char> {
    "#[derive(Debug, Clone)]\npub enum "@ + e.name + " {\n"@ + render_variant_decls(e.variants, 0)
        + "}\n"@ + "impl "@ + e.name + " {\n"@ + render_typed_ctors(e.name, e.variants, 0)
        + render_raw_ctors(e.name, e.variants, 0) + "}\n"@
}

/// The rendered components of a struct declaration from position `i`
/// on, one per line.
pub open spec fn render_field_decls(fs: Seq<FieldV>, i: int) -> Seq<char>
    decreases fs.len() - i,
{
    if 0 <= i < fs.len() {
        render_field_decl(fs[i]) + ",\n"@ + render_field_decls(fs, i + 1)
    } else {
        Seq::<char>::empty()
    }
}

/// The rendered constructor parameters from position `i` on.
pub open spec fn render_ctor_params(fs: Seq<FieldV>, i: int) -> Seq<char>
    decreases fs.len() - i,
{
    if 0 <= i < fs.len() {
        (if i > 0 {
            ", "@
        } else {
            Seq::<char>::empty()
        }) + render_field_decl(fs[i]) + render_ctor_params(fs, i + 1)
    } else {
        Seq::<char>::empty()
    }
}

/// The rendered constructor body component names from position `i` on.
pub open spec fn render_ctor_names(fs: Seq<FieldV>, i: int) -> Seq<char>
    decreases fs.len() - i,
{
    if 0 <= i < fs.len() {
        (if i > 0 {
            ", "@
        } else {
            Seq::<char>::empty()
        }) + fs[i].ident + render_ctor_names(fs, i + 1)
    } else {
        Seq::<char>::empty()
    }
}

/// The rendered read accessors from position `i` on.
pub open spec fn render_getters(fs: Seq<FieldV>, i: int) -> Seq<char>
    decreases fs.len() - i,
{
    if 0 <= i < fs.len() {
        "pub fn "@ + lower_seq(fs[i].ident) + "(&self) -> &"@ + render_ty(fs[i].ty)
            + " {\n&self."@ + fs[i].ident + "\n}\n"@ + render_getters(fs, i + 1)
    } else {
        Seq::<char>::empty()
    }
}

/// The rendered mutable accessors from position `i` on.
pub open spec fn render_mut_getters(fs: Seq<FieldV>, i: int) -> Seq<char>
    decreases fs.len() - i,
{
    if 0 <= i < fs.len() {
        "pub fn "@ + lower_seq(fs[i].ident) + "_mut(&mut self) -> &mut "@ + render_ty(fs[i].ty)
            + " {\n&mut self."@ + fs[i].ident + "\n}\n"@ + render_mut_getters(fs, i + 1)
    } else {
        Seq::<char>::empty()
    }
}

/// The rendered declaration and operations of a product type.
pub open spec fn render_struct(s: StructTypeV) -> Seq<char> {
    "#[derive(Debug, Clone)]\npub struct "@ + s.name + " {\n"@ + render_field_decls(s.fields, 0)
        + "}\n"@ + "impl "@ + s.name + " {\npub fn new("@ + render_ctor_params(s.fields, 0)
        + ") -> Self {\nSelf { "@ + render_ctor_names(s.fields, 0) + " }\n}\n"@ + render_getters(
        s.fields,
        0,
    ) + render_mut_getters(s.fields, 0) + "}\n"@
}

/// The rendered declaration and operations of a wrapper type.
pub open spec fn render_wrapper(w: WrapperStructV) -> Seq<char> {
    "#[derive(Debug, Clone)]\npub struct "@ + w.name + "("@ + render_ty(w.ty) + ");\nimpl "@
        + w.name + " {\npub fn new(inner: "@ + render_ty(w.ty) + ") -> Self {\nSelf(inner)\n}\n"@
        + "pub fn inner(&self) -> &"@ + render_ty(w.ty) + " {\n&self.0\n}\n"@
        + "pub fn inner_mut(&mut self) -> &mut "@ + render_ty(w.ty) + " {\n&mut self.0\n}\n"@
        + "pub fn into_inner(self) -> "@ + render_ty(w.ty) + " {\nself.0\n}\n}\nimpl From<"@
        + render_ty(w.ty) + "> for "@ + w.name + " {\nfn from(i: "@ + render_ty(w.ty)
        + ") -> Self {\nSelf(i)\n}\n}\n"@
}

/// The rendered declaration and operations of any definition.
pub open spec fn render_new_type(nt: NewTypeV) -> Seq<char> {
    match nt {
        NewTypeV::Enum(e) => render_enum(e),
        NewTypeV::Struct(s) => render_struct(s),
        NewTypeV::WrapperStruct(w) => render_wrapper(w),
    }
}

/// The rendered type table from position `i` on.
pub open spec fn render_table(ts: Seq<NewTypeV>, i: int) -> Seq<char>
    decreases ts.len() - i,
{
    if 0 <= i < ts.len() {
        render_new_type(ts[i]) + render_table(ts, i + 1)
    } else {
        Seq::<char>::empty()
    }
}

/// Appends the rendered cases of an enum declaration from `i` on.
fn emit_variant_decls(out: &mut String, vs: &Vec<Variant>, i: usize)
    requires
        i <= vs@.len(),
    ensures
        final(out)@ == old(out)@ + render_variant_decls(variants_view(vs@), i as int),
    decreases vs@.len() - i,
{
    let ghost pre = out@;
    let ghost vsv = variants_view(vs@);
    proof {
        lemma_variants_view(vs@);
    }
    if i < vs.len() {
        vs[i].to_tokens(out);
        out.append(",\n");
        emit_variant_decls(out, vs, i + 1);
        proof {
            assert(out@ =~= pre + render_variant_decls(vsv, i as int));
        }
    } else {
        proof {
            assert(out@ =~= pre + render_variant_decls(vsv, i as int));
        }
    }
}

/// Appends the construction helpers for payload-carrying cases.
fn emit_typed_ctors(out: &mut String, en: &String, vs: &Vec<Variant>, i: usize)
    requires
        i <= vs@.len(),
    ensures
        final(out)@ == old(out)@ + render_typed_ctors(en@, variants_view(vs@), i as int),
    decreases vs@.len() - i,
{
    let ghost pre = out@;
    let ghost vsv = variants_view(vs@);
    proof {
        lemma_variants_view(vs@);
    }
    if i < vs.len() {
        match &vs[i].ty {
            Some(t) => {
                out.append("pub fn ");
                let lower = lower_string(&vs[i].name);
                out.append(lower.as_str());
                out.append("(e: ");
                emit_ty(out, t);
                out.append(") -> Self {\n");
                out.append(en.as_str());
                out.append("::");
                out.append(vs[i].name.as_str());
                out.append("(e)\n}\n");
            },
            None => {},
        }
        emit_typed_ctors(out, en, vs, i + 1);
        proof {
            assert(out@ =~= pre + render_typed_ctors(en@, vsv, i as int));
        }
    } else {
        proof {
            assert(out@ =~= pre + render_typed_ctors(en@, vsv, i as int));
        }
    }
}

/// Appends the zero-argument construction helpers for raw cases.
fn emit_raw_ctors(out: &mut String, en: &String, vs: &Vec<Variant>, i: usize)
    requires
        i <= vs@.len(),
    ensures
        final(out)@ == old(out)@ + render_raw_ctors(en@, variants_view(vs@), i as int),
    decreases vs@.len() - i,
{
    let ghost pre = out@;
    let ghost vsv = variants_view(vs@);
    proof {
        lemma_variants_view(vs@);
    }
    if i < vs.len() {
        match &vs[i].ty {
            Some(_) => {},
            None => {
                out.append("pub fn ");
                let lower = lower_string(&vs[i].name);
                out.append(lower.as_str());
                out.append("() -> Self {\n");
                out.append(en.as_str());
                out.append("::");
                out.append(vs[i].name.as_str());
                out.append("\n}\n");
            },
        }
        emit_raw_ctors(out, en, vs, i + 1);
        proof {
            assert(out@ =~= pre + render_raw_ctors(en@, vsv, i as int));
        }
    } else {
        proof {
            assert(out@ =~= pre + render_raw_ctors(en@, vsv, i as int));
        }
    }
}

impl EnumType {
    /// Appends the declaration and operations of this sum type.
    pub fn to_tokens(&self, out: &mut String)
        ensures
            final(out)@ == old(out)@ + render_enum(self@),
    {
        let ghost pre = out@;
        out.append("#[derive(Debug, Clone)]\npub enum ");
        out.append(self.name.as_str());
        out.append(" {\n");
        emit_variant_decls(out, &self.variants, 0);
        out.append("}\n");
        out.append("impl ");
        out.append(self.name.as_str());
        out.append(" {\n");
        emit_typed_ctors(out, &self.name, &self.variants, 0);
        emit_raw_ctors(out, &self.name, &self.variants, 0);
        out.append("}\n");
        proof {
            assert(out@ =~= pre + render_enum(self@));
        }
    }
}

/// Appends the rendered components of a struct declaration.
fn emit_field_decls(out: &mut String, fs: &Vec<Field>, i: usize)
    requires
        i <= fs@.len(),
    ensures
        final(out)@ == old(out)@ + render_field_decls(fields_view(fs@), i as int),
    decreases fs@.len() - i,
{
    let ghost pre = out@;
    let ghost fsv = fields_view(fs@);
    proof {
        lemma_fields_view(fs@);
    }
    if i < fs.len() {
        fs[i].to_tokens(out);
        out.append(",\n");
        emit_field_decls(out, fs, i + 1);
        proof {
            assert(out@ =~= pre + render_field_decls(fsv, i as int));
        }
    } else {
        proof {
            assert(out@ =~= pre + render_field_decls(fsv, i as int));
        }
    }
}

/// Appends the constructor parameters.
fn emit_ctor_params(out: &mut String, fs: &Vec<Field>, i: usize)
    requires
        i <= fs@.len(),
    ensures
        final(out)@ == old(out)@ + render_ctor_params(fields_view(fs@), i as int),
    decreases fs@.len() - i,
{
    let ghost pre = out@;
    let ghost fsv = fields_view(fs@);
    proof {
        lemma_fields_view(fs@);
    }
    if i < fs.len() {
        if i > 0 {
            out.append(", ");
        }
        fs[i].to_tokens(out);
        emit_ctor_params(out, fs, i + 1);
        proof {
            assert(out@ =~= pre + render_ctor_params(fsv, i as int));
        }
    } else {
        proof {
            assert(out@ =~= pre + render_ctor_params(fsv, i as int));
        }
    }
}

/// Appends the constructor body component names.
fn emit_ctor_names(out: &mut String, fs: &Vec<Field>, i: usize)
    requires
        i <= fs@.len(),
    ensures
        final(out)@ == old(out)@ + render_ctor_names(fields_view(fs@), i as int),
    decreases fs@.len() - i,
{
    let ghost pre = out@;
    let ghost fsv = fields_view(fs@);
    proof {
        lemma_fields_view(fs@);
    }
    if i < fs.len() {
        if i > 0 {
            out.append(", ");
        }
        out.append(fs[i].ident.as_str());
        emit_ctor_names(out, fs, i + 1);
        proof {
            assert(out@ =~= pre + render_ctor_names(fsv, i as int));
        }
    } else {
        proof {
            assert(out@ =~= pre + render_ctor_names(fsv, i as int));
        }
    }
}

/// Appends the read accessors.
fn emit_getters(out: &mut String, fs: &Vec<Field>, i: usize)
    requires
        i <= fs@.len(),
    ensures
        final(out)@ == old(out)@ + render_getters(fields_view(fs@), i as int),
    decreases fs@.len() - i,
{
    let ghost pre = out@;
    let ghost fsv = fields_view(fs@);
    proof {
        lemma_fields_view(fs@);
    }
    if i < fs.len() {
        out.append("pub fn ");
        let lower = lower_string(&fs[i].ident);
        out.append(lower.as_str());
        out.append("(&self) -> &");
        emit_ty(out, &fs[i].ty);
        out.append(" {\n&self.");
        out.append(fs[i].ident.as_str());
        out.append("\n}\n");
        emit_getters(out, fs, i + 1);
        proof {
            assert(out@ =~= pre + render_getters(fsv, i as int));
        }
    } else {
        proof {
            assert(out@ =~= pre + render_getters(fsv, i as int));
        }
    }
}

/// Appends the mutable accessors.
fn emit_mut_getters(out: &mut String, fs: &Vec<Field>, i: usize)
    requires
        i <= fs@.len(),
    ensures
        final(out)@ == old(out)@ + render_mut_getters(fields_view(fs@), i as int),
    decreases fs@.len() - i,
{
    let ghost pre = out@;
    let ghost fsv = fields_view(fs@);
    proof {
        lemma_fields_view(fs@);
    }
    if i < fs.len() {
        out.append("pub fn ");
        let lower = lower_string(&fs[i].ident);
        out.append(lower.as_str());
        out.append("_mut(&mut self) -> &mut ");
        emit_ty(out, &fs[i].ty);
        out.append(" {\n&mut self.");
        out.append(fs[i].ident.as_str());
        out.append("\n}\n");
        emit_mut_getters(out, fs, i + 1);
        proof {
            assert(out@ =~= pre + render_mut_getters(fsv, i as int));
        }
    } else {
        proof {
            assert(out@ =~= pre + render_mut_getters(fsv, i as int));
        }
    }
}

impl StructType {
    /// Appends the declaration and operations of this product type.
    pub fn to_tokens(&self, out: &mut String)
        ensures
            final(out)@ == old(out)@ + render_struct(self@),
    {
        let ghost pre = out@;
        out.append("#[derive(Debug, Clone)]\npub struct ");
        out.append(self.name.as_str());
        out.append(" {\n");
        emit_field_decls(out, &self.fields, 0);
        out.append("}\n");
        out.append("impl ");
        out.append(self.name.as_str());
        out.append(" {\npub fn new(");
        emit_ctor_params(out, &self.fields, 0);
        out.append(") -> Self {\nSelf { ");
        emit_ctor_names(out, &self.fields, 0);
        out.append(" }\n}\n");
        emit_getters(out, &self.fields, 0);
        emit_mut_getters(out, &self.fields, 0);
        out.append("}\n");
        proof {
            assert(out@ =~= pre + render_struct(self@));
        }
    }
}

impl WrapperStruct {
    /// Appends the declaration and operations of this wrapper type.
    pub fn to_tokens(&self, out: &mut String)
        ensures
            final(out)@ == old(out)@ + render_wrapper(self@),
    {
        let ghost pre = out@;
        out.append("#[derive(Debug, Clone)]\npub struct ");
        out.append(self.name.as_str());
        out.append("(");
        emit_ty(out, &self.ty);
        out.append(");\nimpl ");
        out.append(self.name.as_str());
        out.append(" {\npub fn new(inner: ");
        emit_ty(out, &self.ty);
        out.append(") -> Self {\nSelf(inner)\n}\n");
        out.append("pub fn inner(&self) -> &");
        emit_ty(out, &self.ty);
        out.append(" {\n&self.0\n}\n");
        out.append("pub fn inner_mut(&mut self) -> &mut ");
        emit_ty(out, &self.ty);
        out.append(" {\n&mut self.0\n}\n");
        out.append("pub fn into_inner(self) -> ");
        emit_ty(out, &self.ty);
        out.append(" {\nself.0\n}\n}\nimpl From<");
        emit_ty(out, &self.ty);
        out.append("> for ");
        out.append(self.name.as_str());
        out.append(" {\nfn from(i: ");
        emit_ty(out, &self.ty);
        out.append(") -> Self {\nSelf(i)\n}\n}\n");
        proof {
            assert(out@ =~= pre + render_wrapper(self@));
        }
    }
}

impl NewType {
    /// Appends the declaration and operations of this definition.
    pub fn to_tokens(&self, out: &mut String)
        ensures
            final(out)@ == old(out)@ + render_new_type(self@),
    {
        match self {
            NewType::Enum(e) => e.to_tokens(out),
            NewType::Struct(s) => s.to_tokens(out),
            NewType::WrapperStruct(w) => w.to_tokens(out),
        }
    }
}

/// Appends the rendered type table from position `i` on.
fn emit_table(out: &mut String, ts: &Vec<NewType>, i: usize)
    requires
        i <= ts@.len(),
    ensures
        final(out)@ == old(out)@ + render_table(table_view(ts@), i as int),
    decreases ts@.len() - i,
{
    let ghost pre = out@;
    let ghost tsv = table_view(ts@);
    proof {
        crate::context::lemma_table_view(ts@);
    }
    if i < ts.len() {
        ts[i].to_tokens(out);
        emit_table(out, ts, i + 1);
        proof {
            assert(out@ =~= pre + render_table(tsv, i as int));
        }
    } else {
        proof {
            assert(out@ =~= pre + render_table(tsv, i as int));
        }
    }
}

/// The rendered module: every hoisted type, the root aggregate enum
/// `Ast` whose cases are the top-level bindings, and the traversal
/// interface, if one was generated.
pub open spec fn render_module(ts: Seq<NewTypeV>, vs: Seq<VariantV>, visitor: Option<Seq<char>>) -> Seq<char> {
    "pub mod ast {\n"@ + render_table(ts, 0) + render_enum(EnumTypeV { name: "Ast"@, variants: vs })
        + (match visitor {
        Some(v) => v,
        None => Seq::<char>::empty(),
    }) + "}\n"@
}

impl Context {
    /// Renders the generated module: the hoisted types, the root `Ast`
    /// aggregate over the top-level bindings, and the traversal
    /// interface handed in.
    pub fn create_ast(self, visitor: Option<String>) -> (r: String)
        ensures
            r@ == render_module(
                table_view(self.new_types@),
                variants_view(self.variants@),
                match visitor {
                    Some(v) => Some(v@),
                    None => None,
                },
            ),
    {
        let ghost tsv = table_view(self.new_types@);
        let ghost vsv = variants_view(self.variants@);
        let ghost visv = match visitor {
            Some(ref v) => Some(v@),
            None => None::<Seq<char>>,
        };
        let mut out = String::new();
        out.append("pub mod ast {\n");
        emit_table(&mut out, &self.new_types, 0);
        let ast_name = String::from_str("Ast");
        let ast = EnumType { name: ast_name, variants: self.variants };
        proof {
            reveal_strlit("Ast");
            assert(ast@.name == "Ast"@);
        }
        ast.to_tokens(&mut out);
        match &visitor {
            Some(v) => {
                out.append(v.as_str());
            },
            None => {},
        }
        out.append("}\n");
        proof {
            assert(out@ =~= render_module(tsv, vsv, visv));
        }
        out
    }
}

} // verus!
