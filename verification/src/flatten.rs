//! The type-table flattener.
//!
//! Flattening a definition emits the definition itself first, stripped of
//! the inline definitions its cases and components carried, and then, for
//! each case or component that carried one, the flattened form of that
//! inline definition, in declaration order.

use vstd::prelude::*;

use crate::context::{
    fields_view, lemma_fields_view, lemma_table_view, lemma_tys_view, lemma_variants_view, nt_view, table_view,
    ty_view, tys_view, variant_view, variants_view, field_view, EnumType, Field, NewType,
    StructType, TypeRef, Variant, WrapperStruct,
};
use crate::model::{wf_field, wf_new_type, wf_variant, EnumTypeV, FieldV, NewTypeV, StructTypeV, TyV, VariantV};

verus! {

/// A case with its inline definition removed; the plain reference the
/// parser recorded alongside stays.
pub open spec fn strip_variant(v: VariantV) -> VariantV {
    VariantV { new_type: None, name: v.name, ty: v.ty }
}

/// A component with its inline definition removed.
pub open spec fn strip_field(f: FieldV) -> FieldV {
    FieldV { new_type: None, ident: f.ident, ty: f.ty }
}

/// A definition with the inline definitions of all its direct cases and
/// components removed.
pub open spec fn strip(nt: NewTypeV) -> NewTypeV {
    match nt {
        NewTypeV::Enum(e) => NewTypeV::Enum(
            EnumTypeV { name: e.name, variants: e.variants.map_values(|v: VariantV| strip_variant(v)) },
        ),
        NewTypeV::Struct(s) => NewTypeV::Struct(
            StructTypeV { name: s.name, fields: s.fields.map_values(|f: FieldV| strip_field(f)) },
        ),
        NewTypeV::WrapperStruct(_) => nt,
    }
}

/// How many cases or components a definition has.
pub open spec fn n_children(nt: NewTypeV) -> nat {
    match nt {
        NewTypeV::Enum(e) => e.variants.len(),
        NewTypeV::Struct(s) => s.fields.len(),
        NewTypeV::WrapperStruct(_) => 0,
    }
}

/// The inline definition the `i`-th case or component carries, if any.
pub open spec fn child_def(nt: NewTypeV, i: int) -> Option<NewTypeV> {
    match nt {
        NewTypeV::Enum(e) => e.variants[i].new_type,
        NewTypeV::Struct(s) => s.fields[i].new_type,
        NewTypeV::WrapperStruct(_) => None,
    }
}

/// The flattened form of one definition: the stripped definition itself,
/// then each child's flattened form, in declaration order.
pub open spec fn flatten_spec(nt: NewTypeV) -> Seq<NewTypeV>
    decreases nt, 1int, 0int,
{
    seq![strip(nt)] + flatten_children(nt, 0)
}

/// The flattened forms of the children of `nt` from position `i` on.
pub open spec fn flatten_children(nt: NewTypeV, i: int) -> Seq<NewTypeV>
    decreases nt, 0int, n_children(nt) - i,
{
    if 0 <= i < n_children(nt) {
        (match child_def(nt, i) {
            Some(d) => flatten_spec(d),
            None => seq![],
        }) + flatten_children(nt, i + 1)
    } else {
        seq![]
    }
}

/// No case or component of the definition carries an inline definition.
pub open spec fn is_stripped(nt: NewTypeV) -> bool {
    match nt {
        NewTypeV::Enum(e) => forall|k: int|
            0 <= k < e.variants.len() ==> (#[trigger] e.variants[k]).new_type is None,
        NewTypeV::Struct(s) => forall|k: int|
            0 <= k < s.fields.len() ==> (#[trigger] s.fields[k]).new_type is None,
        NewTypeV::WrapperStruct(_) => true,
    }
}

/// Name-hoisting completeness: every entry a flattening emits is free of
/// embedded inline definitions.
pub proof fn lemma_flatten_stripped(nt: NewTypeV)
    ensures
        forall|k: int|
            0 <= k < flatten_spec(nt).len() ==> is_stripped(#[trigger] flatten_spec(nt)[k]),
    decreases nt, 1int, 0int,
{
    assert(is_stripped(strip(nt)));
    lemma_flatten_children_stripped(nt, 0);
    assert forall|k: int|
        0 <= k < flatten_spec(nt).len() implies is_stripped(#[trigger] flatten_spec(nt)[k]) by {
        if k == 0 {
            assert(flatten_spec(nt)[k] == strip(nt));
        } else {
            assert(flatten_spec(nt)[k] == flatten_children(nt, 0)[k - 1]);
        }
    }
}

proof fn lemma_flatten_children_stripped(nt: NewTypeV, i: int)
    ensures
        forall|k: int|
            0 <= k < flatten_children(nt, i).len() ==> is_stripped(
                #[trigger] flatten_children(nt, i)[k],
            ),
    decreases nt, 0int, n_children(nt) - i,
{
    if 0 <= i < n_children(nt) {
        match child_def(nt, i) {
            Some(d) => {
                lemma_flatten_stripped(d);
            },
            None => {},
        }
        lemma_flatten_children_stripped(nt, i + 1);
        let head = match child_def(nt, i) {
            Some(d) => flatten_spec(d),
            None => seq![],
        };
        assert forall|k: int|
            0 <= k < flatten_children(nt, i).len() implies is_stripped(
            #[trigger] flatten_children(nt, i)[k],
        ) by {
            if k < head.len() {
                assert(flatten_children(nt, i)[k] == head[k]);
            } else {
                assert(flatten_children(nt, i)[k] == flatten_children(nt, i + 1)[k - head.len()]);
            }
        }
    }
}

/// Idempotence of flattening, node form: flattening a definition that is
/// already free of inline definitions yields just that definition.
pub proof fn lemma_flatten_idempotent(nt: NewTypeV)
    requires
        is_stripped(nt),
    ensures
        flatten_spec(nt) =~= seq![nt],
{
    match nt {
        NewTypeV::Enum(e) => {
            assert(e.variants.map_values(|v: VariantV| strip_variant(v)) =~= e.variants);
            assert(NewTypeV::Enum(EnumTypeV { name: e.name, variants: e.variants }) == nt);
        },
        NewTypeV::Struct(s) => {
            assert(s.fields.map_values(|f: FieldV| strip_field(f)) =~= s.fields);
        },
        NewTypeV::WrapperStruct(_) => {},
    }
    lemma_flatten_children_empty(nt, 0);
}

proof fn lemma_flatten_children_empty(nt: NewTypeV, i: int)
    requires
        is_stripped(nt),
    ensures
        flatten_children(nt, i) =~= Seq::<NewTypeV>::empty(),
    decreases n_children(nt) - i,
{
    if 0 <= i < n_children(nt) {
        assert(child_def(nt, i) is None);
        lemma_flatten_children_empty(nt, i + 1);
    }
}

/// The reference the `i`-th case or component of a definition records.
pub open spec fn child_ref(nt: NewTypeV, i: int) -> Option<TyV> {
    match nt {
        NewTypeV::Enum(e) => e.variants[i].ty,
        NewTypeV::Struct(s) => Some(s.fields[i].ty),
        NewTypeV::WrapperStruct(_) => None,
    }
}

/// Somewhere among the children of `nt` from position `j` on, the
/// hoisted block of child `i` begins with that child's stripped form.
proof fn lemma_children_block(nt: NewTypeV, j: int, i: int)
    requires
        0 <= j <= i < n_children(nt),
        child_def(nt, i) is Some,
    ensures
        exists|k: int|
            0 <= k < flatten_children(nt, j).len() && #[trigger] flatten_children(nt, j)[k]
                == strip(child_def(nt, i)->0),
    decreases i - j,
{
    let d = child_def(nt, i)->0;
    if j == i {
        assert(flatten_children(nt, i) == flatten_spec(d) + flatten_children(nt, i + 1));
        assert(flatten_spec(d)[0] == strip(d));
        assert(flatten_children(nt, j)[0] == strip(d));
    } else {
        lemma_children_block(nt, j + 1, i);
        let head = match child_def(nt, j) {
            Some(d2) => flatten_spec(d2),
            None => seq![],
        };
        let k = choose|k: int|
            0 <= k < flatten_children(nt, j + 1).len() && #[trigger] flatten_children(
                nt,
                j + 1,
            )[k] == strip(d);
        assert(flatten_children(nt, j) == head + flatten_children(nt, j + 1));
        assert(flatten_children(nt, j)[head.len() + k] == strip(d));
    }
}

/// Name-hoisting completeness, for one definition: after flattening a
/// well-formed definition, the slot that carried an inline definition
/// holds exactly the plain reference to that definition's name, and the
/// table contains the hoisted definition itself, stripped, under that
/// same name.
pub proof fn lemma_hoisting_complete(nt: NewTypeV, i: int)
    requires
        wf_new_type(nt),
        0 <= i < n_children(nt),
        child_def(nt, i) is Some,
    ensures
        child_ref(strip(nt), i) == Some(
            TyV { name: child_def(nt, i)->0.name(), args: Seq::<TyV>::empty() },
        ),
        strip(child_def(nt, i)->0).name() == child_def(nt, i)->0.name(),
        exists|k: int|
            1 <= k < flatten_spec(nt).len() && #[trigger] flatten_spec(nt)[k] == strip(
                child_def(nt, i)->0,
            ),
{
    let d = child_def(nt, i)->0;
    match nt {
        NewTypeV::Enum(e) => {
            assert(wf_variant(e.variants[i]));
            assert(e.variants[i].ty == Some(TyV { name: d.name(), args: seq![] }));
            assert(strip(nt)->Enum_0.variants[i] == strip_variant(e.variants[i]));
            assert(seq![] =~= Seq::<TyV>::empty());
        },
        NewTypeV::Struct(s) => {
            assert(wf_field(s.fields[i]));
            assert(strip(nt)->Struct_0.fields[i] == strip_field(s.fields[i]));
            assert(seq![] =~= Seq::<TyV>::empty());
        },
        NewTypeV::WrapperStruct(_) => {},
    }
    match d {
        NewTypeV::Enum(_) => {},
        NewTypeV::Struct(_) => {},
        NewTypeV::WrapperStruct(_) => {},
    }
    lemma_children_block(nt, 0, i);
    let k = choose|k: int|
        0 <= k < flatten_children(nt, 0).len() && #[trigger] flatten_children(nt, 0)[k] == strip(
            d,
        );
    assert(flatten_spec(nt) == seq![strip(nt)] + flatten_children(nt, 0));
    assert(flatten_spec(nt)[1 + k] == strip(d));
}

/// The hoisted type table of a parsed description: for each top-level
/// binding from position `i` on that carries an inline definition, that
/// definition's flattened form, in binding order.
pub open spec fn hoist_bindings(vs: Seq<VariantV>, i: int) -> Seq<NewTypeV>
    decreases vs.len() - i,
{
    if 0 <= i < vs.len() {
        (match vs[i].new_type {
            Some(d) => flatten_spec(d),
            None => seq![],
        }) + hoist_bindings(vs, i + 1)
    } else {
        seq![]
    }
}

/// Every entry the hoisted table of a description holds is free of
/// embedded inline definitions.
pub proof fn lemma_hoist_bindings_stripped(vs: Seq<VariantV>, i: int)
    ensures
        forall|k: int|
            0 <= k < hoist_bindings(vs, i).len() ==> is_stripped(#[trigger] hoist_bindings(vs, i)[k]),
    decreases vs.len() - i,
{
    if 0 <= i < vs.len() {
        match vs[i].new_type {
            Some(d) => {
                lemma_flatten_stripped(d);
            },
            None => {},
        }
        lemma_hoist_bindings_stripped(vs, i + 1);
        let head = match vs[i].new_type {
            Some(d) => flatten_spec(d),
            None => seq![],
        };
        assert forall|k: int|
            0 <= k < hoist_bindings(vs, i).len() implies is_stripped(
            #[trigger] hoist_bindings(vs, i)[k],
        ) by {
            if k < head.len() {
                assert(hoist_bindings(vs, i)[k] == head[k]);
            } else {
                assert(hoist_bindings(vs, i)[k] == hoist_bindings(vs, i + 1)[k - head.len()]);
            }
        }
    }
}

/// Name-hoisting completeness, for a whole description: a well-formed
/// top-level binding that carried an inline definition keeps, after
/// stripping, exactly the plain reference to that definition's name, and
/// the hoisted table contains the definition itself under that name.
pub proof fn lemma_binding_hoisting(vs: Seq<VariantV>, i: int)
    requires
        0 <= i < vs.len(),
        wf_variant(vs[i]),
        vs[i].new_type is Some,
    ensures
        strip_variant(vs[i]).ty == Some(
            TyV { name: vs[i].new_type->0.name(), args: Seq::<TyV>::empty() },
        ),
        exists|k: int|
            0 <= k < hoist_bindings(vs, 0).len() && #[trigger] hoist_bindings(vs, 0)[k] == strip(
                vs[i].new_type->0,
            ),
        strip(vs[i].new_type->0).name() == vs[i].new_type->0.name(),
{
    let d = vs[i].new_type->0;
    assert(seq![] =~= Seq::<TyV>::empty());
    match d {
        NewTypeV::Enum(_) => {},
        NewTypeV::Struct(_) => {},
        NewTypeV::WrapperStruct(_) => {},
    }
    lemma_binding_block(vs, 0, i);
}

/// Somewhere in the hoisted table from binding `j` on, the block of
/// binding `i` begins with that binding's stripped definition.
proof fn lemma_binding_block(vs: Seq<VariantV>, j: int, i: int)
    requires
        0 <= j <= i < vs.len(),
        vs[i].new_type is Some,
    ensures
        exists|k: int|
            0 <= k < hoist_bindings(vs, j).len() && #[trigger] hoist_bindings(vs, j)[k] == strip(
                vs[i].new_type->0,
            ),
    decreases i - j,
{
    let d = vs[i].new_type->0;
    if j == i {
        assert(hoist_bindings(vs, i) == flatten_spec(d) + hoist_bindings(vs, i + 1));
        assert(flatten_spec(d)[0] == strip(d));
        assert(hoist_bindings(vs, j)[0] == strip(d));
    } else {
        lemma_binding_block(vs, j + 1, i);
        let head = match vs[j].new_type {
            Some(d2) => flatten_spec(d2),
            None => seq![],
        };
        let k = choose|k: int|
            0 <= k < hoist_bindings(vs, j + 1).len() && #[trigger] hoist_bindings(vs, j + 1)[k]
                == strip(d);
        assert(hoist_bindings(vs, j) == head + hoist_bindings(vs, j + 1));
        assert(hoist_bindings(vs, j)[head.len() + k] == strip(d));
    }
}

/// The flattened form of a whole table: each entry's flattened form, in
/// table order.
pub open spec fn flatten_table(ts: Seq<NewTypeV>) -> Seq<NewTypeV>
    decreases ts.len(),
{
    if ts.len() == 0 {
        seq![]
    } else {
        flatten_spec(ts[0]) + flatten_table(ts.drop_first())
    }
}

/// Idempotence of flattening, table form: a table with no inline
/// definitions left flattens to itself.
pub proof fn lemma_flatten_table_idempotent(ts: Seq<NewTypeV>)
    requires
        forall|k: int| 0 <= k < ts.len() ==> is_stripped(#[trigger] ts[k]),
    ensures
        flatten_table(ts) =~= ts,
    decreases ts.len(),
{
    if ts.len() > 0 {
        lemma_flatten_idempotent(ts[0]);
        lemma_flatten_table_idempotent(ts.drop_first());
        assert(flatten_table(ts) =~= seq![ts[0]] + ts.drop_first());
    }
}

/// Order preservation: a flattening opens with the stripped definition
/// itself, followed by the hoisted forms of its children; the block of
/// the `i`-th child stands directly before the blocks of its later
/// siblings, so sibling order matches declaration order, and each block
/// opens with that child's own stripped definition.
pub proof fn lemma_flatten_order(nt: NewTypeV, i: int)
    requires
        0 <= i < n_children(nt),
    ensures
        flatten_spec(nt).len() >= 1,
        flatten_spec(nt)[0] == strip(nt),
        flatten_spec(nt) == seq![strip(nt)] + flatten_children(nt, 0),
        flatten_children(nt, i) == (match child_def(nt, i) {
            Some(d) => flatten_spec(d),
            None => Seq::<NewTypeV>::empty(),
        }) + flatten_children(nt, i + 1),
        child_def(nt, i) is Some ==> flatten_spec(child_def(nt, i)->0)[0] == strip(
            child_def(nt, i)->0,
        ),
{
    match child_def(nt, i) {
        Some(d) => {
            assert(flatten_spec(d) == seq![strip(d)] + flatten_children(d, 0));
            assert(flatten_spec(d)[0] == strip(d));
            assert(flatten_children(nt, i) == flatten_spec(d) + flatten_children(nt, i + 1));
        },
        None => {
            assert(flatten_children(nt, i) =~= seq![] + flatten_children(nt, i + 1));
        },
    }
}

pub proof fn lemma_table_view_concat(a: Seq<NewType>, b: Seq<NewType>)
    ensures
        table_view(a + b) =~= table_view(a) + table_view(b),
    decreases b.len(),
{
    if b.len() == 0 {
        assert(a + b =~= a);
        assert(table_view(a + b) == table_view(a));
    } else {
        lemma_table_view_concat(a, b.drop_last());
        assert((a + b).drop_last() =~= a + b.drop_last());
        assert((a + b).last() == b.last());
        assert(table_view(a + b) == table_view((a + b).drop_last()) + seq![nt_view((a + b).last())]);
    }
}

/// Clones a type reference.
#[verifier::loop_isolation(false)]
pub(crate) fn clone_ty(t: &TypeRef) -> (r: TypeRef)
    ensures
        ty_view(r) == ty_view(*t),
    decreases *t,
{
    let mut args: Vec<TypeRef> = Vec::new();
    let n = t.args.len();
    for i in 0..n
        invariant
            args@.len() == i,
            forall|k: int| 0 <= k < i ==> ty_view(#[trigger] args@[k]) == ty_view(t.args@[k]),
        decreases n - i,
    {
        proof {
            let tg = *t;
            assert(decreases_to!(tg => tg.args));
            assert(decreases_to!(tg.args => tg.args@));
            assert(decreases_to!(tg.args@ => tg.args@[i as int]));
        }
        let a = clone_ty(&t.args[i]);
        args.push(a);
    }
    proof {
        lemma_tys_view(args@);
        lemma_tys_view(t.args@);
        assert(tys_view(args@) =~= tys_view(t.args@));
    }
    TypeRef { name: t.name.clone(), args }
}

/// Clones an optional type reference.
pub(crate) fn clone_opt_ty(t: &Option<TypeRef>) -> (r: Option<TypeRef>)
    ensures
        match r {
            Some(ty) => t is Some && ty_view(ty) == ty_view(t->0),
            None => t is None,
        },
{
    match t {
        Some(ty) => Some(clone_ty(ty)),
        None => None,
    }
}

/// Flattens one definition: returns the stripped definition itself,
/// followed by the flattened forms of the inline definitions its cases
/// and components carried, in declaration order.
#[verifier::loop_isolation(false)]
#[verifier::rlimit(60)]
pub fn flatten(new_type: &NewType) -> (r: Vec<NewType>)
    ensures
        table_view(r@) == flatten_spec(nt_view(*new_type)),
    decreases *new_type,
{
    let ghost ntv = nt_view(*new_type);
    let mut tail: Vec<NewType> = Vec::new();
    let stripped: NewType = match new_type {
        NewType::Enum(e) => {
            let mut vs: Vec<Variant> = Vec::new();
            let n = e.variants.len();
            proof {
                lemma_variants_view(e.variants@);
            }
            for i in 0..n
                invariant
                    n == e.variants.len(),
                    nt_view(*new_type) == ntv,
                    ntv == nt_view(NewType::Enum(*e)),
                    n == n_children(ntv),
                    vs@.len() == i,
                    forall|k: int|
                        0 <= k < i ==> variant_view(#[trigger] vs@[k]) == strip_variant(
                            variant_view(e.variants@[k]),
                        ),
                    flatten_children(ntv, 0) == table_view(tail@) + flatten_children(ntv, i as int),
                decreases n - i,
            {
                proof {
                    lemma_variants_view(e.variants@);
                    assert(child_def(ntv, i as int) == variant_view(e.variants@[i as int]).new_type);
                }
                let v = &e.variants[i];
                let ghost tail0 = tail@;
                match &v.new_type {
                    Some(inner) => {
                        proof {
                            let ntg = *new_type;
                            assert(decreases_to!(ntg => ntg->Enum_0));
                            let eg = ntg->Enum_0;
                            assert(eg == *e);
                            assert(decreases_to!(eg => eg.variants));
                            assert(decreases_to!(eg.variants => eg.variants@));
                            assert((i as int) < eg.variants@.len());
                            assert(decreases_to!(eg.variants@ => eg.variants@[i as int]));
                            let vg = eg.variants@[i as int];
                            assert(decreases_to!(vg => vg.new_type));
                            assert(vg.new_type == Some(*inner));
                            assert(decreases_to!(vg.new_type => vg.new_type->0));
                        }
                        let mut fl = flatten(inner);
                        proof {
                            lemma_table_view_concat(tail0, fl@);
                        }
                        tail.append(&mut fl);
                        proof {
                            assert(child_def(ntv, i as int) == Some(nt_view(*inner)));
                            assert(flatten_children(ntv, i as int) == flatten_spec(nt_view(*inner))
                                + flatten_children(ntv, i as int + 1));
                            assert(flatten_children(ntv, 0) == table_view(tail@)
                                + flatten_children(ntv, i as int + 1));
                        }
                    },
                    None => {
                        proof {
                            assert(flatten_children(ntv, i as int) =~= seq![] + flatten_children(
                                ntv,
                                i as int + 1,
                            ));
                        }
                    },
                }
                let name = v.name.clone();
                let ty = clone_opt_ty(&v.ty);
                vs.push(Variant { new_type: None, name, ty });
            }
            let st = NewType::Enum(EnumType { name: e.name.clone(), variants: vs });
            proof {
                assert(flatten_children(ntv, n as int) =~= Seq::<NewTypeV>::empty());
                assert(table_view(tail@) + Seq::<NewTypeV>::empty() =~= table_view(tail@));
                assert(table_view(tail@) == flatten_children(ntv, 0));
                lemma_variants_view(st->Enum_0.variants@);
                lemma_variants_view(e.variants@);
                assert(variants_view(st->Enum_0.variants@) =~= variants_view(
                    e.variants@,
                ).map_values(|v: VariantV| strip_variant(v)));
                assert(nt_view(st) == strip(ntv));
            }
            st
        },
        NewType::Struct(s) => {
            let mut fs: Vec<Field> = Vec::new();
            let n = s.fields.len();
            proof {
                lemma_fields_view(s.fields@);
            }
            for i in 0..n
                invariant
                    n == s.fields.len(),
                    nt_view(*new_type) == ntv,
                    ntv == nt_view(NewType::Struct(*s)),
                    n == n_children(ntv),
                    fs@.len() == i,
                    forall|k: int|
                        0 <= k < i ==> field_view(#[trigger] fs@[k]) == strip_field(
                            field_view(s.fields@[k]),
                        ),
                    flatten_children(ntv, 0) == table_view(tail@) + flatten_children(ntv, i as int),
                decreases n - i,
            {
                proof {
                    lemma_fields_view(s.fields@);
                    assert(child_def(ntv, i as int) == field_view(s.fields@[i as int]).new_type);
                }
                let f = &s.fields[i];
                let ghost tail0 = tail@;
                match &f.new_type {
                    Some(inner) => {
                        proof {
                            let ntg = *new_type;
                            assert(decreases_to!(ntg => ntg->Struct_0));
                            let sg = ntg->Struct_0;
                            assert(sg == *s);
                            assert(decreases_to!(sg => sg.fields));
                            assert(decreases_to!(sg.fields => sg.fields@));
                            assert((i as int) < sg.fields@.len());
                            assert(decreases_to!(sg.fields@ => sg.fields@[i as int]));
                            let fg = sg.fields@[i as int];
                            assert(decreases_to!(fg => fg.new_type));
                            assert(fg.new_type == Some(*inner));
                            assert(decreases_to!(fg.new_type => fg.new_type->0));
                        }
                        let mut fl = flatten(inner);
                        proof {
                            lemma_table_view_concat(tail0, fl@);
                        }
                        tail.append(&mut fl);
                        proof {
                            assert(child_def(ntv, i as int) == Some(nt_view(*inner)));
                            assert(flatten_children(ntv, i as int) == flatten_spec(nt_view(*inner))
                                + flatten_children(ntv, i as int + 1));
                            assert(flatten_children(ntv, 0) == table_view(tail@)
                                + flatten_children(ntv, i as int + 1));
                        }
                    },
                    None => {
                        proof {
                            assert(flatten_children(ntv, i as int) =~= seq![] + flatten_children(
                                ntv,
                                i as int + 1,
                            ));
                        }
                    },
                }
                let ident = f.ident.clone();
                let ty = clone_ty(&f.ty);
                fs.push(Field { new_type: None, ident, ty });
            }
            let st = NewType::Struct(StructType { name: s.name.clone(), fields: fs });
            proof {
                assert(flatten_children(ntv, n as int) =~= Seq::<NewTypeV>::empty());
                assert(table_view(tail@) + Seq::<NewTypeV>::empty() =~= table_view(tail@));
                assert(table_view(tail@) == flatten_children(ntv, 0));
                lemma_fields_view(st->Struct_0.fields@);
                lemma_fields_view(s.fields@);
                assert(fields_view(st->Struct_0.fields@) =~= fields_view(s.fields@).map_values(
                    |f: FieldV| strip_field(f),
                ));
                assert(nt_view(st) == strip(ntv));
            }
            st
        },
        NewType::WrapperStruct(w) => {
            proof {
                assert(tail@ =~= Seq::<NewType>::empty());
                assert(table_view(tail@) =~= Seq::<NewTypeV>::empty());
                assert(table_view(tail@) == flatten_children(ntv, 0));
            }
            let st = NewType::WrapperStruct(
                WrapperStruct { name: w.name.clone(), ty: clone_ty(&w.ty) },
            );
            proof {
                assert(nt_view(st) == strip(ntv));
            }
            st
        },
    };
    proof {
        assert(nt_view(stripped) == strip(ntv));
        assert(table_view(tail@) == flatten_children(ntv, 0));
    }
    let mut r: Vec<NewType> = Vec::new();
    r.push(stripped);
    let ghost r0 = r@;
    let ghost tailv = tail@;
    r.append(&mut tail);
    proof {
        assert(r0 =~= seq![stripped]);
        lemma_table_view(r0);
        assert(table_view(r0).len() == 1 && table_view(r0)[0] == nt_view(stripped));
        assert(table_view(r0) =~= seq![strip(ntv)]);
        lemma_table_view_concat(r0, tailv);
        assert(r@ == r0 + tailv);
        assert(table_view(r@) =~= seq![strip(ntv)] + flatten_children(ntv, 0));
        assert(table_view(r@) == flatten_spec(ntv));
    }
    r
}

} // verus!
