//! The traversal generator.
//!
//! From the flattened type table it renders one polymorphic interface
//! with one dispatch method per composite type, plus default no-op hooks.
//! Each enum case is classified against the set of hoisted type names:
//! a case with no payload is raw and gets a zero-argument hook; a case
//! whose payload names a hoisted type dispatches straight to that type's
//! own method; any other case is basic and gets a hook taking the
//! opaque payload. A struct's dispatch method walks exactly its
//! hoisted-type fields, in declaration order; a wrapper's walks its
//! inner value when that is hoisted.

use vstd::prelude::*;

use crate::context::{
    lemma_table_view, lemma_variants_view, lemma_fields_view, table_view, ty_view, Context,
    EnumType, NewType, StructType, TypeRef, WrapperStruct,
};
use crate::lower_seq;
use crate::model::{EnumTypeV, NewTypeV, StructTypeV, TyV, VariantV, WrapperStructV};
use crate::render::{lower_string, render_ty, emit_ty};

verus! {

/// The views of a list of names.
pub open spec fn names_view(ss: Seq<String>) -> Seq<Seq<char>> {
    ss.map_values(|s: String| s@)
}

/// The names the table defines: the new-type set.
pub open spec fn names_of(ts: Seq<NewTypeV>) -> Seq<Seq<char>> {
    ts.map_values(|nt: NewTypeV| nt.name())
}

/// A reference classifies as a hoisted type exactly when it is a bare
/// name and that name is in the new-type set.
pub open spec fn is_new_type_ref(t: TyV, names: Seq<Seq<char>>) -> bool {
    t.args.len() == 0 && names.contains(t.name)
}

/// The three classes of an enum case.
pub enum VariantClass {
    /// No payload: a zero-argument hook, no descent.
    Raw,
    /// The payload is a hoisted type: dispatch descends directly.
    NewTypeRef,
    /// The payload is external or opaque: a default-empty hook takes it.
    Basic,
}

/// The classification of one case against the new-type set.
pub open spec fn classify(v: VariantV, names: Seq<Seq<char>>) -> VariantClass {
    match v.ty {
        None => VariantClass::Raw,
        Some(t) => if is_new_type_ref(t, names) {
            VariantClass::NewTypeRef
        } else {
            VariantClass::Basic
        },
    }
}

/// One method of the traversal interface, as a structured value.
pub enum MethodV {
    /// The dispatch method of one composite type.
    Dispatch { ty: NewTypeV },
    /// The default-empty hook of one basic-classified case.
    BasicHook { owner: Seq<char>, variant: Seq<char>, payload: TyV },
    /// The zero-argument hook of one raw case.
    RawHook { owner: Seq<char>, variant: Seq<char> },
}

/// The hooks an enum contributes: one per basic case, then one per raw
/// case, each in declaration order.
pub open spec fn hooks_of(e: EnumTypeV, names: Seq<Seq<char>>) -> Seq<MethodV> {
    e.variants.filter(|v: VariantV| classify(v, names) is Basic).map_values(
        |v: VariantV| MethodV::BasicHook { owner: e.name, variant: v.name, payload: v.ty->0 },
    ) + e.variants.filter(|v: VariantV| classify(v, names) is Raw).map_values(
        |v: VariantV| MethodV::RawHook { owner: e.name, variant: v.name },
    )
}

/// The methods one table entry contributes: its dispatch method, then
/// its hooks.
pub open spec fn methods_of_type(nt: NewTypeV, names: Seq<Seq<char>>) -> Seq<MethodV> {
    seq![MethodV::Dispatch { ty: nt }] + (match nt {
        NewTypeV::Enum(e) => hooks_of(e, names),
        _ => seq![],
    })
}

/// The methods of the whole interface, from table position `i` on.
pub open spec fn methods_of_table(ts: Seq<NewTypeV>, names: Seq<Seq<char>>, i: int) -> Seq<
    MethodV,
>
    decreases ts.len() - i,
{
    if 0 <= i < ts.len() {
        methods_of_type(ts[i], names) + methods_of_table(ts, names, i + 1)
    } else {
        seq![]
    }
}

proof fn lemma_filter_none<A>(s: Seq<A>, pred: spec_fn(A) -> bool)
    requires
        forall|i: int| 0 <= i < s.len() ==> !pred(s[i]),
    ensures
        s.filter(pred) =~= Seq::<A>::empty(),
    decreases s.len(),
{
    reveal(Seq::filter);
    if s.len() > 0 {
        lemma_filter_none(s.drop_last(), pred);
    }
}

proof fn lemma_filter_all<A>(s: Seq<A>, pred: spec_fn(A) -> bool)
    requires
        forall|i: int| 0 <= i < s.len() ==> pred(s[i]),
    ensures
        s.filter(pred) =~= s,
    decreases s.len(),
{
    reveal(Seq::filter);
    if s.len() > 0 {
        lemma_filter_all(s.drop_last(), pred);
        assert(s.drop_last().push(s.last()) =~= s);
    }
}

/// One table entry contributes exactly one dispatch method.
proof fn lemma_methods_of_type_dispatch(nt: NewTypeV, names: Seq<Seq<char>>)
    ensures
        methods_of_type(nt, names).filter(|m: MethodV| m is Dispatch) =~= seq![
            MethodV::Dispatch { ty: nt },
        ],
{
    let pred = |m: MethodV| m is Dispatch;
    let d = seq![MethodV::Dispatch { ty: nt }];
    let hooks = match nt {
        NewTypeV::Enum(e) => hooks_of(e, names),
        _ => seq![],
    };
    Seq::filter_distributes_over_add(d, hooks, pred);
    reveal(Seq::filter);
    assert(d.drop_last() =~= Seq::<MethodV>::empty());
    assert(d.filter(pred) =~= d);
    match nt {
        NewTypeV::Enum(e) => {
            let basics = e.variants.filter(|v: VariantV| classify(v, names) is Basic).map_values(
                |v: VariantV| MethodV::BasicHook {
                    owner: e.name,
                    variant: v.name,
                    payload: v.ty->0,
                },
            );
            let raws = e.variants.filter(|v: VariantV| classify(v, names) is Raw).map_values(
                |v: VariantV| MethodV::RawHook { owner: e.name, variant: v.name },
            );
            Seq::filter_distributes_over_add(basics, raws, pred);
            lemma_filter_none(basics, pred);
            lemma_filter_none(raws, pred);
        },
        _ => {
            lemma_filter_none(hooks, pred);
        },
    }
}

/// Dispatch completeness, one half: the traversal interface holds
/// exactly one dispatch method per composite type of the table, in
/// table order.
pub proof fn lemma_dispatch_completeness(ts: Seq<NewTypeV>, names: Seq<Seq<char>>)
    ensures
        methods_of_table(ts, names, 0).filter(|m: MethodV| m is Dispatch) =~= ts.map_values(
            |nt: NewTypeV| MethodV::Dispatch { ty: nt },
        ),
{
    lemma_dispatch_from(ts, names, 0);
}

proof fn lemma_dispatch_from(ts: Seq<NewTypeV>, names: Seq<Seq<char>>, i: int)
    requires
        0 <= i <= ts.len(),
    ensures
        methods_of_table(ts, names, i).filter(|m: MethodV| m is Dispatch) =~= ts.subrange(
            i,
            ts.len() as int,
        ).map_values(|nt: NewTypeV| MethodV::Dispatch { ty: nt }),
    decreases ts.len() - i,
{
    let pred = |m: MethodV| m is Dispatch;
    if i < ts.len() {
        lemma_dispatch_from(ts, names, i + 1);
        Seq::filter_distributes_over_add(
            methods_of_type(ts[i], names),
            methods_of_table(ts, names, i + 1),
            pred,
        );
        lemma_methods_of_type_dispatch(ts[i], names);
    } else {
        reveal(Seq::filter);
    }
}

/// Dispatch completeness, other half: the hooks an enum contributes are
/// exactly one default-empty hook per basic-classified case and one
/// zero-argument hook per raw case, each in declaration order; a case
/// that dispatches to a hoisted type contributes none.
pub proof fn lemma_hooks_exact(e: EnumTypeV, names: Seq<Seq<char>>)
    ensures
        hooks_of(e, names).filter(|m: MethodV| m is BasicHook) =~= e.variants.filter(
            |v: VariantV| classify(v, names) is Basic,
        ).map_values(
            |v: VariantV| MethodV::BasicHook { owner: e.name, variant: v.name, payload: v.ty->0 },
        ),
        hooks_of(e, names).filter(|m: MethodV| m is RawHook) =~= e.variants.filter(
            |v: VariantV| classify(v, names) is Raw,
        ).map_values(|v: VariantV| MethodV::RawHook { owner: e.name, variant: v.name }),
        hooks_of(e, names).filter(|m: MethodV| m is Dispatch) =~= Seq::<MethodV>::empty(),
{
    let basics = e.variants.filter(|v: VariantV| classify(v, names) is Basic).map_values(
        |v: VariantV| MethodV::BasicHook { owner: e.name, variant: v.name, payload: v.ty->0 },
    );
    let raws = e.variants.filter(|v: VariantV| classify(v, names) is Raw).map_values(
        |v: VariantV| MethodV::RawHook { owner: e.name, variant: v.name },
    );
    let is_b = |m: MethodV| m is BasicHook;
    let is_r = |m: MethodV| m is RawHook;
    let is_d = |m: MethodV| m is Dispatch;
    Seq::filter_distributes_over_add(basics, raws, is_b);
    Seq::filter_distributes_over_add(basics, raws, is_r);
    Seq::filter_distributes_over_add(basics, raws, is_d);
    lemma_filter_all(basics, is_b);
    lemma_filter_none(raws, is_b);
    lemma_filter_none(basics, is_r);
    lemma_filter_all(raws, is_r);
    lemma_filter_none(basics, is_d);
    lemma_filter_none(raws, is_d);
}

/// The rendering of the interface follows. Each function below guards
/// its output with the same `classify` test that `hooks_of` filters on,
/// so one hook line is emitted per entry of `hooks_of`, and one
/// dispatch method per table entry, as `lemma_dispatch_completeness`
/// and `lemma_hooks_exact` state of the structured form.
///
/// The rendered match arms for cases that dispatch to a hoisted type,
/// from position `i` on.
pub open spec fn render_newtype_arms(e: EnumTypeV, names: Seq<Seq<char>>, i: int) -> Seq<char>
    decreases e.variants.len() - i,
{
    if 0 <= i < e.variants.len() {
        (if classify(e.variants[i], names) is NewTypeRef {
            e.name + "::"@ + e.variants[i].name + "(v) => self.visit_"@ + lower_seq(
                e.variants[i].ty->0.name,
            ) + "(&v),\n"@
        } else {
            Seq::<char>::empty()
        }) + render_newtype_arms(e, names, i + 1)
    } else {
        Seq::<char>::empty()
    }
}

/// The rendered match arms for basic-classified cases, from `i` on.
pub open spec fn render_basic_arms(e: EnumTypeV, names: Seq<Seq<char>>, i: int) -> Seq<char>
    decreases e.variants.len() - i,
{
    if 0 <= i < e.variants.len() {
        (if classify(e.variants[i], names) is Basic {
            e.name + "::"@ + e.variants[i].name + "(v) => self.visit_"@ + lower_seq(e.name)
                + "_"@ + lower_seq(e.variants[i].name) + "(&v),\n"@
        } else {
            Seq::<char>::empty()
        }) + render_basic_arms(e, names, i + 1)
    } else {
        Seq::<char>::empty()
    }
}

/// The rendered match arms for raw cases, from `i` on.
pub open spec fn render_raw_arms(e: EnumTypeV, names: Seq<Seq<char>>, i: int) -> Seq<char>
    decreases e.variants.len() - i,
{
    if 0 <= i < e.variants.len() {
        (if classify(e.variants[i], names) is Raw {
            e.name + "::"@ + e.variants[i].name + " => self.visit_"@ + lower_seq(e.name) + "_"@
                + lower_seq(e.variants[i].name) + "(),\n"@
        } else {
            Seq::<char>::empty()
        }) + render_raw_arms(e, names, i + 1)
    } else {
        Seq::<char>::empty()
    }
}

/// The rendered hooks for basic-classified cases, from `i` on.
pub open spec fn render_basic_hooks(e: EnumTypeV, names: Seq<Seq<char>>, i: int) -> Seq<char>
    decreases e.variants.len() - i,
{
    if 0 <= i < e.variants.len() {
        (if classify(e.variants[i], names) is Basic {
            "fn visit_"@ + lower_seq(e.name) + "_"@ + lower_seq(e.variants[i].name)
                + "(&mut self, v: &'ast "@ + render_ty(e.variants[i].ty->0)
                + ") where Self: Sized {}\n"@
        } else {
            Seq::<char>::empty()
        }) + render_basic_hooks(e, names, i + 1)
    } else {
        Seq::<char>::empty()
    }
}

/// The rendered hooks for raw cases, from `i` on.
pub open spec fn render_raw_hooks(e: EnumTypeV, names: Seq<Seq<char>>, i: int) -> Seq<char>
    decreases e.variants.len() - i,
{
    if 0 <= i < e.variants.len() {
        (if classify(e.variants[i], names) is Raw {
            "fn visit_"@ + lower_seq(e.name) + "_"@ + lower_seq(e.variants[i].name)
                + "(&mut self) where Self: Sized {}\n"@
        } else {
            Seq::<char>::empty()
        }) + render_raw_hooks(e, names, i + 1)
    } else {
        Seq::<char>::empty()
    }
}

/// The rendered dispatch method of a sum type: a match routing each
/// case to its target.
pub open spec fn render_enum_dispatch(e: EnumTypeV, names: Seq<Seq<char>>) -> Seq<char> {
    "fn visit_"@ + lower_seq(e.name) + "(&mut self, "@ + lower_seq(e.name) + ": &'ast "@ + e.name
        + ") where Self: Sized {\nmatch "@ + lower_seq(e.name) + " {\n"@ + render_newtype_arms(
        e,
        names,
        0,
    ) + render_basic_arms(e, names, 0) + render_raw_arms(e, names, 0) + "}\n}\n"@
}

/// The rendered field visits of a product type's dispatch method: one
/// call per hoisted-type field, in declaration order.
pub open spec fn render_field_visits(s: StructTypeV, names: Seq<Seq<char>>, i: int) -> Seq<char>
    decreases s.fields.len() - i,
{
    if 0 <= i < s.fields.len() {
        (if is_new_type_ref(s.fields[i].ty, names) {
            "self.visit_"@ + lower_seq(s.fields[i].ty.name) + "(&"@ + lower_seq(s.name) + "."@
                + s.fields[i].ident + ");\n"@
        } else {
            Seq::<char>::empty()
        }) + render_field_visits(s, names, i + 1)
    } else {
        Seq::<char>::empty()
    }
}

/// The rendered dispatch method of a product type.
pub open spec fn render_struct_dispatch(s: StructTypeV, names: Seq<Seq<char>>) -> Seq<char> {
    "fn visit_"@ + lower_seq(s.name) + "(&mut self, "@ + lower_seq(s.name) + ": &'ast "@ + s.name
        + ") where Self: Sized {\n"@ + render_field_visits(s, names, 0) + "}\n"@
}

/// The rendered dispatch method of a wrapper type: it descends into the
/// inner value only when that is itself hoisted.
pub open spec fn render_wrapper_dispatch(w: WrapperStructV, names: Seq<Seq<char>>) -> Seq<char> {
    "fn visit_"@ + lower_seq(w.name) + "(&mut self, "@ + lower_seq(w.name) + ": &"@ + w.name
        + ") where Self: Sized {\n"@ + (if is_new_type_ref(w.ty, names) {
        "self.visit_"@ + lower_seq(w.ty.name) + "("@ + lower_seq(w.name) + ".inner());\n"@
    } else {
        Seq::<char>::empty()
    }) + "}\n"@
}

/// The rendered methods one table entry contributes.
pub open spec fn render_single_func(nt: NewTypeV, names: Seq<Seq<char>>) -> Seq<char> {
    match nt {
        NewTypeV::Enum(e) => render_enum_dispatch(e, names) + render_basic_hooks(e, names, 0)
            + render_raw_hooks(e, names, 0),
        NewTypeV::Struct(s) => render_struct_dispatch(s, names),
        NewTypeV::WrapperStruct(w) => render_wrapper_dispatch(w, names),
    }
}

/// The rendered methods of the whole table from position `i` on.
pub open spec fn render_funcs(ts: Seq<NewTypeV>, names: Seq<Seq<char>>, i: int) -> Seq<char>
    decreases ts.len() - i,
{
    if 0 <= i < ts.len() {
        render_single_func(ts[i], names) + render_funcs(ts, names, i + 1)
    } else {
        Seq::<char>::empty()
    }
}

/// The rendered traversal interface.
pub open spec fn render_visitor(ts: Seq<NewTypeV>, names: Seq<Seq<char>>) -> Seq<char> {
    "pub trait Visitor<'ast> {\n"@ + render_funcs(ts, names, 0) + "}\n"@
}

/// The rendered text of one structured method: its dispatch method for
/// a composite type, or one default-empty hook.
pub open spec fn render_method(m: MethodV, names: Seq<Seq<char>>) -> Seq<char> {
    match m {
        MethodV::Dispatch { ty } => match ty {
            NewTypeV::Enum(e) => render_enum_dispatch(e, names),
            NewTypeV::Struct(s) => render_struct_dispatch(s, names),
            NewTypeV::WrapperStruct(w) => render_wrapper_dispatch(w, names),
        },
        MethodV::BasicHook { owner, variant, payload } => "fn visit_"@ + lower_seq(owner) + "_"@
            + lower_seq(variant) + "(&mut self, v: &'ast "@ + render_ty(payload)
            + ") where Self: Sized {}\n"@,
        MethodV::RawHook { owner, variant } => "fn visit_"@ + lower_seq(owner) + "_"@ + lower_seq(
            variant,
        ) + "(&mut self) where Self: Sized {}\n"@,
    }
}

/// The rendered text of a structured method list, in order.
pub open spec fn render_methods(ms: Seq<MethodV>, names: Seq<Seq<char>>) -> Seq<char>
    decreases ms.len(),
{
    if ms.len() == 0 {
        Seq::<char>::empty()
    } else {
        render_method(ms[0], names) + render_methods(ms.drop_first(), names)
    }
}

proof fn lemma_render_methods_concat(a: Seq<MethodV>, b: Seq<MethodV>, names: Seq<Seq<char>>)
    ensures
        render_methods(a + b, names) =~= render_methods(a, names) + render_methods(b, names),
    decreases a.len(),
{
    if a.len() == 0 {
        assert(a + b =~= b);
        assert(render_methods(a + b, names) == render_methods(b, names));
        assert(Seq::<char>::empty() + render_methods(b, names) =~= render_methods(b, names));
    } else {
        assert((a + b).drop_first() =~= a.drop_first() + b);
        assert((a + b)[0] == a[0]);
        lemma_render_methods_concat(a.drop_first(), b, names);
        assert(render_methods(a + b, names) == render_method(a[0], names) + render_methods(
            a.drop_first() + b,
            names,
        ));
        assert(render_method(a[0], names) + (render_methods(a.drop_first(), names)
            + render_methods(b, names)) =~= (render_method(a[0], names) + render_methods(
            a.drop_first(),
            names,
        )) + render_methods(b, names));
    }
}

proof fn lemma_filter_single<A>(x: A, pred: spec_fn(A) -> bool)
    ensures
        seq![x].filter(pred) =~= (if pred(x) {
            seq![x]
        } else {
            Seq::<A>::empty()
        }),
{
    reveal(Seq::filter);
    assert(seq![x].drop_last() =~= Seq::<A>::empty());
    assert(Seq::<A>::empty().filter(pred) =~= Seq::<A>::empty());
    assert(seq![x].last() == x);
    if pred(x) {
        assert(Seq::<A>::empty().push(x) =~= seq![x]);
    }
}

proof fn lemma_render_methods_single(m: MethodV, names: Seq<Seq<char>>)
    ensures
        render_methods(seq![m], names) =~= render_method(m, names),
{
    assert(seq![m].drop_first() =~= Seq::<MethodV>::empty());
    assert(render_methods(Seq::<MethodV>::empty(), names) == Seq::<char>::empty());
    assert(render_method(m, names) + Seq::<char>::empty() =~= render_method(m, names));
}

proof fn lemma_render_basic_hooks_structured(e: EnumTypeV, names: Seq<Seq<char>>, i: int)
    requires
        0 <= i <= e.variants.len(),
    ensures
        render_methods(
            e.variants.subrange(i, e.variants.len() as int).filter(
                |v: VariantV| classify(v, names) is Basic,
            ).map_values(
                |v: VariantV| MethodV::BasicHook {
                    owner: e.name,
                    variant: v.name,
                    payload: v.ty->0,
                },
            ),
            names,
        ) =~= render_basic_hooks(e, names, i),
    decreases e.variants.len() - i,
{
    let n = e.variants.len() as int;
    let pred = |v: VariantV| classify(v, names) is Basic;
    let mk = |v: VariantV| MethodV::BasicHook { owner: e.name, variant: v.name, payload: v.ty->0 };
    if i == n {
        assert(e.variants.subrange(i, n) =~= Seq::<VariantV>::empty());
        reveal(Seq::filter);
        assert(Seq::<VariantV>::empty().filter(pred) =~= Seq::<VariantV>::empty());
        assert(Seq::<VariantV>::empty().map_values(mk) =~= Seq::<MethodV>::empty());
    } else {
        lemma_render_basic_hooks_structured(e, names, i + 1);
        let one = seq![e.variants[i]];
        let rest = e.variants.subrange(i + 1, n);
        assert(e.variants.subrange(i, n) =~= one + rest);
        Seq::filter_distributes_over_add(one, rest, pred);
        lemma_filter_single(e.variants[i], pred);
        let head = if pred(e.variants[i]) {
            one
        } else {
            Seq::<VariantV>::empty()
        };
        assert(one.filter(pred) =~= head);
        assert((head + rest.filter(pred)).map_values(mk) =~= head.map_values(mk) + rest.filter(
            pred,
        ).map_values(mk));
        lemma_render_methods_concat(head.map_values(mk), rest.filter(pred).map_values(mk), names);
        if pred(e.variants[i]) {
            assert(head.map_values(mk) =~= seq![mk(e.variants[i])]);
            lemma_render_methods_single(mk(e.variants[i]), names);
        } else {
            assert(head.map_values(mk) =~= Seq::<MethodV>::empty());
        }
        assert(render_methods(e.variants.subrange(i, n).filter(pred).map_values(mk), names)
            =~= render_basic_hooks(e, names, i));
    }
}

proof fn lemma_render_raw_hooks_structured(e: EnumTypeV, names: Seq<Seq<char>>, i: int)
    requires
        0 <= i <= e.variants.len(),
    ensures
        render_methods(
            e.variants.subrange(i, e.variants.len() as int).filter(
                |v: VariantV| classify(v, names) is Raw,
            ).map_values(|v: VariantV| MethodV::RawHook { owner: e.name, variant: v.name }),
            names,
        ) =~= render_raw_hooks(e, names, i),
    decreases e.variants.len() - i,
{
    let n = e.variants.len() as int;
    let pred = |v: VariantV| classify(v, names) is Raw;
    let mk = |v: VariantV| MethodV::RawHook { owner: e.name, variant: v.name };
    if i == n {
        assert(e.variants.subrange(i, n) =~= Seq::<VariantV>::empty());
        reveal(Seq::filter);
        assert(Seq::<VariantV>::empty().filter(pred) =~= Seq::<VariantV>::empty());
        assert(Seq::<VariantV>::empty().map_values(mk) =~= Seq::<MethodV>::empty());
    } else {
        lemma_render_raw_hooks_structured(e, names, i + 1);
        let one = seq![e.variants[i]];
        let rest = e.variants.subrange(i + 1, n);
        assert(e.variants.subrange(i, n) =~= one + rest);
        Seq::filter_distributes_over_add(one, rest, pred);
        lemma_filter_single(e.variants[i], pred);
        let head = if pred(e.variants[i]) {
            one
        } else {
            Seq::<VariantV>::empty()
        };
        assert(one.filter(pred) =~= head);
        assert((head + rest.filter(pred)).map_values(mk) =~= head.map_values(mk) + rest.filter(
            pred,
        ).map_values(mk));
        lemma_render_methods_concat(head.map_values(mk), rest.filter(pred).map_values(mk), names);
        if pred(e.variants[i]) {
            assert(head.map_values(mk) =~= seq![mk(e.variants[i])]);
            lemma_render_methods_single(mk(e.variants[i]), names);
        } else {
            assert(head.map_values(mk) =~= Seq::<MethodV>::empty());
        }
        assert(render_methods(e.variants.subrange(i, n).filter(pred).map_values(mk), names)
            =~= render_raw_hooks(e, names, i));
    }
}

/// The rendered text of one table entry is exactly the rendering, in
/// order, of the structured methods it contributes: its one dispatch
/// method, then its hooks. Together with `lemma_dispatch_completeness`
/// and `lemma_hooks_exact`, the interface text holds exactly one
/// dispatch method per composite type and exactly one default-empty
/// hook per basic-classified or raw case.
pub proof fn lemma_traversal_text_complete(nt: NewTypeV, names: Seq<Seq<char>>)
    ensures
        render_single_func(nt, names) =~= render_methods(methods_of_type(nt, names), names),
{
    let d = seq![MethodV::Dispatch { ty: nt }];
    match nt {
        NewTypeV::Enum(e) => {
            let pred_b = |v: VariantV| classify(v, names) is Basic;
            let mk_b = |v: VariantV|
                MethodV::BasicHook { owner: e.name, variant: v.name, payload: v.ty->0 };
            let pred_r = |v: VariantV| classify(v, names) is Raw;
            let mk_r = |v: VariantV| MethodV::RawHook { owner: e.name, variant: v.name };
            let basics = e.variants.filter(pred_b).map_values(mk_b);
            let raws = e.variants.filter(pred_r).map_values(mk_r);
            lemma_render_methods_concat(d, basics + raws, names);
            lemma_render_methods_concat(basics, raws, names);
            assert(e.variants.subrange(0, e.variants.len() as int) =~= e.variants);
            lemma_render_basic_hooks_structured(e, names, 0);
            lemma_render_raw_hooks_structured(e, names, 0);
            lemma_render_methods_single(MethodV::Dispatch { ty: nt }, names);
            assert(render_methods(d, names) =~= render_enum_dispatch(e, names));
            assert(render_methods(methods_of_type(nt, names), names) =~= render_enum_dispatch(
                e,
                names,
            ) + (render_basic_hooks(e, names, 0) + render_raw_hooks(e, names, 0)));
            assert(render_enum_dispatch(e, names) + (render_basic_hooks(e, names, 0)
                + render_raw_hooks(e, names, 0)) =~= render_enum_dispatch(e, names)
                + render_basic_hooks(e, names, 0) + render_raw_hooks(e, names, 0));
        },
        NewTypeV::Struct(_) => {
            lemma_render_methods_concat(d, Seq::<MethodV>::empty(), names);
            assert(d + Seq::<MethodV>::empty() =~= d);
            lemma_render_methods_single(MethodV::Dispatch { ty: nt }, names);
            assert(render_methods(d, names) =~= render_single_func(nt, names));
        },
        NewTypeV::WrapperStruct(_) => {
            lemma_render_methods_concat(d, Seq::<MethodV>::empty(), names);
            assert(d + Seq::<MethodV>::empty() =~= d);
            lemma_render_methods_single(MethodV::Dispatch { ty: nt }, names);
            assert(render_methods(d, names) =~= render_single_func(nt, names));
        },
    }
}

/// Whether a name is in the new-type set.
fn contains_name(names: &Vec<String>, name: &String) -> (r: bool)
    ensures
        r == names_view(names@).contains(name@),
{
    let n = names.len();
    let mut i: usize = 0;
    while i < n
        invariant
            i <= n,
            n == names@.len(),
            forall|k: int| 0 <= k < i ==> names_view(names@)[k] != name@,
        decreases n - i,
    {
        if names[i].eq(name) {
            proof {
                assert(names_view(names@)[i as int] == name@);
            }
            return true;
        }
        i = i + 1;
    }
    proof {
        assert(!names_view(names@).contains(name@)) by {
            if names_view(names@).contains(name@) {
                let k = choose|k: int|
                    0 <= k < names_view(names@).len() && names_view(names@)[k] == name@;
                assert(names_view(names@)[k] == name@);
            }
        }
    }
    false
}

/// Whether a reference classifies as a hoisted type.
fn is_new_type_ref_exec(t: &TypeRef, names: &Vec<String>) -> (r: bool)
    ensures
        r == is_new_type_ref(ty_view(*t), names_view(names@)),
{
    t.args.len() == 0 && contains_name(names, &t.name)
}

/// Appends the match arms for cases that dispatch to a hoisted type.
fn emit_newtype_arms(out: &mut String, e: &EnumType, names: &Vec<String>, i: usize)
    requires
        i <= e.variants@.len(),
    ensures
        final(out)@ == old(out)@ + render_newtype_arms(e@, names_view(names@), i as int),
    decreases e.variants@.len() - i,
{
    let ghost pre = out@;
    let ghost ev = e@;
    let ghost nv = names_view(names@);
    proof {
        lemma_variants_view(e.variants@);
    }
    if i < e.variants.len() {
        let v = &e.variants[i];
        match &v.ty {
            Some(t) => {
                if is_new_type_ref_exec(t, names) {
                    out.append(e.name.as_str());
                    out.append("::");
                    out.append(v.name.as_str());
                    out.append("(v) => self.visit_");
                    let lower = lower_string(&t.name);
                    out.append(lower.as_str());
                    out.append("(&v),\n");
                }
            },
            None => {},
        }
        emit_newtype_arms(out, e, names, i + 1);
        proof {
            assert(out@ =~= pre + render_newtype_arms(ev, nv, i as int));
        }
    } else {
        proof {
            assert(out@ =~= pre + render_newtype_arms(ev, nv, i as int));
        }
    }
}

/// Appends the match arms for basic-classified cases.
fn emit_basic_arms(out: &mut String, e: &EnumType, names: &Vec<String>, i: usize)
    requires
        i <= e.variants@.len(),
    ensures
        final(out)@ == old(out)@ + render_basic_arms(e@, names_view(names@), i as int),
    decreases e.variants@.len() - i,
{
    let ghost pre = out@;
    let ghost ev = e@;
    let ghost nv = names_view(names@);
    proof {
        lemma_variants_view(e.variants@);
    }
    if i < e.variants.len() {
        let v = &e.variants[i];
        match &v.ty {
            Some(t) => {
                if !is_new_type_ref_exec(t, names) {
                    out.append(e.name.as_str());
                    out.append("::");
                    out.append(v.name.as_str());
                    out.append("(v) => self.visit_");
                    let lower_e = lower_string(&e.name);
                    out.append(lower_e.as_str());
                    out.append("_");
                    let lower_v = lower_string(&v.name);
                    out.append(lower_v.as_str());
                    out.append("(&v),\n");
                }
            },
            None => {},
        }
        emit_basic_arms(out, e, names, i + 1);
        proof {
            assert(out@ =~= pre + render_basic_arms(ev, nv, i as int));
        }
    } else {
        proof {
            assert(out@ =~= pre + render_basic_arms(ev, nv, i as int));
        }
    }
}

/// Appends the match arms for raw cases.
fn emit_raw_arms(out: &mut String, e: &EnumType, names: &Vec<String>, i: usize)
    requires
        i <= e.variants@.len(),
    ensures
        final(out)@ == old(out)@ + render_raw_arms(e@, names_view(names@), i as int),
    decreases e.variants@.len() - i,
{
    let ghost pre = out@;
    let ghost ev = e@;
    let ghost nv = names_view(names@);
    proof {
        lemma_variants_view(e.variants@);
    }
    if i < e.variants.len() {
        let v = &e.variants[i];
        match &v.ty {
            Some(_) => {},
            None => {
                out.append(e.name.as_str());
                out.append("::");
                out.append(v.name.as_str());
                out.append(" => self.visit_");
                let lower_e = lower_string(&e.name);
                out.append(lower_e.as_str());
                out.append("_");
                let lower_v = lower_string(&v.name);
                out.append(lower_v.as_str());
                out.append("(),\n");
            },
        }
        emit_raw_arms(out, e, names, i + 1);
        proof {
            assert(out@ =~= pre + render_raw_arms(ev, nv, i as int));
        }
    } else {
        proof {
            assert(out@ =~= pre + render_raw_arms(ev, nv, i as int));
        }
    }
}

/// Appends the hooks for basic-classified cases.
fn emit_basic_hooks(out: &mut String, e: &EnumType, names: &Vec<String>, i: usize)
    requires
        i <= e.variants@.len(),
    ensures
        final(out)@ == old(out)@ + render_basic_hooks(e@, names_view(names@), i as int),
    decreases e.variants@.len() - i,
{
    let ghost pre = out@;
    let ghost ev = e@;
    let ghost nv = names_view(names@);
    proof {
        lemma_variants_view(e.variants@);
    }
    if i < e.variants.len() {
        let v = &e.variants[i];
        match &v.ty {
            Some(t) => {
                if !is_new_type_ref_exec(t, names) {
                    out.append("fn visit_");
                    let lower_e = lower_string(&e.name);
                    out.append(lower_e.as_str());
                    out.append("_");
                    let lower_v = lower_string(&v.name);
                    out.append(lower_v.as_str());
                    out.append("(&mut self, v: &'ast ");
                    emit_ty(out, t);
                    out.append(") where Self: Sized {}\n");
                }
            },
            None => {},
        }
        emit_basic_hooks(out, e, names, i + 1);
        proof {
            assert(out@ =~= pre + render_basic_hooks(ev, nv, i as int));
        }
    } else {
        proof {
            assert(out@ =~= pre + render_basic_hooks(ev, nv, i as int));
        }
    }
}

/// Appends the hooks for raw cases.
fn emit_raw_hooks(out: &mut String, e: &EnumType, names: &Vec<String>, i: usize)
    requires
        i <= e.variants@.len(),
    ensures
        final(out)@ == old(out)@ + render_raw_hooks(e@, names_view(names@), i as int),
    decreases e.variants@.len() - i,
{
    let ghost pre = out@;
    let ghost ev = e@;
    let ghost nv = names_view(names@);
    proof {
        lemma_variants_view(e.variants@);
    }
    if i < e.variants.len() {
        let v = &e.variants[i];
        match &v.ty {
            Some(_) => {},
            None => {
                out.append("fn visit_");
                let lower_e = lower_string(&e.name);
                out.append(lower_e.as_str());
                out.append("_");
                let lower_v = lower_string(&v.name);
                out.append(lower_v.as_str());
                out.append("(&mut self) where Self: Sized {}\n");
            },
        }
        emit_raw_hooks(out, e, names, i + 1);
        proof {
            assert(out@ =~= pre + render_raw_hooks(ev, nv, i as int));
        }
    } else {
        proof {
            assert(out@ =~= pre + render_raw_hooks(ev, nv, i as int));
        }
    }
}

/// Appends the field visits of a product type's dispatch method.
fn emit_field_visits(out: &mut String, s: &StructType, names: &Vec<String>, i: usize)
    requires
        i <= s.fields@.len(),
    ensures
        final(out)@ == old(out)@ + render_field_visits(s@, names_view(names@), i as int),
    decreases s.fields@.len() - i,
{
    let ghost pre = out@;
    let ghost sv = s@;
    let ghost nv = names_view(names@);
    proof {
        lemma_fields_view(s.fields@);
    }
    if i < s.fields.len() {
        let f = &s.fields[i];
        if is_new_type_ref_exec(&f.ty, names) {
            out.append("self.visit_");
            let lower_t = lower_string(&f.ty.name);
            out.append(lower_t.as_str());
            out.append("(&");
            let lower_s = lower_string(&s.name);
            out.append(lower_s.as_str());
            out.append(".");
            out.append(f.ident.as_str());
            out.append(");\n");
        }
        emit_field_visits(out, s, names, i + 1);
        proof {
            assert(out@ =~= pre + render_field_visits(sv, nv, i as int));
        }
    } else {
        proof {
            assert(out@ =~= pre + render_field_visits(sv, nv, i as int));
        }
    }
}

/// Appends the methods one table entry contributes.
#[verifier::rlimit(60)]
fn emit_single_func(out: &mut String, nt: &NewType, names: &Vec<String>)
    ensures
        final(out)@ == old(out)@ + render_single_func(nt@, names_view(names@)),
{
    let ghost pre = out@;
    let ghost ntv = nt@;
    let ghost nv = names_view(names@);
    match nt {
        NewType::Enum(e) => {
            out.append("fn visit_");
            let lower_e = lower_string(&e.name);
            out.append(lower_e.as_str());
            out.append("(&mut self, ");
            out.append(lower_e.as_str());
            out.append(": &'ast ");
            out.append(e.name.as_str());
            out.append(") where Self: Sized {\nmatch ");
            out.append(lower_e.as_str());
            out.append(" {\n");
            emit_newtype_arms(out, e, names, 0);
            emit_basic_arms(out, e, names, 0);
            emit_raw_arms(out, e, names, 0);
            out.append("}\n}\n");
            emit_basic_hooks(out, e, names, 0);
            emit_raw_hooks(out, e, names, 0);
            proof {
                assert(out@ =~= pre + render_single_func(ntv, nv));
            }
        },
        NewType::Struct(s) => {
            out.append("fn visit_");
            let lower_s = lower_string(&s.name);
            out.append(lower_s.as_str());
            out.append("(&mut self, ");
            out.append(lower_s.as_str());
            out.append(": &'ast ");
            out.append(s.name.as_str());
            out.append(") where Self: Sized {\n");
            emit_field_visits(out, s, names, 0);
            out.append("}\n");
            proof {
                assert(out@ =~= pre + render_single_func(ntv, nv));
            }
        },
        NewType::WrapperStruct(w) => {
            out.append("fn visit_");
            let lower_w = lower_string(&w.name);
            out.append(lower_w.as_str());
            out.append("(&mut self, ");
            out.append(lower_w.as_str());
            out.append(": &");
            out.append(w.name.as_str());
            out.append(") where Self: Sized {\n");
            if is_new_type_ref_exec(&w.ty, names) {
                out.append("self.visit_");
                let lower_t = lower_string(&w.ty.name);
                out.append(lower_t.as_str());
                out.append("(");
                out.append(lower_w.as_str());
                out.append(".inner());\n");
            }
            out.append("}\n");
            proof {
                assert(out@ =~= pre + render_single_func(ntv, nv));
            }
        },
    }
}

/// Appends the methods of the whole table from position `i` on.
fn emit_funcs(out: &mut String, ts: &Vec<NewType>, names: &Vec<String>, i: usize)
    requires
        i <= ts@.len(),
    ensures
        final(out)@ == old(out)@ + render_funcs(table_view(ts@), names_view(names@), i as int),
    decreases ts@.len() - i,
{
    let ghost pre = out@;
    let ghost tsv = table_view(ts@);
    let ghost nv = names_view(names@);
    proof {
        lemma_table_view(ts@);
    }
    if i < ts.len() {
        emit_single_func(out, &ts[i], names);
        emit_funcs(out, ts, names, i + 1);
        proof {
            assert(out@ =~= pre + render_funcs(tsv, nv, i as int));
        }
    } else {
        proof {
            assert(out@ =~= pre + render_funcs(tsv, nv, i as int));
        }
    }
}

/// The traversal generator: the new-type set of one parsed description,
/// and the description itself.
pub struct Visitor<'c> {
    pub new_idents: Vec<String>,
    pub context: &'c Context,
}

impl<'c> Visitor<'c> {
    /// The type table the interface is generated for.
    pub closed spec fn table(self) -> Seq<NewTypeV> {
        table_view(self.context.new_types@)
    }

    /// Collects the new-type set: the names of the hoisted types, in
    /// table order.
    pub fn new(context: &'c Context) -> (r: Visitor<'c>)
        ensures
            r.table() == table_view(context.new_types@),
            names_view(r.new_idents@) == names_of(table_view(context.new_types@)),
    {
        let ghost tsv = table_view(context.new_types@);
        proof {
            lemma_table_view(context.new_types@);
        }
        let mut new_idents: Vec<String> = Vec::new();
        let n = context.new_types.len();
        for i in 0..n
            invariant
                n == context.new_types@.len(),
                tsv == table_view(context.new_types@),
                tsv.len() == n,
                new_idents@.len() == i,
                forall|k: int| 0 <= k < i ==> (#[trigger] new_idents@[k])@ == tsv[k].name(),
            decreases n - i,
        {
            proof {
                lemma_table_view(context.new_types@);
            }
            let name = context.new_types[i].name().clone();
            new_idents.push(name);
        }
        proof {
            assert(names_view(new_idents@) =~= names_of(tsv));
        }
        Visitor { new_idents, context }
    }

    /// Renders the whole traversal interface.
    pub fn create_visitor(&self) -> (r: String)
        ensures
            r@ == render_visitor(self.table(), names_view(self.new_idents@)),
    {
        let mut out = String::new();
        out.append("pub trait Visitor<'ast> {\n");
        out.append(self.func_impl().as_str());
        out.append("}\n");
        proof {
            assert(out@ =~= render_visitor(self.table(), names_view(self.new_idents@)));
        }
        out
    }

    /// Renders the methods of every table entry, in table order.
    pub fn func_impl(&self) -> (r: String)
        ensures
            r@ == render_funcs(self.table(), names_view(self.new_idents@), 0),
    {
        let mut out = String::new();
        emit_funcs(&mut out, &self.context.new_types, &self.new_idents, 0);
        proof {
            assert(out@ =~= render_funcs(self.table(), names_view(self.new_idents@), 0));
        }
        out
    }

    /// Renders the methods one definition contributes.
    pub fn single_func(&self, new_type: &NewType) -> (r: String)
        ensures
            r@ == render_single_func(new_type@, names_view(self.new_idents@)),
    {
        let mut out = String::new();
        emit_single_func(&mut out, new_type, &self.new_idents);
        proof {
            assert(out@ =~= render_single_func(new_type@, names_view(self.new_idents@)));
        }
        out
    }
}

} // verus!
