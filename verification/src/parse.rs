//! The executable recursive-descent parser.
//!
//! Every function here is proved to return exactly what the matching
//! grammar function in `grammar` says: the same structured value, the
//! same next position, or the same diagnostic.

use vstd::prelude::*;

use crate::context::{
    fields_view, lemma_fields_view, lemma_variants_view, lemma_tys_view, nt_view, table_view,
    ty_view, tys_view, variant_view, variants_view, field_view, Context, EnumType, Field, NewType,
    StructType, TypeRef, Variant, WrapperStruct,
};
use crate::flatten::{flatten, hoist_bindings, strip_variant};
use crate::grammar::{
    bump, perr, sp_parse_bindings, sp_parse_enum, sp_parse_field, sp_parse_fields,
    sp_parse_new_type, sp_parse_struct, sp_parse_ty, sp_parse_ty_args, sp_parse_variant,
    sp_parse_variants, sp_parse_wrapper,
};
use crate::model::{NewTypeV, TyV, VariantV};
use crate::token::{toks_view, Found, SyntaxError, SyntaxErrorV, Token};

verus! {

/// Clones one token.
fn clone_token(t: &Token) -> (r: Token)
    ensures
        r@ == t@,
{
    match t {
        Token::Ident(s) => Token::Ident(s.clone()),
        Token::KwStruct => Token::KwStruct,
        Token::KwEnum => Token::KwEnum,
        Token::Colon => Token::Colon,
        Token::Comma => Token::Comma,
        Token::Pipe => Token::Pipe,
        Token::LBrace => Token::LBrace,
        Token::RBrace => Token::RBrace,
        Token::LParen => Token::LParen,
        Token::RParen => Token::RParen,
        Token::Lt => Token::Lt,
        Token::Gt => Token::Gt,
    }
}

/// One expected alternative.
fn expect1(a: &str) -> (v: Vec<String>)
    ensures
        v@.map_values(|s: String| s@) == seq![a@],
{
    let mut v: Vec<String> = Vec::new();
    v.push(a.to_owned());
    proof {
        assert(v@.map_values(|s: String| s@) =~= seq![a@]);
    }
    v
}

/// Two expected alternatives.
fn expect2(a: &str, b: &str) -> (v: Vec<String>)
    ensures
        v@.map_values(|s: String| s@) == seq![a@, b@],
{
    let mut v: Vec<String> = Vec::new();
    v.push(a.to_owned());
    v.push(b.to_owned());
    proof {
        assert(v@.map_values(|s: String| s@) =~= seq![a@, b@]);
    }
    v
}

/// Three expected alternatives.
fn expect3(a: &str, b: &str, c: &str) -> (v: Vec<String>)
    ensures
        v@.map_values(|s: String| s@) == seq![a@, b@, c@],
{
    let mut v: Vec<String> = Vec::new();
    v.push(a.to_owned());
    v.push(b.to_owned());
    v.push(c.to_owned());
    proof {
        assert(v@.map_values(|s: String| s@) =~= seq![a@, b@, c@]);
    }
    v
}

/// The diagnostic for a position: what stands there and what was
/// expected instead.
fn syntax_error(toks: &Vec<Token>, pos: usize, expected: Vec<String>) -> (e: SyntaxError)
    ensures
        e@ == perr(toks_view(toks@), pos as nat, expected@.map_values(|s: String| s@)),
{
    proof {
        if (pos as int) < toks@.len() {
            assert(toks_view(toks@)[pos as int] == toks@[pos as int]@);
        }
    }
    let found = if pos < toks.len() {
        Found::Tok(clone_token(&toks[pos]))
    } else {
        Found::End
    };
    SyntaxError { pos, found, expected }
}

impl TypeRef {
    /// Parses a type reference: `Name`, or `Name < args >`.
    pub fn parse(toks: &Vec<Token>, pos: usize) -> (r: Result<(TypeRef, usize), SyntaxError>)
        requires
            pos <= toks@.len(),
        ensures
            match r {
                Ok(p) => {
                    &&& sp_parse_ty(toks_view(toks@), pos as nat) == Ok::<(TyV, nat), SyntaxErrorV>(
                        (p.0@, p.1 as nat),
                    )
                    &&& pos < p.1 <= toks@.len()
                },
                Err(e) => sp_parse_ty(toks_view(toks@), pos as nat) == Err::<
                    (TyV, nat),
                    SyntaxErrorV,
                >(e@),
            },
        decreases toks@.len() - pos, 0int,
    {
        let ghost tv = toks_view(toks@);
        proof {
            if (pos as int) < toks@.len() {
                assert(tv[pos as int] == toks@[pos as int]@);
            }
        }
        if pos < toks.len() {
            match &toks[pos] {
                Token::Ident(name) => {
                    proof {
                        if pos + 1 < toks@.len() {
                            assert(tv[pos + 1] == toks@[pos + 1]@);
                        }
                    }
                    let has_lt = pos + 1 < toks.len() && matches!(&toks[pos + 1], Token::Lt);
                    if has_lt {
                        match parse_ty_args(toks, pos + 2) {
                            Ok((args, j)) => {
                                let t = TypeRef { name: name.clone(), args };
                                Ok((t, j))
                            },
                            Err(e) => Err(e),
                        }
                    } else {
                        let t = TypeRef { name: name.clone(), args: Vec::new() };
                        proof {
                            assert(tys_view(t.args@) =~= Seq::<TyV>::empty());
                            assert(t@ == (TyV { name: name@, args: seq![] }));
                        }
                        Ok((t, pos + 1))
                    }
                },
                _ => Err(syntax_error(toks, pos, expect1("a type"))),
            }
        } else {
            Err(syntax_error(toks, pos, expect1("a type")))
        }
    }
}

/// Parses one or more comma-separated type references closed by `>`.
fn parse_ty_args(toks: &Vec<Token>, pos: usize) -> (r: Result<(Vec<TypeRef>, usize), SyntaxError>)
    requires
        pos <= toks@.len(),
    ensures
        match r {
            Ok(p) => {
                &&& sp_parse_ty_args(toks_view(toks@), pos as nat) == Ok::<
                    (Seq<TyV>, nat),
                    SyntaxErrorV,
                >((tys_view(p.0@), p.1 as nat))
                &&& pos < p.1 <= toks@.len()
            },
            Err(e) => sp_parse_ty_args(toks_view(toks@), pos as nat) == Err::<
                (Seq<TyV>, nat),
                SyntaxErrorV,
            >(e@),
        },
    decreases toks@.len() - pos, 1int,
{
    let ghost tv = toks_view(toks@);
    match TypeRef::parse(toks, pos) {
        Ok((t, j)) => {
            proof {
                assert(bump(pos as nat, j as nat) == j as nat);
                if (j as int) < toks@.len() {
                    assert(tv[j as int] == toks@[j as int]@);
                }
            }
            if j < toks.len() && matches!(&toks[j], Token::Comma) {
                match parse_ty_args(toks, j + 1) {
                    Ok((mut ts, k)) => {
                        let ghost ts0 = ts@;
                        ts.insert(0, t);
                        proof {
                            lemma_tys_view(ts@);
                            lemma_tys_view(ts0);
                            assert(tys_view(ts@) =~= seq![ty_view(t)] + tys_view(ts0));
                        }
                        Ok((ts, k))
                    },
                    Err(e) => Err(e),
                }
            } else if j < toks.len() && matches!(&toks[j], Token::Gt) {
                let mut ts: Vec<TypeRef> = Vec::new();
                ts.push(t);
                proof {
                    lemma_tys_view(ts@);
                    assert(tys_view(ts@) =~= seq![ty_view(ts@[0])]);
                }
                Ok((ts, j + 1))
            } else {
                Err(syntax_error(toks, j, expect2("`,`", "`>`")))
            }
        },
        Err(e) => Err(e),
    }
}

impl Variant {
    /// Parses one case: `|Name|`, `Name : definition`, `Name ( Type )`,
    /// `Name |Type|`, or a bare `Name`.
    pub fn parse(toks: &Vec<Token>, pos: usize) -> (r: Result<(Variant, usize), SyntaxError>)
        requires
            pos <= toks@.len(),
        ensures
            match r {
                Ok(p) => {
                    &&& sp_parse_variant(toks_view(toks@), pos as nat) == Ok::<
                        (VariantV, nat),
                        SyntaxErrorV,
                    >((p.0@, p.1 as nat))
                    &&& pos < p.1 <= toks@.len()
                },
                Err(e) => sp_parse_variant(toks_view(toks@), pos as nat) == Err::<
                    (VariantV, nat),
                    SyntaxErrorV,
                >(e@),
            },
        decreases toks@.len() - pos, 1int,
    {
        let ghost tv = toks_view(toks@);
        proof {
            if (pos as int) < toks@.len() {
                assert(tv[pos as int] == toks@[pos as int]@);
            }
            if pos + 1 < toks@.len() {
                assert(tv[pos + 1] == toks@[pos + 1]@);
            }
            if pos + 2 < toks@.len() {
                assert(tv[pos + 2] == toks@[pos + 2]@);
            }
        }
        if pos >= toks.len() {
            return Err(syntax_error(toks, pos, expect2("identifier", "`|`")));
        }
        match &toks[pos] {
            Token::Pipe => {
                if pos + 1 < toks.len() {
                    match &toks[pos + 1] {
                        Token::Ident(name) => {
                            if pos + 2 < toks.len() && matches!(&toks[pos + 2], Token::Pipe) {
                                let ty = TypeRef { name: name.clone(), args: Vec::new() };
                                proof {
                                    assert(tys_view(ty.args@) =~= Seq::<TyV>::empty());
                                }
                                let v = Variant { new_type: None, name: name.clone(), ty: Some(ty) };
                                Ok((v, pos + 3))
                            } else {
                                Err(syntax_error(toks, pos + 2, expect1("`|`")))
                            }
                        },
                        _ => Err(syntax_error(toks, pos + 1, expect1("identifier"))),
                    }
                } else {
                    Err(syntax_error(toks, pos + 1, expect1("identifier")))
                }
            },
            Token::Ident(name) => {
                if pos + 1 < toks.len() && matches!(&toks[pos + 1], Token::Colon) {
                    match NewType::parse(toks, pos + 2) {
                        Ok((nt, j)) => {
                            let ty = TypeRef { name: nt.name().clone(), args: Vec::new() };
                            proof {
                                assert(tys_view(ty.args@) =~= Seq::<TyV>::empty());
                            }
                            let v = Variant {
                                new_type: Some(nt),
                                name: name.clone(),
                                ty: Some(ty),
                            };
                            Ok((v, j))
                        },
                        Err(e) => Err(e),
                    }
                } else if pos + 1 < toks.len() && matches!(&toks[pos + 1], Token::LParen) {
                    match TypeRef::parse(toks, pos + 2) {
                        Ok((t, j)) => {
                            proof {
                                assert(bump(pos as nat, j as nat) == j as nat);
                                if (j as int) < toks@.len() {
                                    assert(tv[j as int] == toks@[j as int]@);
                                }
                            }
                            if j < toks.len() && matches!(&toks[j], Token::RParen) {
                                let v = Variant { new_type: None, name: name.clone(), ty: Some(t) };
                                Ok((v, j + 1))
                            } else {
                                Err(syntax_error(toks, j, expect1("`)`")))
                            }
                        },
                        Err(e) => Err(e),
                    }
                } else if pos + 1 < toks.len() && matches!(&toks[pos + 1], Token::Pipe) {
                    match TypeRef::parse(toks, pos + 2) {
                        Ok((t, j)) => {
                            proof {
                                assert(bump(pos as nat, j as nat) == j as nat);
                                if (j as int) < toks@.len() {
                                    assert(tv[j as int] == toks@[j as int]@);
                                }
                            }
                            if j < toks.len() && matches!(&toks[j], Token::Pipe) {
                                let wrapper = NewType::WrapperStruct(
                                    WrapperStruct { name: name.clone(), ty: t },
                                );
                                let ty = TypeRef { name: name.clone(), args: Vec::new() };
                                proof {
                                    assert(tys_view(ty.args@) =~= Seq::<TyV>::empty());
                                }
                                let v = Variant {
                                    new_type: Some(wrapper),
                                    name: name.clone(),
                                    ty: Some(ty),
                                };
                                Ok((v, j + 1))
                            } else {
                                Err(syntax_error(toks, j, expect1("`|`")))
                            }
                        },
                        Err(e) => Err(e),
                    }
                } else {
                    let v = Variant { new_type: None, name: name.clone(), ty: None };
                    Ok((v, pos + 1))
                }
            },
            _ => Err(syntax_error(toks, pos, expect2("identifier", "`|`"))),
        }
    }
}

impl Field {
    /// Parses one component: `ident : TypeRef`, trying an ordinary type
    /// reference first and falling back to an inline definition.
    pub fn parse(toks: &Vec<Token>, pos: usize) -> (r: Result<(Field, usize), SyntaxError>)
        requires
            pos <= toks@.len(),
        ensures
            match r {
                Ok(p) => {
                    &&& sp_parse_field(toks_view(toks@), pos as nat) == Ok::<
                        (crate::model::FieldV, nat),
                        SyntaxErrorV,
                    >((p.0@, p.1 as nat))
                    &&& pos < p.1 <= toks@.len()
                },
                Err(e) => sp_parse_field(toks_view(toks@), pos as nat) == Err::<
                    (crate::model::FieldV, nat),
                    SyntaxErrorV,
                >(e@),
            },
        decreases toks@.len() - pos, 1int,
    {
        let ghost tv = toks_view(toks@);
        proof {
            if (pos as int) < toks@.len() {
                assert(tv[pos as int] == toks@[pos as int]@);
            }
            if pos + 1 < toks@.len() {
                assert(tv[pos + 1] == toks@[pos + 1]@);
            }
        }
        if pos >= toks.len() {
            return Err(syntax_error(toks, pos, expect1("identifier")));
        }
        match &toks[pos] {
            Token::Ident(name) => {
                if pos + 1 < toks.len() && matches!(&toks[pos + 1], Token::Colon) {
                    match TypeRef::parse(toks, pos + 2) {
                        Ok((t, j)) => {
                            let f = Field { new_type: None, ident: name.clone(), ty: t };
                            Ok((f, j))
                        },
                        Err(_) => match NewType::parse(toks, pos + 2) {
                            Ok((nt, j)) => {
                                let ty = TypeRef { name: nt.name().clone(), args: Vec::new() };
                                proof {
                                    assert(tys_view(ty.args@) =~= Seq::<TyV>::empty());
                                }
                                let f = Field { new_type: Some(nt), ident: name.clone(), ty };
                                Ok((f, j))
                            },
                            Err(e) => Err(e),
                        },
                    }
                } else {
                    Err(syntax_error(toks, pos + 1, expect1("`:`")))
                }
            },
            _ => Err(syntax_error(toks, pos, expect1("identifier"))),
        }
    }
}

impl NewType {
    /// Parses a definition: a struct, an enum, or the wrapper shorthand.
    pub fn parse(toks: &Vec<Token>, pos: usize) -> (r: Result<(NewType, usize), SyntaxError>)
        requires
            pos <= toks@.len(),
        ensures
            match r {
                Ok(p) => {
                    &&& sp_parse_new_type(toks_view(toks@), pos as nat) == Ok::<
                        (NewTypeV, nat),
                        SyntaxErrorV,
                    >((p.0@, p.1 as nat))
                    &&& pos < p.1 <= toks@.len()
                },
                Err(e) => sp_parse_new_type(toks_view(toks@), pos as nat) == Err::<
                    (NewTypeV, nat),
                    SyntaxErrorV,
                >(e@),
            },
        decreases toks@.len() - pos, 4int,
    {
        let ghost tv = toks_view(toks@);
        proof {
            if (pos as int) < toks@.len() {
                assert(tv[pos as int] == toks@[pos as int]@);
            }
            if pos + 1 < toks@.len() {
                assert(tv[pos + 1] == toks@[pos + 1]@);
            }
        }
        if pos >= toks.len() {
            return Err(syntax_error(toks, pos, expect3("`struct`", "`enum`", "identifier")));
        }
        match &toks[pos] {
            Token::KwStruct => match StructType::parse(toks, pos) {
                Ok((s, j)) => Ok((NewType::Struct(s), j)),
                Err(e) => Err(e),
            },
            Token::KwEnum => match EnumType::parse(toks, pos) {
                Ok((s, j)) => Ok((NewType::Enum(s), j)),
                Err(e) => Err(e),
            },
            Token::Ident(_) => {
                if pos + 1 < toks.len() && matches!(&toks[pos + 1], Token::Pipe) {
                    match WrapperStruct::parse(toks, pos) {
                        Ok((w, j)) => Ok((NewType::WrapperStruct(w), j)),
                        Err(e) => Err(e),
                    }
                } else {
                    Err(syntax_error(toks, pos, expect3("`struct`", "`enum`", "identifier")))
                }
            },
            _ => Err(syntax_error(toks, pos, expect3("`struct`", "`enum`", "identifier"))),
        }
    }
}

impl StructType {
    /// Parses `struct Name { field,* }`.
    pub fn parse(toks: &Vec<Token>, pos: usize) -> (r: Result<(StructType, usize), SyntaxError>)
        requires
            pos <= toks@.len(),
        ensures
            match r {
                Ok(p) => {
                    &&& sp_parse_struct(toks_view(toks@), pos as nat) == Ok::<
                        (NewTypeV, nat),
                        SyntaxErrorV,
                    >((NewTypeV::Struct(p.0@), p.1 as nat))
                    &&& pos < p.1 <= toks@.len()
                },
                Err(e) => sp_parse_struct(toks_view(toks@), pos as nat) == Err::<
                    (NewTypeV, nat),
                    SyntaxErrorV,
                >(e@),
            },
        decreases toks@.len() - pos, 3int,
    {
        let ghost tv = toks_view(toks@);
        proof {
            if (pos as int) < toks@.len() {
                assert(tv[pos as int] == toks@[pos as int]@);
            }
            if pos + 1 < toks@.len() {
                assert(tv[pos + 1] == toks@[pos + 1]@);
            }
            if pos + 2 < toks@.len() {
                assert(tv[pos + 2] == toks@[pos + 2]@);
            }
        }
        if pos >= toks.len() || !matches!(&toks[pos], Token::KwStruct) {
            return Err(syntax_error(toks, pos, expect1("`struct`")));
        }
        if pos + 1 >= toks.len() {
            return Err(syntax_error(toks, pos + 1, expect1("identifier")));
        }
        match &toks[pos + 1] {
            Token::Ident(name) => {
                if pos + 2 < toks.len() && matches!(&toks[pos + 2], Token::LBrace) {
                    match parse_fields(toks, pos + 3) {
                        Ok((fs, j)) => Ok(
                            (StructType { name: name.clone(), fields: fs }, j),
                        ),
                        Err(e) => Err(e),
                    }
                } else {
                    Err(syntax_error(toks, pos + 2, expect1("`{`")))
                }
            },
            _ => Err(syntax_error(toks, pos + 1, expect1("identifier"))),
        }
    }
}

impl EnumType {
    /// Parses `enum Name { variant,* }`.
    pub fn parse(toks: &Vec<Token>, pos: usize) -> (r: Result<(EnumType, usize), SyntaxError>)
        requires
            pos <= toks@.len(),
        ensures
            match r {
                Ok(p) => {
                    &&& sp_parse_enum(toks_view(toks@), pos as nat) == Ok::<
                        (NewTypeV, nat),
                        SyntaxErrorV,
                    >((NewTypeV::Enum(p.0@), p.1 as nat))
                    &&& pos < p.1 <= toks@.len()
                },
                Err(e) => sp_parse_enum(toks_view(toks@), pos as nat) == Err::<
                    (NewTypeV, nat),
                    SyntaxErrorV,
                >(e@),
            },
        decreases toks@.len() - pos, 3int,
    {
        let ghost tv = toks_view(toks@);
        proof {
            if (pos as int) < toks@.len() {
                assert(tv[pos as int] == toks@[pos as int]@);
            }
            if pos + 1 < toks@.len() {
                assert(tv[pos + 1] == toks@[pos + 1]@);
            }
            if pos + 2 < toks@.len() {
                assert(tv[pos + 2] == toks@[pos + 2]@);
            }
        }
        if pos >= toks.len() || !matches!(&toks[pos], Token::KwEnum) {
            return Err(syntax_error(toks, pos, expect1("`enum`")));
        }
        if pos + 1 >= toks.len() {
            return Err(syntax_error(toks, pos + 1, expect1("identifier")));
        }
        match &toks[pos + 1] {
            Token::Ident(name) => {
                if pos + 2 < toks.len() && matches!(&toks[pos + 2], Token::LBrace) {
                    match parse_variants(toks, pos + 3) {
                        Ok((vs, j)) => Ok((EnumType { name: name.clone(), variants: vs }, j)),
                        Err(e) => Err(e),
                    }
                } else {
                    Err(syntax_error(toks, pos + 2, expect1("`{`")))
                }
            },
            _ => Err(syntax_error(toks, pos + 1, expect1("identifier"))),
        }
    }
}

impl WrapperStruct {
    /// Parses the wrapper shorthand `Name |Type|`.
    pub fn parse(toks: &Vec<Token>, pos: usize) -> (r: Result<
        (WrapperStruct, usize),
        SyntaxError,
    >)
        requires
            pos <= toks@.len(),
        ensures
            match r {
                Ok(p) => {
                    &&& sp_parse_wrapper(toks_view(toks@), pos as nat) == Ok::<
                        (NewTypeV, nat),
                        SyntaxErrorV,
                    >((NewTypeV::WrapperStruct(p.0@), p.1 as nat))
                    &&& pos < p.1 <= toks@.len()
                },
                Err(e) => sp_parse_wrapper(toks_view(toks@), pos as nat) == Err::<
                    (NewTypeV, nat),
                    SyntaxErrorV,
                >(e@),
            },
        decreases toks@.len() - pos, 3int,
    {
        let ghost tv = toks_view(toks@);
        proof {
            if (pos as int) < toks@.len() {
                assert(tv[pos as int] == toks@[pos as int]@);
            }
            if pos + 1 < toks@.len() {
                assert(tv[pos + 1] == toks@[pos + 1]@);
            }
        }
        if pos >= toks.len() {
            return Err(syntax_error(toks, pos, expect1("identifier")));
        }
        match &toks[pos] {
            Token::Ident(name) => {
                if pos + 1 < toks.len() && matches!(&toks[pos + 1], Token::Pipe) {
                    match TypeRef::parse(toks, pos + 2) {
                        Ok((t, j)) => {
                            proof {
                                assert(bump(pos as nat, j as nat) == j as nat);
                                if (j as int) < toks@.len() {
                                    assert(tv[j as int] == toks@[j as int]@);
                                }
                            }
                            if j < toks.len() && matches!(&toks[j], Token::Pipe) {
                                Ok((WrapperStruct { name: name.clone(), ty: t }, j + 1))
                            } else {
                                Err(syntax_error(toks, j, expect1("`|`")))
                            }
                        },
                        Err(e) => Err(e),
                    }
                } else {
                    Err(syntax_error(toks, pos + 1, expect1("`|`")))
                }
            },
            _ => Err(syntax_error(toks, pos, expect1("identifier"))),
        }
    }
}

/// Parses the components of a struct body up to and including the
/// closing `}`.
fn parse_fields(toks: &Vec<Token>, pos: usize) -> (r: Result<(Vec<Field>, usize), SyntaxError>)
    requires
        pos <= toks@.len(),
    ensures
        match r {
            Ok(p) => {
                &&& sp_parse_fields(toks_view(toks@), pos as nat) == Ok::<
                    (Seq<crate::model::FieldV>, nat),
                    SyntaxErrorV,
                >((fields_view(p.0@), p.1 as nat))
                &&& pos < p.1 <= toks@.len()
            },
            Err(e) => sp_parse_fields(toks_view(toks@), pos as nat) == Err::<
                (Seq<crate::model::FieldV>, nat),
                SyntaxErrorV,
            >(e@),
        },
    decreases toks@.len() - pos, 2int,
{
    let ghost tv = toks_view(toks@);
    proof {
        if (pos as int) < toks@.len() {
            assert(tv[pos as int] == toks@[pos as int]@);
        }
    }
    if pos < toks.len() && matches!(&toks[pos], Token::RBrace) {
        let fs: Vec<Field> = Vec::new();
        proof {
            assert(fields_view(fs@) =~= Seq::<crate::model::FieldV>::empty());
        }
        return Ok((fs, pos + 1));
    }
    if pos >= toks.len() {
        return Err(syntax_error(toks, pos, expect2("identifier", "`}`")));
    }
    match Field::parse(toks, pos) {
        Ok((f, j)) => {
            proof {
                assert(bump(pos as nat, j as nat) == j as nat);
                if (j as int) < toks@.len() {
                    assert(tv[j as int] == toks@[j as int]@);
                }
            }
            if j < toks.len() && matches!(&toks[j], Token::Comma) {
                match parse_fields(toks, j + 1) {
                    Ok((mut fs, k)) => {
                        let ghost fs0 = fs@;
                        fs.insert(0, f);
                        proof {
                            lemma_fields_view(fs@);
                            lemma_fields_view(fs0);
                            assert(fields_view(fs@) =~= seq![field_view(f)] + fields_view(fs0));
                        }
                        Ok((fs, k))
                    },
                    Err(e) => Err(e),
                }
            } else if j < toks.len() && matches!(&toks[j], Token::RBrace) {
                let mut fs: Vec<Field> = Vec::new();
                fs.push(f);
                proof {
                    lemma_fields_view(fs@);
                    assert(fields_view(fs@) =~= seq![field_view(fs@[0])]);
                }
                Ok((fs, j + 1))
            } else {
                Err(syntax_error(toks, j, expect2("`,`", "`}`")))
            }
        },
        Err(e) => Err(e),
    }
}

/// Parses the cases of an enum body up to and including the closing
/// `}`.
fn parse_variants(toks: &Vec<Token>, pos: usize) -> (r: Result<
    (Vec<Variant>, usize),
    SyntaxError,
>)
    requires
        pos <= toks@.len(),
    ensures
        match r {
            Ok(p) => {
                &&& sp_parse_variants(toks_view(toks@), pos as nat) == Ok::<
                    (Seq<VariantV>, nat),
                    SyntaxErrorV,
                >((variants_view(p.0@), p.1 as nat))
                &&& pos < p.1 <= toks@.len()
            },
            Err(e) => sp_parse_variants(toks_view(toks@), pos as nat) == Err::<
                (Seq<VariantV>, nat),
                SyntaxErrorV,
            >(e@),
        },
    decreases toks@.len() - pos, 2int,
{
    let ghost tv = toks_view(toks@);
    proof {
        if (pos as int) < toks@.len() {
            assert(tv[pos as int] == toks@[pos as int]@);
        }
    }
    if pos < toks.len() && matches!(&toks[pos], Token::RBrace) {
        let vs: Vec<Variant> = Vec::new();
        proof {
            assert(variants_view(vs@) =~= Seq::<VariantV>::empty());
        }
        return Ok((vs, pos + 1));
    }
    if pos >= toks.len() {
        return Err(syntax_error(toks, pos, expect3("identifier", "`|`", "`}`")));
    }
    match Variant::parse(toks, pos) {
        Ok((v, j)) => {
            proof {
                assert(bump(pos as nat, j as nat) == j as nat);
                if (j as int) < toks@.len() {
                    assert(tv[j as int] == toks@[j as int]@);
                }
            }
            if j < toks.len() && matches!(&toks[j], Token::Comma) {
                match parse_variants(toks, j + 1) {
                    Ok((mut vs, k)) => {
                        let ghost vs0 = vs@;
                        vs.insert(0, v);
                        proof {
                            lemma_variants_view(vs@);
                            lemma_variants_view(vs0);
                            assert(variants_view(vs@) =~= seq![variant_view(v)] + variants_view(
                                vs0,
                            ));
                        }
                        Ok((vs, k))
                    },
                    Err(e) => Err(e),
                }
            } else if j < toks.len() && matches!(&toks[j], Token::RBrace) {
                let mut vs: Vec<Variant> = Vec::new();
                vs.push(v);
                proof {
                    lemma_variants_view(vs@);
                    assert(variants_view(vs@) =~= seq![variant_view(vs@[0])]);
                }
                Ok((vs, j + 1))
            } else {
                Err(syntax_error(toks, j, expect2("`,`", "`}`")))
            }
        },
        Err(e) => Err(e),
    }
}

/// Parses the whole description: comma-separated top-level bindings
/// down to the end of the stream.
fn parse_bindings(toks: &Vec<Token>, pos: usize) -> (r: Result<
    (Vec<Variant>, usize),
    SyntaxError,
>)
    requires
        pos <= toks@.len(),
    ensures
        match r {
            Ok(p) => {
                &&& sp_parse_bindings(toks_view(toks@), pos as nat) == Ok::<
                    (Seq<VariantV>, nat),
                    SyntaxErrorV,
                >((variants_view(p.0@), p.1 as nat))
                &&& pos <= p.1 <= toks@.len()
            },
            Err(e) => sp_parse_bindings(toks_view(toks@), pos as nat) == Err::<
                (Seq<VariantV>, nat),
                SyntaxErrorV,
            >(e@),
        },
    decreases toks@.len() - pos,
{
    let ghost tv = toks_view(toks@);
    if pos >= toks.len() {
        let vs: Vec<Variant> = Vec::new();
        proof {
            assert(variants_view(vs@) =~= Seq::<VariantV>::empty());
        }
        return Ok((vs, pos));
    }
    match Variant::parse(toks, pos) {
        Ok((v, j)) => {
            proof {
                assert(bump(pos as nat, j as nat) == j as nat);
                if (j as int) < toks@.len() {
                    assert(tv[j as int] == toks@[j as int]@);
                }
            }
            if j >= toks.len() {
                let mut vs: Vec<Variant> = Vec::new();
                vs.push(v);
                proof {
                    lemma_variants_view(vs@);
                    assert(variants_view(vs@) =~= seq![variant_view(vs@[0])]);
                }
                Ok((vs, j))
            } else if matches!(&toks[j], Token::Comma) {
                match parse_bindings(toks, j + 1) {
                    Ok((mut vs, k)) => {
                        let ghost vs0 = vs@;
                        vs.insert(0, v);
                        proof {
                            lemma_variants_view(vs@);
                            lemma_variants_view(vs0);
                            assert(variants_view(vs@) =~= seq![variant_view(v)] + variants_view(
                                vs0,
                            ));
                        }
                        Ok((vs, k))
                    },
                    Err(e) => Err(e),
                }
            } else {
                Err(syntax_error(toks, j, expect1("`,`")))
            }
        },
        Err(e) => Err(e),
    }
}

impl Context {
    /// Parses a whole description and hoists every inline definition:
    /// `new_types` is the flattened type table in declaration order,
    /// `variants` the top-level bindings with inline definitions
    /// stripped.
    #[verifier::loop_isolation(false)]
    pub fn parse(toks: &Vec<Token>) -> (r: Result<Context, SyntaxError>)
        ensures
            match r {
                Ok(c) => {
                    &&& sp_parse_bindings(toks_view(toks@), 0) is Ok
                    &&& variants_view(c.variants@) == sp_parse_bindings(
                        toks_view(toks@),
                        0,
                    )->Ok_0.0.map_values(|v: VariantV| strip_variant(v))
                    &&& table_view(c.new_types@) == hoist_bindings(
                        sp_parse_bindings(toks_view(toks@), 0)->Ok_0.0,
                        0,
                    )
                },
                Err(e) => {
                    &&& sp_parse_bindings(toks_view(toks@), 0) is Err
                    &&& sp_parse_bindings(toks_view(toks@), 0)->Err_0 == e@
                },
            },
    {
        let vars = match parse_bindings(toks, 0) {
            Ok((vs, _end)) => vs,
            Err(e) => {
                return Err(e);
            },
        };
        let ghost vs0 = variants_view(vars@);
        proof {
            lemma_variants_view(vars@);
        }
        let mut new_types: Vec<NewType> = Vec::new();
        let mut variants: Vec<Variant> = Vec::new();
        let n = vars.len();
        for i in 0..n
            invariant
                variants@.len() == i,
                forall|k: int|
                    0 <= k < i ==> variant_view(#[trigger] variants@[k]) == strip_variant(vs0[k]),
                hoist_bindings(vs0, 0) == table_view(new_types@) + hoist_bindings(vs0, i as int),
            decreases n - i,
        {
            let v = &vars[i];
            let ghost acc0 = new_types@;
            match &v.new_type {
                Some(nt) => {
                    let mut fl = flatten(nt);
                    proof {
                        crate::flatten::lemma_table_view_concat(acc0, fl@);
                        assert(vs0[i as int].new_type == Some(nt_view(*nt)));
                    }
                    new_types.append(&mut fl);
                    proof {
                        assert(hoist_bindings(vs0, i as int) == crate::flatten::flatten_spec(
                            nt_view(*nt),
                        ) + hoist_bindings(vs0, i as int + 1));
                        assert(hoist_bindings(vs0, 0) == table_view(new_types@) + hoist_bindings(
                            vs0,
                            i as int + 1,
                        ));
                    }
                },
                None => {
                    proof {
                        assert(vs0[i as int].new_type is None);
                        assert(hoist_bindings(vs0, i as int) =~= seq![] + hoist_bindings(
                            vs0,
                            i as int + 1,
                        ));
                    }
                },
            }
            let name = v.name.clone();
            let ty = crate::flatten::clone_opt_ty(&v.ty);
            variants.push(Variant { new_type: None, name, ty });
            proof {
                assert(variant_view(variants@[i as int]) == strip_variant(vs0[i as int]));
            }
        }
        proof {
            assert(hoist_bindings(vs0, n as int) =~= Seq::<NewTypeV>::empty());
            assert(table_view(new_types@) + Seq::<NewTypeV>::empty() =~= table_view(new_types@));
            lemma_variants_view(variants@);
            assert(variants_view(variants@) =~= vs0.map_values(|v: VariantV| strip_variant(v)));
        }
        Ok(Context { new_types, variants })
    }
}

} // verus!
