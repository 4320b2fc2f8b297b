//! The grammar of a description, as a mathematical function from token
//! streams to structured values.
//!
//! Each `sp_parse_*` function consumes tokens from a position and either
//! yields the parsed value with the position after it, or the diagnostic
//! for the earliest offending token. The executable parser is proved to
//! return exactly these outcomes.
//!
//! A description is a comma-separated sequence of bindings, each in one
//! of the variant forms; a definition is `struct Name { field,* }`,
//! `enum Name { variant,* }`, or the wrapper shorthand `Name |Type|`; a
//! field is `ident : TypeRef-or-definition`; a variant is `|Name|`,
//! `Name : definition`, `Name ( Type )`, `Name |Type|`, or a bare
//! `Name`.

use vstd::prelude::*;

use crate::model::{
    wf_field, wf_new_type, wf_variant, FieldV, NewTypeV, StructTypeV, EnumTypeV, TyV, VariantV,
    WrapperStructV,
};
use crate::token::{FoundV, SyntaxErrorV, TokenV};

verus! {

/// The token at a position, if the stream is that long.
pub open spec fn peek(toks: Seq<TokenV>, i: nat) -> Option<TokenV> {
    if i < toks.len() {
        Some(toks[i as int])
    } else {
        None
    }
}

/// The diagnostic for position `i`: what stood there and what was
/// expected instead.
pub open spec fn perr(toks: Seq<TokenV>, i: nat, expected: Seq<Seq<char>>) -> SyntaxErrorV {
    SyntaxErrorV {
        pos: i,
        found: match peek(toks, i) {
            Some(t) => FoundV::Tok(t),
            None => FoundV::End,
        },
        expected,
    }
}

/// The position after a sub-parse, clamped forward. A successful parse
/// always consumes at least one token (`lemma_parse_ty_advances` and
/// its siblings below), so the clamp never fires; it only makes the
/// advance plain in each `decreases` measure.
pub open spec fn bump(i: nat, j: nat) -> nat {
    if j > i {
        j
    } else {
        i + 1
    }
}

/// A type reference: `Name`, or `Name < args >` with one or more
/// comma-separated type references as arguments.
pub open spec fn sp_parse_ty(toks: Seq<TokenV>, i: nat) -> Result<(TyV, nat), SyntaxErrorV>
    decreases toks.len() - i, 0nat,
{
    match peek(toks, i) {
        Some(TokenV::Ident(name)) => {
            if peek(toks, i + 1) == Some(TokenV::Lt) {
                match sp_parse_ty_args(toks, i + 2) {
                    Ok((args, j)) => Ok((TyV { name, args }, j)),
                    Err(e) => Err(e),
                }
            } else {
                Ok((TyV { name, args: seq![] }, i + 1))
            }
        },
        _ => Err(perr(toks, i, seq!["a type"@])),
    }
}

/// One or more comma-separated type references, closed by `>`.
pub open spec fn sp_parse_ty_args(toks: Seq<TokenV>, i: nat) -> Result<
    (Seq<TyV>, nat),
    SyntaxErrorV,
>
    decreases toks.len() - i, 1nat,
{
    match sp_parse_ty(toks, i) {
        Ok((t, j0)) => {
            let j = bump(i, j0);
            match peek(toks, j) {
                Some(TokenV::Comma) => match sp_parse_ty_args(toks, j + 1) {
                    Ok((ts, k)) => Ok((seq![t] + ts, k)),
                    Err(e) => Err(e),
                },
                Some(TokenV::Gt) => Ok((seq![t], j + 1)),
                _ => Err(perr(toks, j, seq!["`,`"@, "`>`"@])),
            }
        },
        Err(e) => Err(e),
    }
}

/// One case of an enum, in one of the five variant forms.
pub open spec fn sp_parse_variant(toks: Seq<TokenV>, i: nat) -> Result<
    (VariantV, nat),
    SyntaxErrorV,
>
    decreases toks.len() - i, 1nat,
{
    match peek(toks, i) {
        Some(TokenV::Pipe) => match peek(toks, i + 1) {
            Some(TokenV::Ident(name)) => match peek(toks, i + 2) {
                Some(TokenV::Pipe) => Ok(
                    (
                        VariantV {
                            new_type: None,
                            name,
                            ty: Some(TyV { name, args: seq![] }),
                        },
                        i + 3,
                    ),
                ),
                _ => Err(perr(toks, i + 2, seq!["`|`"@])),
            },
            _ => Err(perr(toks, i + 1, seq!["identifier"@])),
        },
        Some(TokenV::Ident(name)) => match peek(toks, i + 1) {
            Some(TokenV::Colon) => match sp_parse_new_type(toks, i + 2) {
                Ok((nt, j)) => Ok(
                    (
                        VariantV {
                            new_type: Some(nt),
                            name,
                            ty: Some(TyV { name: nt.name(), args: seq![] }),
                        },
                        j,
                    ),
                ),
                Err(e) => Err(e),
            },
            Some(TokenV::LParen) => match sp_parse_ty(toks, i + 2) {
                Ok((t, j0)) => {
                    let j = bump(i, j0);
                    match peek(toks, j) {
                        Some(TokenV::RParen) => Ok(
                            (VariantV { new_type: None, name, ty: Some(t) }, j + 1),
                        ),
                        _ => Err(perr(toks, j, seq!["`)`"@])),
                    }
                },
                Err(e) => Err(e),
            },
            Some(TokenV::Pipe) => match sp_parse_ty(toks, i + 2) {
                Ok((t, j0)) => {
                    let j = bump(i, j0);
                    match peek(toks, j) {
                        Some(TokenV::Pipe) => Ok(
                            (
                                VariantV {
                                    new_type: Some(
                                        NewTypeV::WrapperStruct(WrapperStructV { name, ty: t }),
                                    ),
                                    name,
                                    ty: Some(TyV { name, args: seq![] }),
                                },
                                j + 1,
                            ),
                        ),
                        _ => Err(perr(toks, j, seq!["`|`"@])),
                    }
                },
                Err(e) => Err(e),
            },
            _ => Ok((VariantV { new_type: None, name, ty: None }, i + 1)),
        },
        _ => Err(perr(toks, i, seq!["identifier"@, "`|`"@])),
    }
}

/// One component of a struct: `ident : TypeRef`, where the reference may
/// instead be an inline definition. An ordinary type reference is tried
/// first; only if that fails is an inline definition parsed.
pub open spec fn sp_parse_field(toks: Seq<TokenV>, i: nat) -> Result<(FieldV, nat), SyntaxErrorV>
    decreases toks.len() - i, 1nat,
{
    match peek(toks, i) {
        Some(TokenV::Ident(name)) => match peek(toks, i + 1) {
            Some(TokenV::Colon) => match sp_parse_ty(toks, i + 2) {
                Ok((t, j)) => Ok((FieldV { new_type: None, ident: name, ty: t }, j)),
                Err(_) => match sp_parse_new_type(toks, i + 2) {
                    Ok((nt, j)) => Ok(
                        (
                            FieldV {
                                new_type: Some(nt),
                                ident: name,
                                ty: TyV { name: nt.name(), args: seq![] },
                            },
                            j,
                        ),
                    ),
                    Err(e) => Err(e),
                },
            },
            _ => Err(perr(toks, i + 1, seq!["`:`"@])),
        },
        _ => Err(perr(toks, i, seq!["identifier"@])),
    }
}

/// A definition: a struct, an enum, or the wrapper shorthand, told apart
/// by one or two tokens of lookahead.
pub open spec fn sp_parse_new_type(toks: Seq<TokenV>, i: nat) -> Result<
    (NewTypeV, nat),
    SyntaxErrorV,
>
    decreases toks.len() - i, 4nat,
{
    match peek(toks, i) {
        Some(TokenV::KwStruct) => sp_parse_struct(toks, i),
        Some(TokenV::KwEnum) => sp_parse_enum(toks, i),
        Some(TokenV::Ident(_)) => {
            if peek(toks, i + 1) == Some(TokenV::Pipe) {
                sp_parse_wrapper(toks, i)
            } else {
                Err(perr(toks, i, seq!["`struct`"@, "`enum`"@, "identifier"@]))
            }
        },
        _ => Err(perr(toks, i, seq!["`struct`"@, "`enum`"@, "identifier"@])),
    }
}

/// `struct Name { field,* }` with an optional trailing comma.
pub open spec fn sp_parse_struct(toks: Seq<TokenV>, i: nat) -> Result<
    (NewTypeV, nat),
    SyntaxErrorV,
>
    decreases toks.len() - i, 3nat,
{
    match peek(toks, i) {
        Some(TokenV::KwStruct) => match peek(toks, i + 1) {
            Some(TokenV::Ident(name)) => match peek(toks, i + 2) {
                Some(TokenV::LBrace) => match sp_parse_fields(toks, i + 3) {
                    Ok((fs, j)) => Ok((NewTypeV::Struct(StructTypeV { name, fields: fs }), j)),
                    Err(e) => Err(e),
                },
                _ => Err(perr(toks, i + 2, seq!["`{`"@])),
            },
            _ => Err(perr(toks, i + 1, seq!["identifier"@])),
        },
        _ => Err(perr(toks, i, seq!["`struct`"@])),
    }
}

/// `enum Name { variant,* }` with an optional trailing comma.
pub open spec fn sp_parse_enum(toks: Seq<TokenV>, i: nat) -> Result<(NewTypeV, nat), SyntaxErrorV>
    decreases toks.len() - i, 3nat,
{
    match peek(toks, i) {
        Some(TokenV::KwEnum) => match peek(toks, i + 1) {
            Some(TokenV::Ident(name)) => match peek(toks, i + 2) {
                Some(TokenV::LBrace) => match sp_parse_variants(toks, i + 3) {
                    Ok((vs, j)) => Ok((NewTypeV::Enum(EnumTypeV { name, variants: vs }), j)),
                    Err(e) => Err(e),
                },
                _ => Err(perr(toks, i + 2, seq!["`{`"@])),
            },
            _ => Err(perr(toks, i + 1, seq!["identifier"@])),
        },
        _ => Err(perr(toks, i, seq!["`enum`"@])),
    }
}

/// The wrapper shorthand `Name |Type|`.
pub open spec fn sp_parse_wrapper(toks: Seq<TokenV>, i: nat) -> Result<
    (NewTypeV, nat),
    SyntaxErrorV,
>
    decreases toks.len() - i, 3nat,
{
    match peek(toks, i) {
        Some(TokenV::Ident(name)) => match peek(toks, i + 1) {
            Some(TokenV::Pipe) => match sp_parse_ty(toks, i + 2) {
                Ok((t, j0)) => {
                    let j = bump(i, j0);
                    match peek(toks, j) {
                        Some(TokenV::Pipe) => Ok(
                            (NewTypeV::WrapperStruct(WrapperStructV { name, ty: t }), j + 1),
                        ),
                        _ => Err(perr(toks, j, seq!["`|`"@])),
                    }
                },
                Err(e) => Err(e),
            },
            _ => Err(perr(toks, i + 1, seq!["`|`"@])),
        },
        _ => Err(perr(toks, i, seq!["identifier"@])),
    }
}

/// The components of a struct body, up to and including the closing
/// `}`; a trailing comma is allowed and the body may be empty.
pub open spec fn sp_parse_fields(toks: Seq<TokenV>, i: nat) -> Result<
    (Seq<FieldV>, nat),
    SyntaxErrorV,
>
    decreases toks.len() - i, 2nat,
{
    if peek(toks, i) == Some(TokenV::RBrace) {
        Ok((seq![], i + 1))
    } else if peek(toks, i) is None {
        Err(perr(toks, i, seq!["identifier"@, "`}`"@]))
    } else {
        match sp_parse_field(toks, i) {
            Ok((f, j0)) => {
                let j = bump(i, j0);
                match peek(toks, j) {
                    Some(TokenV::Comma) => match sp_parse_fields(toks, j + 1) {
                        Ok((fs, k)) => Ok((seq![f] + fs, k)),
                        Err(e) => Err(e),
                    },
                    Some(TokenV::RBrace) => Ok((seq![f], j + 1)),
                    _ => Err(perr(toks, j, seq!["`,`"@, "`}`"@])),
                }
            },
            Err(e) => Err(e),
        }
    }
}

/// The cases of an enum body, up to and including the closing `}`; a
/// trailing comma is allowed and the body may be empty.
pub open spec fn sp_parse_variants(toks: Seq<TokenV>, i: nat) -> Result<
    (Seq<VariantV>, nat),
    SyntaxErrorV,
>
    decreases toks.len() - i, 2nat,
{
    if peek(toks, i) == Some(TokenV::RBrace) {
        Ok((seq![], i + 1))
    } else if peek(toks, i) is None {
        Err(perr(toks, i, seq!["identifier"@, "`|`"@, "`}`"@]))
    } else {
        match sp_parse_variant(toks, i) {
            Ok((v, j0)) => {
                let j = bump(i, j0);
                match peek(toks, j) {
                    Some(TokenV::Comma) => match sp_parse_variants(toks, j + 1) {
                        Ok((vs, k)) => Ok((seq![v] + vs, k)),
                        Err(e) => Err(e),
                    },
                    Some(TokenV::RBrace) => Ok((seq![v], j + 1)),
                    _ => Err(perr(toks, j, seq!["`,`"@, "`}`"@])),
                }
            },
            Err(e) => Err(e),
        }
    }
}

/// The whole description: top-level bindings in variant form, separated
/// by commas, with an optional trailing comma, down to the end of the
/// stream. An empty description is allowed.
pub open spec fn sp_parse_bindings(toks: Seq<TokenV>, i: nat) -> Result<
    (Seq<VariantV>, nat),
    SyntaxErrorV,
>
    decreases toks.len() - i,
{
    if i >= toks.len() {
        Ok((seq![], i))
    } else {
        match sp_parse_variant(toks, i) {
            Ok((v, j0)) => {
                let j = bump(i, j0);
                match peek(toks, j) {
                    Some(TokenV::Comma) => match sp_parse_bindings(toks, j + 1) {
                        Ok((vs, k)) => Ok((seq![v] + vs, k)),
                        Err(e) => Err(e),
                    },
                    None => Ok((seq![v], j)),
                    _ => Err(perr(toks, j, seq!["`,`"@])),
                }
            },
            Err(e) => Err(e),
        }
    }
}

/// A successful type-reference parse consumes at least one token and
/// never runs past the stream, so `bump` leaves its position unchanged.
pub proof fn lemma_parse_ty_advances(toks: Seq<TokenV>, i: nat)
    requires
        sp_parse_ty(toks, i) is Ok,
    ensures
        i < sp_parse_ty(toks, i)->Ok_0.1 <= toks.len(),
    decreases toks.len() - i, 0nat,
{
    match peek(toks, i) {
        Some(TokenV::Ident(name)) => {
            if peek(toks, i + 1) == Some(TokenV::Lt) {
                lemma_parse_ty_args_advances(toks, (i + 2) as nat);
            }
        },
        _ => {},
    }
}

proof fn lemma_parse_ty_args_advances(toks: Seq<TokenV>, i: nat)
    requires
        sp_parse_ty_args(toks, i) is Ok,
    ensures
        i < sp_parse_ty_args(toks, i)->Ok_0.1 <= toks.len(),
    decreases toks.len() - i, 1nat,
{
    lemma_parse_ty_advances(toks, i);
    let (t, j0) = sp_parse_ty(toks, i)->Ok_0;
    let j = bump(i, j0);
    match peek(toks, j) {
        Some(TokenV::Comma) => {
            lemma_parse_ty_args_advances(toks, (j + 1) as nat);
        },
        _ => {},
    }
}

/// A successful case parse consumes at least one token and never runs
/// past the stream.
pub proof fn lemma_parse_variant_advances(toks: Seq<TokenV>, i: nat)
    requires
        sp_parse_variant(toks, i) is Ok,
    ensures
        i < sp_parse_variant(toks, i)->Ok_0.1 <= toks.len(),
    decreases toks.len() - i, 1nat,
{
    match peek(toks, i) {
        Some(TokenV::Ident(name)) => match peek(toks, i + 1) {
            Some(TokenV::Colon) => {
                lemma_parse_new_type_advances(toks, (i + 2) as nat);
            },
            Some(TokenV::LParen) => {
                lemma_parse_ty_advances(toks, (i + 2) as nat);
            },
            Some(TokenV::Pipe) => {
                lemma_parse_ty_advances(toks, (i + 2) as nat);
            },
            _ => {},
        },
        _ => {},
    }
}

proof fn lemma_parse_field_advances(toks: Seq<TokenV>, i: nat)
    requires
        sp_parse_field(toks, i) is Ok,
    ensures
        i < sp_parse_field(toks, i)->Ok_0.1 <= toks.len(),
    decreases toks.len() - i, 1nat,
{
    match peek(toks, i) {
        Some(TokenV::Ident(name)) => match peek(toks, i + 1) {
            Some(TokenV::Colon) => {
                if sp_parse_ty(toks, (i + 2) as nat) is Ok {
                    lemma_parse_ty_advances(toks, (i + 2) as nat);
                } else {
                    lemma_parse_new_type_advances(toks, (i + 2) as nat);
                }
            },
            _ => {},
        },
        _ => {},
    }
}

/// A successful definition parse consumes at least one token and never
/// runs past the stream.
pub proof fn lemma_parse_new_type_advances(toks: Seq<TokenV>, i: nat)
    requires
        sp_parse_new_type(toks, i) is Ok,
    ensures
        i < sp_parse_new_type(toks, i)->Ok_0.1 <= toks.len(),
    decreases toks.len() - i, 4nat,
{
    match peek(toks, i) {
        Some(TokenV::KwStruct) => {
            lemma_parse_struct_advances(toks, i);
        },
        Some(TokenV::KwEnum) => {
            lemma_parse_enum_advances(toks, i);
        },
        _ => {
            if sp_parse_new_type(toks, i) is Ok {
                lemma_parse_wrapper_advances(toks, i);
            }
        },
    }
}

proof fn lemma_parse_struct_advances(toks: Seq<TokenV>, i: nat)
    requires
        sp_parse_struct(toks, i) is Ok,
    ensures
        i < sp_parse_struct(toks, i)->Ok_0.1 <= toks.len(),
    decreases toks.len() - i, 3nat,
{
    lemma_parse_fields_advances(toks, (i + 3) as nat);
}

proof fn lemma_parse_enum_advances(toks: Seq<TokenV>, i: nat)
    requires
        sp_parse_enum(toks, i) is Ok,
    ensures
        i < sp_parse_enum(toks, i)->Ok_0.1 <= toks.len(),
    decreases toks.len() - i, 3nat,
{
    lemma_parse_variants_advances(toks, (i + 3) as nat);
}

proof fn lemma_parse_wrapper_advances(toks: Seq<TokenV>, i: nat)
    requires
        sp_parse_wrapper(toks, i) is Ok,
    ensures
        i < sp_parse_wrapper(toks, i)->Ok_0.1 <= toks.len(),
    decreases toks.len() - i, 3nat,
{
    lemma_parse_ty_advances(toks, (i + 2) as nat);
}

proof fn lemma_parse_fields_advances(toks: Seq<TokenV>, i: nat)
    requires
        sp_parse_fields(toks, i) is Ok,
    ensures
        i < sp_parse_fields(toks, i)->Ok_0.1 <= toks.len(),
    decreases toks.len() - i, 2nat,
{
    if peek(toks, i) == Some(TokenV::RBrace) {
    } else if peek(toks, i) is None {
    } else {
        lemma_parse_field_advances(toks, i);
        let (f, j0) = sp_parse_field(toks, i)->Ok_0;
        let j = bump(i, j0);
        match peek(toks, j) {
            Some(TokenV::Comma) => {
                lemma_parse_fields_advances(toks, (j + 1) as nat);
            },
            _ => {},
        }
    }
}

proof fn lemma_parse_variants_advances(toks: Seq<TokenV>, i: nat)
    requires
        sp_parse_variants(toks, i) is Ok,
    ensures
        i < sp_parse_variants(toks, i)->Ok_0.1 <= toks.len(),
    decreases toks.len() - i, 2nat,
{
    if peek(toks, i) == Some(TokenV::RBrace) {
    } else if peek(toks, i) is None {
    } else {
        lemma_parse_variant_advances(toks, i);
        let (v, j0) = sp_parse_variant(toks, i)->Ok_0;
        let j = bump(i, j0);
        match peek(toks, j) {
            Some(TokenV::Comma) => {
                lemma_parse_variants_advances(toks, (j + 1) as nat);
            },
            _ => {},
        }
    }
}

/// A successful description parse ends exactly at the end of the
/// stream.
pub proof fn lemma_parse_bindings_ends(toks: Seq<TokenV>, i: nat)
    requires
        i <= toks.len(),
        sp_parse_bindings(toks, i) is Ok,
    ensures
        sp_parse_bindings(toks, i)->Ok_0.1 == toks.len(),
    decreases toks.len() - i,
{
    if i >= toks.len() {
    } else {
        lemma_parse_variant_advances(toks, i);
        let (v, j0) = sp_parse_variant(toks, i)->Ok_0;
        let j = bump(i, j0);
        match peek(toks, j) {
            Some(TokenV::Comma) => {
                lemma_parse_bindings_ends(toks, (j + 1) as nat);
            },
            _ => {},
        }
    }
}

/// Every case the grammar accepts is well-formed: an inline definition
/// always comes with the plain reference to its own name.
pub proof fn lemma_parse_variant_wf(toks: Seq<TokenV>, i: nat)
    requires
        sp_parse_variant(toks, i) is Ok,
    ensures
        wf_variant(sp_parse_variant(toks, i)->Ok_0.0),
    decreases toks.len() - i, 1nat,
{
    match peek(toks, i) {
        Some(TokenV::Ident(name)) => match peek(toks, i + 1) {
            Some(TokenV::Colon) => {
                lemma_parse_new_type_wf(toks, i + 2);
            },
            _ => {},
        },
        _ => {},
    }
}

/// Every component the grammar accepts is well-formed.
pub proof fn lemma_parse_field_wf(toks: Seq<TokenV>, i: nat)
    requires
        sp_parse_field(toks, i) is Ok,
    ensures
        wf_field(sp_parse_field(toks, i)->Ok_0.0),
    decreases toks.len() - i, 1nat,
{
    match peek(toks, i) {
        Some(TokenV::Ident(name)) => match peek(toks, i + 1) {
            Some(TokenV::Colon) => {
                if !(sp_parse_ty(toks, i + 2) is Ok) {
                    lemma_parse_new_type_wf(toks, i + 2);
                }
            },
            _ => {},
        },
        _ => {},
    }
}

/// Every definition the grammar accepts is well-formed.
pub proof fn lemma_parse_new_type_wf(toks: Seq<TokenV>, i: nat)
    requires
        sp_parse_new_type(toks, i) is Ok,
    ensures
        wf_new_type(sp_parse_new_type(toks, i)->Ok_0.0),
    decreases toks.len() - i, 4nat,
{
    match peek(toks, i) {
        Some(TokenV::KwStruct) => {
            lemma_parse_struct_wf(toks, i);
        },
        Some(TokenV::KwEnum) => {
            lemma_parse_enum_wf(toks, i);
        },
        _ => {},
    }
}

proof fn lemma_parse_struct_wf(toks: Seq<TokenV>, i: nat)
    requires
        sp_parse_struct(toks, i) is Ok,
    ensures
        wf_new_type(sp_parse_struct(toks, i)->Ok_0.0),
    decreases toks.len() - i, 3nat,
{
    lemma_parse_fields_wf(toks, (i + 3) as nat);
}

proof fn lemma_parse_enum_wf(toks: Seq<TokenV>, i: nat)
    requires
        sp_parse_enum(toks, i) is Ok,
    ensures
        wf_new_type(sp_parse_enum(toks, i)->Ok_0.0),
    decreases toks.len() - i, 3nat,
{
    lemma_parse_variants_wf(toks, (i + 3) as nat);
}

proof fn lemma_parse_fields_wf(toks: Seq<TokenV>, i: nat)
    requires
        sp_parse_fields(toks, i) is Ok,
    ensures
        forall|k: int|
            0 <= k < sp_parse_fields(toks, i)->Ok_0.0.len() ==> wf_field(
                #[trigger] sp_parse_fields(toks, i)->Ok_0.0[k],
            ),
    decreases toks.len() - i, 2nat,
{
    if peek(toks, i) == Some(TokenV::RBrace) {
    } else if peek(toks, i) is None {
    } else {
        lemma_parse_field_wf(toks, i);
        let (f, j0) = sp_parse_field(toks, i)->Ok_0;
        let j = bump(i, j0);
        match peek(toks, j) {
            Some(TokenV::Comma) => {
                lemma_parse_fields_wf(toks, (j + 1) as nat);
                let rest = sp_parse_fields(toks, (j + 1) as nat)->Ok_0.0;
                assert(sp_parse_fields(toks, i)->Ok_0.0 == seq![f] + rest);
                assert forall|k: int|
                    0 <= k < sp_parse_fields(toks, i)->Ok_0.0.len() implies wf_field(
                    #[trigger] sp_parse_fields(toks, i)->Ok_0.0[k],
                ) by {
                    if k == 0 {
                        assert((seq![f] + rest)[k] == f);
                    } else {
                        assert((seq![f] + rest)[k] == rest[k - 1]);
                    }
                }
            },
            _ => {},
        }
    }
}

proof fn lemma_parse_variants_wf(toks: Seq<TokenV>, i: nat)
    requires
        sp_parse_variants(toks, i) is Ok,
    ensures
        forall|k: int|
            0 <= k < sp_parse_variants(toks, i)->Ok_0.0.len() ==> wf_variant(
                #[trigger] sp_parse_variants(toks, i)->Ok_0.0[k],
            ),
    decreases toks.len() - i, 2nat,
{
    if peek(toks, i) == Some(TokenV::RBrace) {
    } else if peek(toks, i) is None {
    } else {
        lemma_parse_variant_wf(toks, i);
        let (v, j0) = sp_parse_variant(toks, i)->Ok_0;
        let j = bump(i, j0);
        match peek(toks, j) {
            Some(TokenV::Comma) => {
                lemma_parse_variants_wf(toks, (j + 1) as nat);
                let rest = sp_parse_variants(toks, (j + 1) as nat)->Ok_0.0;
                assert(sp_parse_variants(toks, i)->Ok_0.0 == seq![v] + rest);
                assert forall|k: int|
                    0 <= k < sp_parse_variants(toks, i)->Ok_0.0.len() implies wf_variant(
                    #[trigger] sp_parse_variants(toks, i)->Ok_0.0[k],
                ) by {
                    if k == 0 {
                        assert((seq![v] + rest)[k] == v);
                    } else {
                        assert((seq![v] + rest)[k] == rest[k - 1]);
                    }
                }
            },
            _ => {},
        }
    }
}

/// Every description the grammar accepts is well-formed: at every
/// nesting depth, a case or component that carries an inline definition
/// records, alongside it, the plain reference to that definition's name.
pub proof fn lemma_parse_bindings_wf(toks: Seq<TokenV>, i: nat)
    requires
        sp_parse_bindings(toks, i) is Ok,
    ensures
        forall|k: int|
            0 <= k < sp_parse_bindings(toks, i)->Ok_0.0.len() ==> wf_variant(
                #[trigger] sp_parse_bindings(toks, i)->Ok_0.0[k],
            ),
    decreases toks.len() - i,
{
    if i >= toks.len() {
    } else {
        lemma_parse_variant_wf(toks, i);
        let (v, j0) = sp_parse_variant(toks, i)->Ok_0;
        let j = bump(i, j0);
        match peek(toks, j) {
            Some(TokenV::Comma) => {
                lemma_parse_bindings_wf(toks, (j + 1) as nat);
                let rest = sp_parse_bindings(toks, (j + 1) as nat)->Ok_0.0;
                assert(sp_parse_bindings(toks, i)->Ok_0.0 == seq![v] + rest);
                assert forall|k: int|
                    0 <= k < sp_parse_bindings(toks, i)->Ok_0.0.len() implies wf_variant(
                    #[trigger] sp_parse_bindings(toks, i)->Ok_0.0[k],
                ) by {
                    if k == 0 {
                        assert((seq![v] + rest)[k] == v);
                    } else {
                        assert((seq![v] + rest)[k] == rest[k - 1]);
                    }
                }
            },
            None => {
                assert(sp_parse_bindings(toks, i)->Ok_0.0 == seq![v]);
            },
            _ => {},
        }
    }
}

} // verus!
