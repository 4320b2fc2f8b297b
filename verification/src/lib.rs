//! A grammar-driven generator for tree-shaped data models.
//!
//! Given a compact textual description of an abstract syntax tree, the
//! library parses it into a structured description, hoists every inline
//! type definition into a flat, order-preserving type table, and renders
//! the table into target-language source text: one declaration with
//! constructors and accessors per type, plus a traversal interface with
//! one dispatch method per composite type and default no-op hooks.

use vstd::prelude::*;

pub mod context;
pub mod flatten;
pub mod grammar;
pub mod interp;
pub mod lexer;
pub mod model;
pub mod parse;
pub mod render;
pub mod visitor;
pub mod token;

verus! {

/// A character is lower-cased by the generator's naming rule: ASCII
/// upper-case letters map to the matching lower-case letter, every other
/// character stays as it is.
pub open spec fn lower_char(c: char) -> char {
    if 'A' <= c && c <= 'Z' {
        ((c as u32) + 32) as char
    } else {
        c
    }
}

/// Lower-case every character of a name.
pub open spec fn lower_seq(s: Seq<char>) -> Seq<char> {
    s.map_values(|c: char| lower_char(c))
}

/// Executable lower-casing of one character, matching `lower_char`.
pub fn lower_char_exec(c: char) -> (r: char)
    ensures
        r == lower_char(c),
{
    let n = c as u32;
    if 65 <= n && n <= 90 {
        ((n + 32) as u8) as char
    } else {
        c
    }
}

/// What a generation run can fail with: the grammar text does not match
/// the description language, or two hoisted types share one name.
#[derive(Debug)]
pub enum Error {
    Syntax(token::SyntaxError),
    DuplicateName(String),
}

/// Position `j` repeats an earlier name.
pub open spec fn dup_at(names: Seq<Seq<char>>, j: int) -> bool {
    exists|i: int| 0 <= i < j && names[i] == names[j]
}

/// Some hoisted name occurs twice.
pub open spec fn has_dup(names: Seq<Seq<char>>) -> bool {
    exists|j: int| 0 <= j < names.len() && dup_at(names, j)
}

/// The first name that repeats an earlier one, if any.
fn find_duplicate(names: &Vec<String>) -> (r: Option<String>)
    ensures
        match r {
            Some(s) => {
                let nv = crate::visitor::names_view(names@);
                exists|j: int|
                    0 <= j < nv.len() && #[trigger] dup_at(nv, j) && s@ == nv[j] && (forall|k: int|
                        0 <= k < j ==> !dup_at(nv, k))
            },
            None => !has_dup(crate::visitor::names_view(names@)),
        },
{
    let ghost nv = crate::visitor::names_view(names@);
    let n = names.len();
    let mut j: usize = 0;
    while j < n
        invariant
            j <= n,
            n == names@.len(),
            nv == crate::visitor::names_view(names@),
            forall|k: int| 0 <= k < j ==> !dup_at(nv, k),
        decreases n - j,
    {
        let mut i: usize = 0;
        while i < j
            invariant
                i <= j < n,
                n == names@.len(),
                nv == crate::visitor::names_view(names@),
                forall|k: int| 0 <= k < j ==> !dup_at(nv, k),
                forall|k: int| 0 <= k < i ==> nv[k] != nv[j as int],
            decreases j - i,
        {
            if names[i].eq(&names[j]) {
                proof {
                    assert(nv[i as int] == names@[i as int]@);
                    assert(nv[j as int] == names@[j as int]@);
                    assert(nv[i as int] == nv[j as int]);
                    assert(dup_at(nv, j as int));
                }
                return Some(names[j].clone());
            }
            i = i + 1;
        }
        proof {
            assert(!dup_at(nv, j as int));
        }
        j = j + 1;
    }
    proof {
        assert(!has_dup(nv)) by {
            if has_dup(nv) {
                let j = choose|j: int| 0 <= j < nv.len() && dup_at(nv, j);
                assert(!dup_at(nv, j));
            }
        }
    }
    None
}

/// The characters of the input text.
fn str_chars(s: &str) -> (v: Vec<char>)
    ensures
        v@ == s@,
{
    let n = s.unicode_len();
    let mut v: Vec<char> = Vec::new();
    let mut i: usize = 0;
    while i < n
        invariant
            i <= n,
            n == s@.len(),
            v@ =~= s@.subrange(0, i as int),
        decreases n - i,
    {
        v.push(s.get_char(i));
        i = i + 1;
    }
    proof {
        assert(v@ =~= s@);
    }
    v
}

/// One whole generation run: lexes and parses the description, hoists
/// every inline definition into the type table, refuses a table in
/// which two types share one name, and renders the generated module
/// with its traversal interface.
///
/// It fails exactly on the inputs the lexer or the grammar refuses,
/// with their diagnostic, and on descriptions whose table repeats a
/// name, naming the first repeated name; it never returns a partial
/// module.
pub fn ast(input: &str) -> (r: Result<String, Error>)
    ensures
        ({
            let cs = input@;
            match r {
                Ok(text) => {
                    &&& lexer::lex_from(cs, 0) is Ok
                    &&& grammar::sp_parse_bindings(lexer::lex_from(cs, 0)->Ok_0, 0) is Ok
                    &&& {
                        let vs = grammar::sp_parse_bindings(lexer::lex_from(cs, 0)->Ok_0, 0)->Ok_0.0;
                        let table = flatten::hoist_bindings(vs, 0);
                        let names = visitor::names_of(table);
                        &&& !has_dup(names)
                        &&& text@ == render::render_module(
                            table,
                            vs.map_values(|v: model::VariantV| flatten::strip_variant(v)),
                            Some(visitor::render_visitor(table, names)),
                        )
                    }
                },
                Err(Error::Syntax(e)) => {
                    ||| {
                        &&& lexer::lex_from(cs, 0) is Err
                        &&& e@.pos == lexer::lex_from(cs, 0)->Err_0
                        &&& e@.found == token::FoundV::Chr(cs[e@.pos as int])
                    }
                    ||| {
                        &&& lexer::lex_from(cs, 0) is Ok
                        &&& grammar::sp_parse_bindings(lexer::lex_from(cs, 0)->Ok_0, 0) is Err
                        &&& e@ == grammar::sp_parse_bindings(lexer::lex_from(cs, 0)->Ok_0, 0)->Err_0
                    }
                },
                Err(Error::DuplicateName(s)) => {
                    &&& lexer::lex_from(cs, 0) is Ok
                    &&& grammar::sp_parse_bindings(lexer::lex_from(cs, 0)->Ok_0, 0) is Ok
                    &&& {
                        let vs = grammar::sp_parse_bindings(lexer::lex_from(cs, 0)->Ok_0, 0)->Ok_0.0;
                        let names = visitor::names_of(flatten::hoist_bindings(vs, 0));
                        exists|j: int|
                            0 <= j < names.len() && #[trigger] dup_at(names, j) && s@ == names[j]
                                && (forall|k: int| 0 <= k < j ==> !dup_at(names, k))
                    }
                },
            }
        }),
{
    let chars = str_chars(input);
    let toks = match lexer::tokenize(&chars) {
        Ok(t) => t,
        Err(e) => {
            return Err(Error::Syntax(e));
        },
    };
    let context = match context::Context::parse(&toks) {
        Ok(c) => c,
        Err(e) => {
            return Err(Error::Syntax(e));
        },
    };
    let vis = visitor::Visitor::new(&context);
    match find_duplicate(&vis.new_idents) {
        Some(dup) => {
            return Err(Error::DuplicateName(dup));
        },
        None => {},
    }
    let visit_impl = vis.create_visitor();
    let ast_impl = context.create_ast(Some(visit_impl));
    Ok(ast_impl)
}

} // verus!
