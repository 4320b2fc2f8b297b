use asterix::context::{Context, Field, NewType, StructType, Variant};
use asterix::lexer::tokenize;
use asterix::token::{Found, Token};
use asterix::{ast, Error};

fn lex(s: &str) -> Vec<Token> {
    tokenize(&s.chars().collect()).unwrap()
}

#[test]
fn parse_variant() {
    let toks = lex("Call(Lmao)");
    let (variant, _) = Variant::parse(&toks, 0).unwrap();
    println!("{:#?}\n", variant);

    let toks = lex("|Call|");
    let (variant, _) = Variant::parse(&toks, 0).unwrap();
    println!("{:#?}\n", variant);

    let toks = lex("Call |isize|");
    let (variant, _) = Variant::parse(&toks, 0).unwrap();
    println!("{:#?}\n", variant);

    let toks = lex("Call: struct Call {}");
    let (variant, _) = Variant::parse(&toks, 0).unwrap();
    println!("{:#?}\n", variant);
}

#[test]
fn parse_field() {
    let toks = lex("a: usize");
    let (field, _) = Field::parse(&toks, 0).unwrap();
    println!("{:#?}\n", field);

    let toks = lex("a: struct A {\n\n        }");
    let (field, _) = Field::parse(&toks, 0).unwrap();
    println!("{:#?}\n", field);

    let toks = lex("a: enum A {\n\n        }");
    let (field, _) = Field::parse(&toks, 0).unwrap();
    println!("{:#?}\n", field);
}

#[test]
fn parse_context() {
    let toks = lex(
        "Lit: enum Lit {\n            Int(isize),\n            Float(f32),\n            Ident |String|,\n            Str |String|,\n        },\n        Expr: enum Expr {\n            Call: struct Call {\n                lhs: Ident,\n                rhs: Box<Expr>,\n            },\n            BinOp: struct BinOp {\n                op: enum Op {\n                    Plus,\n                    Minus,\n                    Times,\n                    Divide,\n                },\n                lhs: Box<Expr>,\n                rhs: Box<Expr>,\n            },\n            |Lit|,\n            Unit,\n        },\n        Stmt: enum Stmt {\n            |Expr|,\n            Assignment(Assignment),\n            Assignment: struct Assignment {\n                lhs: Ident,\n                rhs: Option<Expr>,\n            },\n            Print(Option<Expr>),\n            Ret |Option<Expr>|,\n        },\n        Decl: enum Decl {\n            |Stmt|,\n        },\n        Program: struct Program {\n            decls: Vec<Decl>,\n        },",
    );
    let context = Context::parse(&toks).unwrap();

    for nt in context.new_types {
        println!("{}", nt.name());
    }
}

#[test]
fn parse_context_table_order() {
    let toks = lex(
        "Lit: enum Lit { Int(isize), Ident |String| }, Program: struct Program { decls: Vec<Decl> }",
    );
    let context = Context::parse(&toks).unwrap();
    let names: Vec<&str> = context.new_types.iter().map(|n| n.name().as_str()).collect();
    assert_eq!(names, vec!["Lit", "Ident", "Program"]);
}

#[test]
fn parse_struct_type() {
    let toks = lex("struct A { lhs: usize, rhs: T, }");
    let (stype, end) = StructType::parse(&toks, 0).unwrap();
    assert_eq!(stype.name.as_str(), "A");
    assert_eq!(stype.fields.len(), 2);
    assert_eq!(end, toks.len());
}

#[test]
fn parse_raw_variant() {
    let toks = lex("Unit");
    let (variant, _) = Variant::parse(&toks, 0).unwrap();
    assert_eq!(variant.name.as_str(), "Unit");
    assert!(variant.ty.is_none());
    assert!(variant.new_type.is_none());
}

#[test]
fn parse_newtype_wrapper_shorthand() {
    let toks = lex("Ident |String|");
    let (nt, _) = NewType::parse(&toks, 0).unwrap();
    assert_eq!(nt.name().as_str(), "Ident");
    assert!(matches!(nt, NewType::WrapperStruct(_)));
}

#[test]
fn unmatched_brace_is_a_syntax_error() {
    match ast("A: struct A {") {
        Err(Error::Syntax(e)) => {
            assert_eq!(e.found, Found::End);
            assert!(e.expected.iter().any(|s| s == "`}`"));
        },
        other => panic!("expected a syntax error, got {:?}", other),
    }
}

#[test]
fn stray_character_is_a_syntax_error() {
    match ast("A: $") {
        Err(Error::Syntax(e)) => {
            assert_eq!(e.found, Found::Chr('$'));
        },
        other => panic!("expected a syntax error, got {:?}", other),
    }
}

#[test]
fn missing_separator_is_a_syntax_error() {
    match ast("A: struct A {} B: struct B {}") {
        Err(Error::Syntax(e)) => {
            assert!(e.expected.iter().any(|s| s == "`,`"));
            assert!(matches!(e.found, Found::Tok(Token::Ident(_))));
        },
        other => panic!("expected a syntax error, got {:?}", other),
    }
}

#[test]
fn duplicate_names_are_refused() {
    match ast("A: struct A { x: usize }, B: struct A { y: usize }") {
        Err(Error::DuplicateName(name)) => {
            assert_eq!(name.as_str(), "A");
        },
        other => panic!("expected a duplicate-name error, got {:?}", other),
    }
}

#[test]
fn empty_description_generates_an_empty_module() {
    let out = ast("").unwrap();
    assert!(out.starts_with("pub mod ast {\n"));
    assert!(out.contains("pub enum Ast {\n}\n"));
}
