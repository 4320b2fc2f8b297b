use asterix::ast;
use asterix::context::{Context, EnumType, NewType, StructType};
use asterix::lexer::tokenize;
use asterix::token::Token;

fn lex(s: &str) -> Vec<Token> {
    tokenize(&s.chars().collect()).unwrap()
}

#[test]
fn to_tokens() {
    let toks = lex("struct A {\n            lhs: usize,\n            rhs: f32,\n        }");
    let (s_type, _) = StructType::parse(&toks, 0).unwrap();
    let mut tokens = String::new();
    s_type.to_tokens(&mut tokens);
    println!("{}", tokens);

    let toks = lex(
        "enum T {\n            A(isize),\n            B(Box<A>),\n            C: struct D {\n                lhs: String,\n                rhs: String,\n            }\n        }",
    );
    let (e_type, _) = EnumType::parse(&toks, 0).unwrap();
    let mut tokens = String::new();
    e_type.to_tokens(&mut tokens);
    println!("{}", tokens);

    let toks = lex("Ident |String|");
    let (w_type, _) = NewType::parse(&toks, 0).unwrap();
    let mut tokens = String::new();
    w_type.to_tokens(&mut tokens);
    println!("{}", tokens);
}

#[test]
fn struct_codegen_text() {
    let toks = lex("struct A { lhs: usize, rhs: T }");
    let (s_type, _) = StructType::parse(&toks, 0).unwrap();
    let mut out = String::new();
    s_type.to_tokens(&mut out);
    let expected = "#[derive(Debug, Clone)]\n\
        pub struct A {\n\
        lhs: usize,\n\
        rhs: T,\n\
        }\n\
        impl A {\n\
        pub fn new(lhs: usize, rhs: T) -> Self {\n\
        Self { lhs, rhs }\n\
        }\n\
        pub fn lhs(&self) -> &usize {\n\
        &self.lhs\n\
        }\n\
        pub fn rhs(&self) -> &T {\n\
        &self.rhs\n\
        }\n\
        pub fn lhs_mut(&mut self) -> &mut usize {\n\
        &mut self.lhs\n\
        }\n\
        pub fn rhs_mut(&mut self) -> &mut T {\n\
        &mut self.rhs\n\
        }\n\
        }\n";
    assert_eq!(out, expected);
}

#[test]
fn wrapper_codegen_text() {
    let toks = lex("Ident |String|");
    let (w_type, _) = NewType::parse(&toks, 0).unwrap();
    let mut out = String::new();
    w_type.to_tokens(&mut out);
    let expected = "#[derive(Debug, Clone)]\n\
        pub struct Ident(String);\n\
        impl Ident {\n\
        pub fn new(inner: String) -> Self {\n\
        Self(inner)\n\
        }\n\
        pub fn inner(&self) -> &String {\n\
        &self.0\n\
        }\n\
        pub fn inner_mut(&mut self) -> &mut String {\n\
        &mut self.0\n\
        }\n\
        pub fn into_inner(self) -> String {\n\
        self.0\n\
        }\n\
        }\n\
        impl From<String> for Ident {\n\
        fn from(i: String) -> Self {\n\
        Self(i)\n\
        }\n\
        }\n";
    assert_eq!(out, expected);
}

#[test]
fn enum_codegen_lowercases_helper_names() {
    let toks = lex("enum T { FooBar(isize), UNIT }");
    let (e_type, _) = EnumType::parse(&toks, 0).unwrap();
    let mut out = String::new();
    e_type.to_tokens(&mut out);
    assert!(out.contains("pub fn foobar(e: isize) -> Self {\nT::FooBar(e)\n}\n"));
    assert!(out.contains("pub fn unit() -> Self {\nT::UNIT\n}\n"));
}

#[test]
fn generic_payloads_render_with_their_arguments() {
    let toks = lex("enum T { A(Box<A>), B(Result<V, E>) }");
    let (e_type, _) = EnumType::parse(&toks, 0).unwrap();
    let mut out = String::new();
    e_type.to_tokens(&mut out);
    assert!(out.contains("A(Box<A>),\n"));
    assert!(out.contains("B(Result<V, E>),\n"));
}

#[test]
fn literal_grammar_table() {
    let toks = lex("Lit: enum Lit { Int(isize), Float(f32), Ident |String|, Str |String| }");
    let context = Context::parse(&toks).unwrap();
    let names: Vec<&str> = context.new_types.iter().map(|n| n.name().as_str()).collect();
    assert_eq!(names, vec!["Lit", "Ident", "Str"]);

    let vis = asterix::visitor::Visitor::new(&context);
    let trait_text = vis.create_visitor();
    // `Ident` and `Str` are hoisted, so those cases dispatch onward;
    // `Int` and `Float` carry external payloads, so each gets a hook.
    assert!(trait_text.contains("Lit::Ident(v) => self.visit_ident(&v),\n"));
    assert!(trait_text.contains("Lit::Str(v) => self.visit_str(&v),\n"));
    assert!(trait_text.contains("Lit::Int(v) => self.visit_lit_int(&v),\n"));
    assert!(trait_text.contains("Lit::Float(v) => self.visit_lit_float(&v),\n"));
    assert!(trait_text.contains("fn visit_lit_int(&mut self, v: &'ast isize) where Self: Sized {}\n"));
    assert!(trait_text.contains("fn visit_lit_float(&mut self, v: &'ast f32) where Self: Sized {}\n"));
}

#[test]
fn nested_grammar_hoists_outer_before_inner() {
    let toks = lex(
        "Expr: enum Expr { BinOp: struct BinOp { op: enum Op { Plus, Minus }, lhs: Box<Expr>, rhs: Box<Expr> }, |Lit| }",
    );
    let context = Context::parse(&toks).unwrap();
    let names: Vec<&str> = context.new_types.iter().map(|n| n.name().as_str()).collect();
    assert_eq!(names, vec!["Expr", "BinOp", "Op"]);

    let vis = asterix::visitor::Visitor::new(&context);
    let trait_text = vis.create_visitor();
    // `BinOp` is hoisted: its case dispatches to the type's own method.
    assert!(trait_text.contains("Expr::BinOp(v) => self.visit_binop(&v),\n"));
    // `Lit` is not defined anywhere in this description: basic, a hook.
    assert!(trait_text.contains("Expr::Lit(v) => self.visit_expr_lit(&v),\n"));
    assert!(trait_text.contains("fn visit_expr_lit(&mut self, v: &'ast Lit) where Self: Sized {}\n"));
    // The struct's dispatch visits only its hoisted-type field, `op`.
    assert!(trait_text.contains(
        "fn visit_binop(&mut self, binop: &'ast BinOp) where Self: Sized {\nself.visit_op(&binop.op);\n}\n"
    ));
}

#[test]
fn raw_variant_gets_hook_and_helper() {
    let out = ast("E: enum E { Unit }").unwrap();
    assert!(out.contains("pub fn unit() -> Self {\nE::Unit\n}\n"));
    assert!(out.contains("E::Unit => self.visit_e_unit(),\n"));
    assert!(out.contains("fn visit_e_unit(&mut self) where Self: Sized {}\n"));
}

#[test]
fn whole_module_for_one_wrapper() {
    let out = ast("Lit |isize|").unwrap();
    let expected = "pub mod ast {\n\
        #[derive(Debug, Clone)]\n\
        pub struct Lit(isize);\n\
        impl Lit {\n\
        pub fn new(inner: isize) -> Self {\n\
        Self(inner)\n\
        }\n\
        pub fn inner(&self) -> &isize {\n\
        &self.0\n\
        }\n\
        pub fn inner_mut(&mut self) -> &mut isize {\n\
        &mut self.0\n\
        }\n\
        pub fn into_inner(self) -> isize {\n\
        self.0\n\
        }\n\
        }\n\
        impl From<isize> for Lit {\n\
        fn from(i: isize) -> Self {\n\
        Self(i)\n\
        }\n\
        }\n\
        #[derive(Debug, Clone)]\n\
        pub enum Ast {\n\
        Lit(Lit),\n\
        }\n\
        impl Ast {\n\
        pub fn lit(e: Lit) -> Self {\n\
        Ast::Lit(e)\n\
        }\n\
        }\n\
        pub trait Visitor<'ast> {\n\
        fn visit_lit(&mut self, lit: &Lit) where Self: Sized {\n\
        }\n\
        }\n\
        }\n";
    assert_eq!(out, expected);
}

#[test]
fn wrapper_over_hoisted_type_dispatches_inward() {
    let out = ast("Inner: struct Inner { x: usize }, Outer |Inner|").unwrap();
    assert!(out.contains(
        "fn visit_outer(&mut self, outer: &Outer) where Self: Sized {\nself.visit_inner(outer.inner());\n}\n"
    ));
}
