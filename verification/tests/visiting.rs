use asterix::context::Context;
use asterix::lexer::tokenize;
use asterix::token::Token;
use asterix::visitor::Visitor;

fn lex(s: &str) -> Vec<Token> {
    tokenize(&s.chars().collect()).unwrap()
}

#[test]
fn simple_enum() {
    let toks = lex(
        "Lit |isize|,\n            Expr |Lit|,\n            Binop: struct Binop {\n                lhs: Expr,\n                rhs: Expr,\n            },\n            E: enum E {\n                Alpha(isize),\n                Beta(Ident),\n                Gamma,\n            }",
    );
    let context = Context::parse(&toks).unwrap();

    let visitor = Visitor::new(&context);
    let impl_tokens = visitor.create_visitor();

    println!("{}", impl_tokens);
}

#[test]
fn one_dispatch_method_per_table_entry() {
    let toks = lex(
        "Lit |isize|, Expr |Lit|, Binop: struct Binop { lhs: Expr, rhs: Expr }, E: enum E { Alpha(isize), Beta(Ident), Gamma }",
    );
    let context = Context::parse(&toks).unwrap();
    let visitor = Visitor::new(&context);
    let trait_text = visitor.create_visitor();
    for dispatch in ["fn visit_lit(", "fn visit_expr(", "fn visit_binop(", "fn visit_e("] {
        assert_eq!(trait_text.matches(dispatch).count(), 1, "{}", dispatch);
    }
    // One hook per basic case, one per raw case, and none for the
    // new-type case `Beta(Ident)`... `Ident` is not hoisted here, so it
    // too classifies as basic and gets a hook.
    assert_eq!(trait_text.matches("fn visit_e_alpha(").count(), 1);
    assert_eq!(trait_text.matches("fn visit_e_beta(").count(), 1);
    assert_eq!(trait_text.matches("fn visit_e_gamma(").count(), 1);
}

#[test]
fn struct_dispatch_walks_fields_in_declaration_order() {
    let toks = lex("A: struct A { x: usize }, B: struct B { y: usize }, Pair: struct Pair { right: B, left: A }");
    let context = Context::parse(&toks).unwrap();
    let visitor = Visitor::new(&context);
    let trait_text = visitor.create_visitor();
    let body = "fn visit_pair(&mut self, pair: &'ast Pair) where Self: Sized {\nself.visit_b(&pair.right);\nself.visit_a(&pair.left);\n}\n";
    assert!(trait_text.contains(body));
}

#[test]
fn single_func_renders_one_entry() {
    let toks = lex("Lit |isize|, E: enum E { Alpha(isize), Gamma }");
    let context = Context::parse(&toks).unwrap();
    let visitor = Visitor::new(&context);
    let one = visitor.single_func(&context.new_types[1]);
    assert!(one.starts_with("fn visit_e(&mut self, e: &'ast E) where Self: Sized {\n"));
    assert!(one.contains("E::Alpha(v) => self.visit_e_alpha(&v),\n"));
    assert!(one.contains("E::Gamma => self.visit_e_gamma(),\n"));
    assert!(one.ends_with("fn visit_e_gamma(&mut self) where Self: Sized {}\n"));
}

#[test]
fn func_impl_concatenates_all_entries() {
    let toks = lex("Lit |isize|, E: enum E { Gamma }");
    let context = Context::parse(&toks).unwrap();
    let visitor = Visitor::new(&context);
    let all = visitor.func_impl();
    let first = visitor.single_func(&context.new_types[0]);
    let second = visitor.single_func(&context.new_types[1]);
    assert_eq!(all, first + &second);
    let trait_text = visitor.create_visitor();
    assert_eq!(trait_text, format!("pub trait Visitor<'ast> {{\n{}}}\n", all));
}

#[test]
fn new_idents_are_the_hoisted_names() {
    let toks = lex("Lit |isize|, Expr |Lit|, Binop: struct Binop { lhs: Expr, rhs: Expr }");
    let context = Context::parse(&toks).unwrap();
    let visitor = Visitor::new(&context);
    let idents: Vec<&str> = visitor.new_idents.iter().map(|s| s.as_str()).collect();
    assert_eq!(idents, vec!["Lit", "Expr", "Binop"]);
}
