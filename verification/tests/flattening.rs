use asterix::context::{Context, NewType};
use asterix::flatten::flatten;
use asterix::lexer::tokenize;
use asterix::token::Token;

fn lex(s: &str) -> Vec<Token> {
    tokenize(&s.chars().collect()).unwrap()
}

fn rendered(nt: &NewType) -> String {
    let mut out = String::new();
    nt.to_tokens(&mut out);
    out
}

#[test]
fn flattening_a_flat_definition_returns_it_unchanged() {
    let toks = lex("enum L { A(isize), B }");
    let (e_type, _) = asterix::context::EnumType::parse(&toks, 0).unwrap();
    let flat = NewType::Enum(e_type);
    let before = rendered(&flat);
    let table = flatten(&flat);
    assert_eq!(table.len(), 1);
    assert_eq!(rendered(&table[0]), before);
}

#[test]
fn flattening_strips_every_inline_definition() {
    let toks = lex(
        "enum Expr { BinOp: struct BinOp { op: enum Op { Plus, Minus }, lhs: Box<Expr> }, |Lit|, Unit }",
    );
    let (nt, _) = NewType::parse(&toks, 0).unwrap();
    let table = flatten(&nt);
    for entry in &table {
        match entry {
            NewType::Enum(e) => {
                for v in &e.variants {
                    assert!(v.new_type.is_none());
                }
            },
            NewType::Struct(s) => {
                for f in &s.fields {
                    assert!(f.new_type.is_none());
                }
            },
            NewType::WrapperStruct(_) => {},
        }
    }
}

#[test]
fn flattening_keeps_declaration_order() {
    let toks = lex(
        "struct S { a: enum A { X }, plain: usize, b: struct B { inner: enum C { Y } } }",
    );
    let (nt, _) = NewType::parse(&toks, 0).unwrap();
    let table = flatten(&nt);
    let names: Vec<&str> = table.iter().map(|n| n.name().as_str()).collect();
    // The node itself first, then each child's hoisted block in
    // declaration order, inner definitions directly after their parent.
    assert_eq!(names, vec!["S", "A", "B", "C"]);
}

#[test]
fn context_parse_hoists_across_bindings_in_order() {
    let toks = lex("P: struct P { q: enum Q { Z } }, R |isize|");
    let context = Context::parse(&toks).unwrap();
    let names: Vec<&str> = context.new_types.iter().map(|n| n.name().as_str()).collect();
    assert_eq!(names, vec!["P", "Q", "R"]);
    for v in &context.variants {
        assert!(v.new_type.is_none());
    }
    assert_eq!(context.variants.len(), 2);
    assert_eq!(context.variants[0].name.as_str(), "P");
    assert_eq!(context.variants[1].name.as_str(), "R");
}
