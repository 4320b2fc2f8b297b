//! A worked consumer of the generator: the tree a description of integer
//! expressions generates, written out with the constructors, accessors
//! and dispatch methods the generator would emit for it, and a small
//! interpreter over that tree.
//!
//! The description is `Lit |isize|, Expr: enum Expr { BinOp: struct
//! BinOp { op: enum Op { Plus, Minus, Times, Divide }, lhs: Box<Expr>,
//! rhs: Box<Expr> }, |Lit| }`; its type table is `[Lit, Expr, BinOp,
//! Op]`, and the root aggregate `Ast` has the cases `Lit` and `Expr`.

use vstd::prelude::*;

verus! {

/// A literal: a single-value wrapper around an integer.
#[derive(Debug)]
pub struct Lit(pub isize);

/// An arithmetic operator: four raw cases.
#[derive(Debug, Clone, Copy, PartialEq, Eq, Structural)]
pub enum Op {
    Plus,
    Minus,
    Times,
    Divide,
}

/// A binary operation over two sub-expressions.
#[derive(Debug)]
pub struct BinOp {
    pub op: Op,
    pub lhs: Box<Expr>,
    pub rhs: Box<Expr>,
}

/// An expression: a binary operation or a literal.
#[derive(Debug)]
pub enum Expr {
    BinOp(BinOp),
    Lit(Lit),
}

/// The root aggregate: one case per top-level binding.
#[derive(Debug)]
pub enum Ast {
    Lit(Lit),
    Expr(Expr),
}

impl Lit {
    /// Round trip: reading `inner` of `new(i)` gives back `i`.
    pub fn new(inner: isize) -> (r: Lit)
        ensures
            r.0 == inner,
    {
        Lit(inner)
    }

    pub fn inner(&self) -> (r: &isize)
        ensures
            *r == self.0,
    {
        &self.0
    }

    pub fn inner_mut(&mut self) -> (r: &mut isize)
        ensures
            *r == old(self).0,
            final(self).0 == *final(r),
    {
        &mut self.0
    }

    pub fn into_inner(self) -> (r: isize)
        ensures
            r == self.0,
    {
        self.0
    }
}

impl From<isize> for Lit {
    fn from(i: isize) -> (r: Lit)
        ensures
            r.0 == i,
    {
        Lit(i)
    }
}

impl vstd::std_specs::convert::FromSpecImpl<isize> for Lit {
    open spec fn obeys_from_spec() -> bool {
        true
    }

    open spec fn from_spec(i: isize) -> Lit {
        Lit(i)
    }
}

impl Clone for Lit {
    fn clone(&self) -> (r: Lit)
        ensures
            r == *self,
    {
        Lit(self.0)
    }
}

impl Op {
    /// Zero-argument construction helper for the raw case `Plus`.
    pub fn plus() -> (r: Op)
        ensures
            r == Op::Plus,
    {
        Op::Plus
    }

    pub fn minus() -> (r: Op)
        ensures
            r == Op::Minus,
    {
        Op::Minus
    }

    pub fn times() -> (r: Op)
        ensures
            r == Op::Times,
    {
        Op::Times
    }

    pub fn divide() -> (r: Op)
        ensures
            r == Op::Divide,
    {
        Op::Divide
    }
}

impl BinOp {
    /// Round trip: each accessor of `new(op, lhs, rhs)` gives back the
    /// argument it was built from.
    pub fn new(op: Op, lhs: Box<Expr>, rhs: Box<Expr>) -> (r: BinOp)
        ensures
            r.op == op,
            r.lhs == lhs,
            r.rhs == rhs,
    {
        BinOp { op, lhs, rhs }
    }

    pub fn op(&self) -> (r: &Op)
        ensures
            *r == self.op,
    {
        &self.op
    }

    pub fn lhs(&self) -> (r: &Box<Expr>)
        ensures
            *r == self.lhs,
    {
        &self.lhs
    }

    pub fn rhs(&self) -> (r: &Box<Expr>)
        ensures
            *r == self.rhs,
    {
        &self.rhs
    }

    pub fn op_mut(&mut self) -> (r: &mut Op)
        ensures
            *r == old(self).op,
            final(self).op == *final(r),
            final(self).lhs == old(self).lhs,
            final(self).rhs == old(self).rhs,
    {
        &mut self.op
    }

    pub fn lhs_mut(&mut self) -> (r: &mut Box<Expr>)
        ensures
            *r == old(self).lhs,
            final(self).lhs == *final(r),
            final(self).op == old(self).op,
            final(self).rhs == old(self).rhs,
    {
        &mut self.lhs
    }

    pub fn rhs_mut(&mut self) -> (r: &mut Box<Expr>)
        ensures
            *r == old(self).rhs,
            final(self).rhs == *final(r),
            final(self).op == old(self).op,
            final(self).lhs == old(self).lhs,
    {
        &mut self.rhs
    }
}

impl Expr {
    /// Construction helper for the case `BinOp`.
    pub fn binop(e: BinOp) -> (r: Expr)
        ensures
            r == Expr::BinOp(e),
    {
        Expr::BinOp(e)
    }

    /// Construction helper for the case `Lit`.
    pub fn lit(e: Lit) -> (r: Expr)
        ensures
            r == Expr::Lit(e),
    {
        Expr::Lit(e)
    }
}

impl Ast {
    pub fn lit(e: Lit) -> (r: Ast)
        ensures
            r == Ast::Lit(e),
    {
        Ast::Lit(e)
    }

    pub fn expr(e: Expr) -> (r: Ast)
        ensures
            r == Ast::Expr(e),
    {
        Ast::Expr(e)
    }
}

impl Clone for BinOp {
    fn clone(&self) -> (r: BinOp)
        ensures
            r == *self,
    {
        BinOp { op: self.op.clone(), lhs: clone_expr_box(&self.lhs), rhs: clone_expr_box(&self.rhs) }
    }
}

impl Clone for Expr {
    fn clone(&self) -> (r: Expr)
        ensures
            r == *self,
    {
        match self {
            Expr::BinOp(b) => Expr::BinOp(b.clone()),
            Expr::Lit(l) => Expr::Lit(l.clone()),
        }
    }
}

/// Clones a boxed expression.
fn clone_expr_box(e: &Box<Expr>) -> (r: Box<Expr>)
    ensures
        r == *e,
    decreases *e,
{
    match &**e {
        Expr::BinOp(b) => Box::new(
            Expr::BinOp(
                BinOp {
                    op: b.op.clone(),
                    lhs: clone_expr_box(&b.lhs),
                    rhs: clone_expr_box(&b.rhs),
                },
            ),
        ),
        Expr::Lit(l) => Box::new(Expr::Lit(Lit(l.0))),
    }
}

/// Truncating division, as the target language's `/` computes it: the
/// quotient of `a` by `b` rounded toward zero.
pub open spec fn div_trunc(a: int, b: int) -> int {
    if a >= 0 {
        a / b
    } else {
        -((-a) / b)
    }
}

/// What one operator computes over mathematical integers.
pub open spec fn apply_op(op: Op, a: int, b: int) -> int {
    match op {
        Op::Plus => a + b,
        Op::Minus => a - b,
        Op::Times => a * b,
        Op::Divide => div_trunc(a, b),
    }
}

/// The value of an expression over mathematical integers.
pub open spec fn eval_expr(e: Expr) -> int
    decreases e,
{
    match e {
        Expr::Lit(l) => l.0 as int,
        Expr::BinOp(b) => apply_op(b.op, eval_expr(*b.lhs), eval_expr(*b.rhs)),
    }
}

/// Evaluation stays within the machine: no division by zero, and every
/// intermediate result fits the integer type.
pub open spec fn eval_ok(e: Expr) -> bool
    decreases e,
{
    match e {
        Expr::Lit(_) => true,
        Expr::BinOp(b) => {
            &&& eval_ok(*b.lhs)
            &&& eval_ok(*b.rhs)
            &&& (b.op is Divide ==> eval_expr(*b.rhs) != 0)
            &&& isize::MIN <= apply_op(b.op, eval_expr(*b.lhs), eval_expr(*b.rhs)) <= isize::MAX
        },
    }
}

/// The value of a root node.
pub open spec fn eval_ast(a: Ast) -> int {
    match a {
        Ast::Lit(l) => l.0 as int,
        Ast::Expr(e) => eval_expr(e),
    }
}

/// Evaluation of a root node stays within the machine.
pub open spec fn ast_ok(a: Ast) -> bool {
    match a {
        Ast::Lit(_) => true,
        Ast::Expr(e) => eval_ok(e),
    }
}

/// The interpreter: overrides the leaf hooks of the generated traversal
/// to evaluate an expression tree bottom-up.
pub struct Interpreter;

impl Interpreter {
    /// Dispatch over a root node.
    pub fn visit_ast(&mut self, ast: &Ast) -> (r: isize)
        requires
            ast_ok(*ast),
        ensures
            r as int == eval_ast(*ast),
    {
        match ast {
            Ast::Lit(l) => self.visit_lit(l),
            Ast::Expr(e) => self.visit_expr(e),
        }
    }

    /// Dispatch over an expression.
    pub fn visit_expr(&mut self, expr: &Expr) -> (r: isize)
        requires
            eval_ok(*expr),
        ensures
            r as int == eval_expr(*expr),
        decreases *expr, 1int,
    {
        match expr {
            Expr::BinOp(b) => self.visit_binop(b),
            Expr::Lit(l) => self.visit_lit(l),
        }
    }

    /// Evaluates one binary operation.
    pub fn visit_binop(&mut self, b: &BinOp) -> (r: isize)
        requires
            eval_ok(Expr::BinOp(*b)),
        ensures
            r as int == eval_expr(Expr::BinOp(*b)),
        decreases *b, 0int,
    {
        let lhs = self.visit_expr(b.lhs());
        let rhs = self.visit_expr(b.rhs());

        match b.op() {
            Op::Plus => lhs + rhs,
            Op::Minus => lhs - rhs,
            Op::Times => lhs * rhs,
            Op::Divide => lhs / rhs,
        }
    }

    /// Reads one literal.
    pub fn visit_lit(&mut self, lit: &Lit) -> (r: isize)
        ensures
            r as int == lit.0 as int,
    {
        *lit.inner()
    }
}

} // verus!
