use vstd::prelude::*;
use crate::interp::lookup;
use crate::value::{Kind, Value};

verus! {

/// A reference to a let-bound variable: its identifier and the kind of value
/// it holds.
#[derive(Clone, Copy, Debug, PartialEq, Eq, Structural)]
pub struct VarRef {
    pub id: u64,
    pub kind: Kind,
}

/// The construction context of a binder: how many let-bindings enclose it.
/// A let built in scope `s` binds the identifier `s.depth`, and its body is
/// built in scope `s.depth + 1`, so nested bindings never share an
/// identifier while bindings in disjoint subtrees may.
#[derive(Clone, Copy, Debug, PartialEq, Eq, Structural)]
pub struct Scope {
    pub depth: u64,
}

impl Scope {
    /// The outermost scope, enclosed by no binding.
    pub fn top() -> (r: Scope)
        ensures
            r.depth == 0,
    {
        Scope { depth: 0 }
    }
}

/// An expression tree. A `Let` holds the bound subexpression, the variable
/// it binds and the body, built once when the node was constructed.
#[derive(Debug)]
pub enum Exp {
    Constant(Value),
    Variable(VarRef),
    Addition(Box<Exp>, Box<Exp>),
    LessThan(Box<Exp>, Box<Exp>),
    Let(Box<Exp>, VarRef, Box<Exp>),
}

/// The kind of value an expression produces, read off its structure; `None`
/// when its parts are composed with mismatched kinds.
pub open spec fn kind_of(e: Exp) -> Option<Kind>
    decreases e,
{
    match e {
        Exp::Constant(v) => Some(v.kind_spec()),
        Exp::Variable(x) => Some(x.kind),
        Exp::Addition(a, b) => if kind_of(*a) == Some(Kind::Num) && kind_of(*b) == Some(Kind::Num) {
            Some(Kind::Num)
        } else {
            None
        },
        Exp::LessThan(a, b) => if kind_of(*a) == Some(Kind::Num) && kind_of(*b) == Some(Kind::Num) {
            Some(Kind::Bool)
        } else {
            None
        },
        Exp::Let(a, x, body) => if kind_of(*a) == Some(x.kind) {
            kind_of(*body)
        } else {
            None
        },
    }
}

/// Every variable reference of `e` carries the kind of the binding it
/// refers to: the innermost enclosing `Let` of `e` that binds its
/// identifier, or else the innermost entry for it in `ctx`.
pub open spec fn refs_kinded(e: Exp, ctx: Seq<(u64, Kind)>) -> bool
    decreases e,
{
    match e {
        Exp::Constant(_) => true,
        Exp::Variable(x) => lookup(ctx, x.id) == Some(x.kind),
        Exp::Addition(a, b) => refs_kinded(*a, ctx) && refs_kinded(*b, ctx),
        Exp::LessThan(a, b) => refs_kinded(*a, ctx) && refs_kinded(*b, ctx),
        Exp::Let(a, x, body) => refs_kinded(*a, ctx) && refs_kinded(*body, ctx.push((x.id, x.kind))),
    }
}

/// Whether `id` is among the identifiers in `names`.
pub open spec fn names_contain(names: Seq<u64>, id: u64) -> bool {
    exists|i: int| 0 <= i < names.len() && names[i] == id
}

/// Every variable of `e` is bound by an enclosing `Let` of `e` or named in
/// `names`.
pub open spec fn scoped(e: Exp, names: Seq<u64>) -> bool
    decreases e,
{
    match e {
        Exp::Constant(_) => true,
        Exp::Variable(x) => names_contain(names, x.id),
        Exp::Addition(a, b) => scoped(*a, names) && scoped(*b, names),
        Exp::LessThan(a, b) => scoped(*a, names) && scoped(*b, names),
        Exp::Let(a, x, body) => scoped(*a, names) && scoped(*body, names.push(x.id)),
    }
}

impl Exp {
    /// No variable of the expression is free.
    pub open spec fn closed_spec(&self) -> bool {
        scoped(*self, seq![])
    }

    /// Tests that no variable of the expression is free.
    pub fn is_closed(&self) -> (r: bool)
        ensures
            r == self.closed_spec(),
    {
        let mut names: Vec<u64> = Vec::new();
        self.scoped_in(&mut names)
    }

    fn scoped_in(&self, names: &mut Vec<u64>) -> (r: bool)
        ensures
            r == scoped(*self, old(names)@),
            final(names)@ == old(names)@,
        decreases self,
    {
        match self {
            Exp::Constant(_) => true,
            Exp::Variable(x) => contains_name(names, x.id),
            Exp::Addition(a, b) | Exp::LessThan(a, b) => {
                let ra = a.scoped_in(names);
                let rb = b.scoped_in(names);
                ra && rb
            },
            Exp::Let(a, x, body) => {
                let ra = a.scoped_in(names);
                names.push(x.id);
                let rb = body.scoped_in(names);
                names.pop();
                proof {
                    assert(names@ =~= old(names)@);
                }
                ra && rb
            },
        }
    }
}

fn contains_name(names: &Vec<u64>, id: u64) -> (r: bool)
    ensures
        r == names_contain(names@, id),
{
    let mut i: usize = 0;
    while i < names.len()
        invariant
            i <= names@.len(),
            forall|j: int| 0 <= j < i ==> names@[j] != id,
        decreases names@.len() - i,
    {
        if names[i] == id {
            proof {
                assert(names@[i as int] == id);
            }
            return true;
        }
        i = i + 1;
    }
    false
}

/// A constant expression.
pub fn unit_exp(v: Value) -> (r: Exp)
    ensures
        r == Exp::Constant(v),
{
    Exp::Constant(v)
}

/// A reference to a bound variable.
pub fn var_exp(x: VarRef) -> (r: Exp)
    ensures
        r == Exp::Variable(x),
{
    Exp::Variable(x)
}

/// The sum of two numeric expressions.
pub fn add_exp(a: Exp, b: Exp) -> (r: Exp)
    requires
        kind_of(a) == Some(Kind::Num),
        kind_of(b) == Some(Kind::Num),
    ensures
        r == Exp::Addition(Box::new(a), Box::new(b)),
        kind_of(r) == Some(Kind::Num),
{
    Exp::Addition(Box::new(a), Box::new(b))
}

/// The strict ordering test of two numeric expressions.
pub fn less_than_exp(a: Exp, b: Exp) -> (r: Exp)
    requires
        kind_of(a) == Some(Kind::Num),
        kind_of(b) == Some(Kind::Num),
    ensures
        r == Exp::LessThan(Box::new(a), Box::new(b)),
        kind_of(r) == Some(Kind::Bool),
{
    Exp::LessThan(Box::new(a), Box::new(b))
}

/// The variable a let built in `scope` binds for a bound expression of kind
/// `k`.
pub open spec fn bound_var(scope: Scope, k: Kind) -> VarRef {
    VarRef { id: scope.depth, kind: k }
}

/// A let-binding. The binder is called exactly once, here, with the scope of
/// the body and a reference to the bound variable; what it returns is the
/// body, kept for every later interpretation and staging.
pub fn let_exp<F: FnOnce(Scope, VarRef) -> Exp>(scope: Scope, bound: Exp, binder: F) -> (r: Exp)
    requires
        scope.depth < u64::MAX,
        kind_of(bound) is Some,
        binder.requires(
            (
                Scope { depth: (scope.depth + 1) as u64 },
                bound_var(scope, kind_of(bound)->0),
            ),
        ),
    ensures
        r matches Exp::Let(a, x, body) && *a == bound && x == bound_var(scope, kind_of(bound)->0)
            && binder.ensures(
            (Scope { depth: (scope.depth + 1) as u64 }, x),
            *body,
        ),
{
    let k = bound.kind().unwrap();
    let x = VarRef { id: scope.depth, kind: k };
    let inner = Scope { depth: scope.depth + 1 };
    let body = binder(inner, x);
    Exp::Let(Box::new(bound), x, Box::new(body))
}

impl Exp {
    /// The kind of value the expression produces; `None` when its parts are
    /// composed with mismatched kinds.
    pub fn kind(&self) -> (r: Option<Kind>)
        ensures
            r == kind_of(*self),
        decreases self,
    {
        match self {
            Exp::Constant(v) => Some(v.kind()),
            Exp::Variable(x) => Some(x.kind),
            Exp::Addition(a, b) => {
                if a.kind() == Some(Kind::Num) && b.kind() == Some(Kind::Num) {
                    Some(Kind::Num)
                } else {
                    None
                }
            },
            Exp::LessThan(a, b) => {
                if a.kind() == Some(Kind::Num) && b.kind() == Some(Kind::Num) {
                    Some(Kind::Bool)
                } else {
                    None
                }
            },
            Exp::Let(a, x, body) => {
                if a.kind() == Some(x.kind) {
                    body.kind()
                } else {
                    None
                }
            },
        }
    }
}

} // verus!
