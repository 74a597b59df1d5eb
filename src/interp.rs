use vstd::prelude::*;
use crate::exp::Exp;
use crate::value::{add_spec, add_values, less_spec, less_values, Value};

verus! {

/// The value most recently bound to `id` in a binding stack, whose last
/// entry is the innermost binding.
pub open spec fn lookup<T>(env: Seq<(u64, T)>, id: u64) -> Option<T>
    decreases env.len(),
{
    if env.len() == 0 {
        None
    } else if env.last().0 == id {
        Some(env.last().1)
    } else {
        lookup(env.drop_last(), id)
    }
}

/// What `e` evaluates to under the bindings `env`: subexpressions are
/// evaluated left to right, and a `Let` evaluates its body with the bound
/// value pushed onto the bindings. `None` when a variable is free, a kind is
/// mismatched or a sum overflows.
pub open spec fn eval(e: Exp, env: Seq<(u64, Value)>) -> Option<Value>
    decreases e,
{
    match e {
        Exp::Constant(v) => Some(v),
        Exp::Variable(x) => lookup(env, x.id),
        Exp::Addition(a, b) => match (eval(*a, env), eval(*b, env)) {
            (Some(va), Some(vb)) => add_spec(va, vb),
            _ => None,
        },
        Exp::LessThan(a, b) => match (eval(*a, env), eval(*b, env)) {
            (Some(va), Some(vb)) => less_spec(va, vb),
            _ => None,
        },
        Exp::Let(a, x, body) => match eval(*a, env) {
            Some(v) => eval(*body, env.push((x.id, v))),
            None => None,
        },
    }
}

pub(crate) fn lookup_binding<T: Copy>(env: &Vec<(u64, T)>, id: u64) -> (r: Option<T>)
    ensures
        r == lookup(env@, id),
{
    let mut i: usize = env.len();
    proof {
        assert(env@.subrange(0, i as int) =~= env@);
    }
    while i > 0
        invariant
            i <= env@.len(),
            lookup(env@, id) == lookup(env@.subrange(0, i as int), id),
        decreases i,
    {
        proof {
            let s = env@.subrange(0, i as int);
            assert(s.drop_last() =~= env@.subrange(0, i - 1));
        }
        if env[i - 1].0 == id {
            return Some(env[i - 1].1);
        }
        i = i - 1;
    }
    None
}

impl Exp {
    /// Interprets the expression directly: every call walks the whole tree
    /// again, and every `Let` it meets binds its value in a fresh slot that
    /// lives while its body is evaluated.
    pub fn interpret(&self) -> (r: Option<Value>)
        ensures
            r == eval(*self, seq![]),
    {
        let mut env: Vec<(u64, Value)> = Vec::new();
        self.interpret_in(&mut env)
    }

    /// Interprets the expression under the binding stack `env`, which is
    /// left as it was found.
    pub fn interpret_in(&self, env: &mut Vec<(u64, Value)>) -> (r: Option<Value>)
        ensures
            r == eval(*self, old(env)@),
            final(env)@ == old(env)@,
        decreases self,
    {
        match self {
            Exp::Constant(v) => Some(*v),
            Exp::Variable(x) => lookup_binding(env, x.id),
            Exp::Addition(a, b) => {
                let ra = a.interpret_in(env);
                let rb = b.interpret_in(env);
                match (ra, rb) {
                    (Some(va), Some(vb)) => add_values(va, vb),
                    _ => None,
                }
            },
            Exp::LessThan(a, b) => {
                let ra = a.interpret_in(env);
                let rb = b.interpret_in(env);
                match (ra, rb) {
                    (Some(va), Some(vb)) => less_values(va, vb),
                    _ => None,
                }
            },
            Exp::Let(a, x, body) => {
                match a.interpret_in(env) {
                    Some(v) => {
                        env.push((x.id, v));
                        let r = body.interpret_in(env);
                        env.pop();
                        proof {
                            assert(env@ =~= old(env)@);
                        }
                        r
                    },
                    None => None,
                }
            },
        }
    }
}

} // verus!
