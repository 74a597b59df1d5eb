use vstd::prelude::*;
use crate::cells::Cells;
use crate::exp::{names_contain, scoped, Exp};
use crate::interp::{lookup, lookup_binding};
use crate::value::{add_spec, add_values, less_spec, less_values, Value};

verus! {

/// A staged expression: the shape of an `Exp` with every variable resolved
/// to a cell of an arena. A staged `Let` holds the staged bound expression,
/// the cell it writes and the staged body, elaborated once.
#[derive(Debug)]
pub enum Staged {
    Constant(Value),
    Variable(usize),
    Addition(Box<Staged>, Box<Staged>),
    LessThan(Box<Staged>, Box<Staged>),
    Let(Box<Staged>, usize, Box<Staged>),
}

/// The identifiers of a scope of variable-to-cell bindings.
pub open spec fn names_of(scope: Seq<(u64, usize)>) -> Seq<u64> {
    scope.map_values(|p: (u64, usize)| p.0)
}

/// Staging `e` when the variables of `scope` are held in the cells it names
/// and `next` is the first cell not yet allocated: the staged tree, and the
/// initial contents of the cells it allocates at `next`, `next + 1`, ...
/// A `Let` takes the first of its cells, default-valued, then its bound
/// expression's cells, then its body's.
pub open spec fn stage_spec(e: Exp, scope: Seq<(u64, usize)>, next: nat) -> (Staged, Seq<Value>)
    decreases e,
{
    match e {
        Exp::Constant(v) => (Staged::Constant(v), seq![]),
        Exp::Variable(x) => (Staged::Variable(lookup(scope, x.id)->0), seq![]),
        Exp::Addition(a, b) => {
            let (sa, fa) = stage_spec(*a, scope, next);
            let (sb, fb) = stage_spec(*b, scope, next + fa.len());
            (Staged::Addition(Box::new(sa), Box::new(sb)), fa + fb)
        },
        Exp::LessThan(a, b) => {
            let (sa, fa) = stage_spec(*a, scope, next);
            let (sb, fb) = stage_spec(*b, scope, next + fa.len());
            (Staged::LessThan(Box::new(sa), Box::new(sb)), fa + fb)
        },
        Exp::Let(a, x, body) => {
            let (sa, fa) = stage_spec(*a, scope, next + 1);
            let (sb, fb) = stage_spec(*body, scope.push((x.id, next as usize)), next + 1 + fa.len());
            (
                Staged::Let(Box::new(sa), next as usize, Box::new(sb)),
                seq![Value::default_spec(x.kind)] + fa + fb,
            )
        },
    }
}

/// Running `s` against the cell contents `cells`: its value, `None` when a
/// cell is missing, a kind is mismatched or a sum overflows, and the cell
/// contents afterwards. Subexpressions run left to right and the first
/// failure ends the run; a `Let` writes its bound value into its cell before
/// it runs its body.
pub open spec fn run_spec(s: Staged, cells: Seq<Value>) -> (Option<Value>, Seq<Value>)
    decreases s,
{
    match s {
        Staged::Constant(v) => (Some(v), cells),
        Staged::Variable(c) => if c < cells.len() {
            (Some(cells[c as int]), cells)
        } else {
            (None, cells)
        },
        Staged::Addition(a, b) => {
            let (ra, c1) = run_spec(*a, cells);
            match ra {
                Some(va) => {
                    let (rb, c2) = run_spec(*b, c1);
                    match rb {
                        Some(vb) => (add_spec(va, vb), c2),
                        None => (None, c2),
                    }
                },
                None => (None, c1),
            }
        },
        Staged::LessThan(a, b) => {
            let (ra, c1) = run_spec(*a, cells);
            match ra {
                Some(va) => {
                    let (rb, c2) = run_spec(*b, c1);
                    match rb {
                        Some(vb) => (less_spec(va, vb), c2),
                        None => (None, c2),
                    }
                },
                None => (None, c1),
            }
        },
        Staged::Let(a, c, body) => {
            let (ra, c1) = run_spec(*a, cells);
            match ra {
                Some(v) => if c < c1.len() {
                    run_spec(*body, c1.update(c as int, v))
                } else {
                    (None, c1)
                },
                None => (None, c1),
            }
        },
    }
}

/// A scope whose identifiers include `id` binds it to a cell.
pub proof fn lemma_scope_binds(scope: Seq<(u64, usize)>, id: u64)
    requires
        names_contain(names_of(scope), id),
    ensures
        lookup(scope, id) is Some,
    decreases scope.len(),
{
    if scope.len() > 0 && scope.last().0 != id {
        let i = choose|i: int| 0 <= i < names_of(scope).len() && names_of(scope)[i] == id;
        assert(names_of(scope.drop_last()) =~= names_of(scope).drop_last());
        assert(names_of(scope.drop_last())[i] == id);
        lemma_scope_binds(scope.drop_last(), id);
    }
}

impl Exp {
    /// Stages a closed expression, allocating the cells of its `Let`s in
    /// `cells`.
    pub fn stage(&self, cells: &mut Cells) -> (r: Staged)
        requires
            self.closed_spec(),
        ensures
            r == stage_spec(*self, seq![], old(cells)@.len()).0,
            final(cells)@ == old(cells)@ + stage_spec(*self, seq![], old(cells)@.len()).1,
    {
        let mut scope: Vec<(u64, usize)> = Vec::new();
        proof {
            assert(names_of(scope@) =~= seq![]);
        }
        self.stage_in(&mut scope, cells)
    }

    /// Stages the expression under `scope`, which binds variables to cells of
    /// `cells` and is left as it was found.
    pub fn stage_in(&self, scope: &mut Vec<(u64, usize)>, cells: &mut Cells) -> (r: Staged)
        requires
            scoped(*self, names_of(old(scope)@)),
        ensures
            r == stage_spec(*self, old(scope)@, old(cells)@.len()).0,
            final(cells)@ == old(cells)@ + stage_spec(*self, old(scope)@, old(cells)@.len()).1,
            final(scope)@ == old(scope)@,
        decreases self,
    {
        match self {
            Exp::Constant(v) => {
                proof {
                    assert(cells@ =~= old(cells)@ + seq![]);
                }
                Staged::Constant(*v)
            },
            Exp::Variable(x) => {
                proof {
                    lemma_scope_binds(scope@, x.id);
                    assert(cells@ =~= old(cells)@ + seq![]);
                }
                Staged::Variable(lookup_binding(scope, x.id).unwrap())
            },
            Exp::Addition(a, b) => {
                let sa = a.stage_in(scope, cells);
                let sb = b.stage_in(scope, cells);
                proof {
                    let n0 = old(cells)@.len();
                    let fa = stage_spec(**a, scope@, n0).1;
                    let fb = stage_spec(**b, scope@, n0 + fa.len()).1;
                    assert(cells@ =~= old(cells)@ + (fa + fb));
                }
                Staged::Addition(Box::new(sa), Box::new(sb))
            },
            Exp::LessThan(a, b) => {
                let sa = a.stage_in(scope, cells);
                let sb = b.stage_in(scope, cells);
                proof {
                    let n0 = old(cells)@.len();
                    let fa = stage_spec(**a, scope@, n0).1;
                    let fb = stage_spec(**b, scope@, n0 + fa.len()).1;
                    assert(cells@ =~= old(cells)@ + (fa + fb));
                }
                Staged::LessThan(Box::new(sa), Box::new(sb))
            },
            Exp::Let(a, x, body) => {
                let c = cells.fresh(x.kind);
                let sa = a.stage_in(scope, cells);
                scope.push((x.id, c));
                proof {
                    assert(names_of(scope@) =~= names_of(old(scope)@).push(x.id));
                }
                let sb = body.stage_in(scope, cells);
                scope.pop();
                proof {
                    assert(scope@ =~= old(scope)@);
                    let n0 = old(cells)@.len();
                    let fa = stage_spec(**a, old(scope)@, n0 + 1).1;
                    let fb = stage_spec(**body, old(scope)@.push((x.id, c)), n0 + 1 + fa.len()).1;
                    assert(cells@ =~= old(cells)@ + (seq![Value::default_spec(x.kind)] + fa + fb));
                }
                Staged::Let(Box::new(sa), c, Box::new(sb))
            },
        }
    }
}

impl Staged {
    /// Runs the staged expression: each `Let` writes its bound value into the
    /// cell it was given at staging and runs its body, already elaborated; no
    /// cell is allocated and nothing is re-elaborated.
    pub fn run(&self, cells: &mut Cells) -> (r: Option<Value>)
        ensures
            (r, final(cells)@) == run_spec(*self, old(cells)@),
        decreases self,
    {
        match self {
            Staged::Constant(v) => Some(*v),
            Staged::Variable(c) => {
                if *c < cells.len() {
                    Some(cells.read(*c))
                } else {
                    None
                }
            },
            Staged::Addition(a, b) => {
                match a.run(cells) {
                    Some(va) => match b.run(cells) {
                        Some(vb) => add_values(va, vb),
                        None => None,
                    },
                    None => None,
                }
            },
            Staged::LessThan(a, b) => {
                match a.run(cells) {
                    Some(va) => match b.run(cells) {
                        Some(vb) => less_values(va, vb),
                        None => None,
                    },
                    None => None,
                }
            },
            Staged::Let(a, c, body) => {
                match a.run(cells) {
                    Some(v) => {
                        if *c < cells.len() {
                            cells.replace(*c, v);
                            body.run(cells)
                        } else {
                            None
                        }
                    },
                    None => None,
                }
            },
        }
    }
}

} // verus!
