use vstd::prelude::*;
use crate::exp::{kind_of, refs_kinded, scoped, Exp};
use crate::interp::{eval, lookup};
use crate::staged::{names_of, run_spec, stage_spec};
use crate::value::{Kind, Value};

verus! {

/// The binding stack `env` and the scope `scope` bind the same identifiers
/// in the same order, each cell of `scope` lies below `next` and holds the
/// value that `env` binds.
pub open spec fn bindings_agree(
    env: Seq<(u64, Value)>,
    scope: Seq<(u64, usize)>,
    cells: Seq<Value>,
    next: nat,
) -> bool {
    &&& env.len() == scope.len()
    &&& next <= cells.len()
    &&& forall|i: int|
        0 <= i < scope.len() ==> {
            &&& #[trigger] scope[i].0 == env[i].0
            &&& (scope[i].1 as nat) < next
            &&& cells[scope[i].1 as int] == env[i].1
        }
}

/// Under agreeing bindings, a variable bound in `scope` names a cell whose
/// content is the value `env` binds it to.
pub proof fn lemma_lookup_agrees(
    env: Seq<(u64, Value)>,
    scope: Seq<(u64, usize)>,
    cells: Seq<Value>,
    next: nat,
    id: u64,
)
    requires
        bindings_agree(env, scope, cells, next),
        lookup(scope, id) is Some,
    ensures
        (lookup(scope, id)->0 as int) < cells.len(),
        lookup(env, id) == Some(cells[lookup(scope, id)->0 as int]),
    decreases scope.len(),
{
    let k = scope.len() - 1;
    assert(scope[k].0 == env[k].0);
    if scope.last().0 != id {
        assert(bindings_agree(env.drop_last(), scope.drop_last(), cells, next)) by {
            assert forall|i: int| 0 <= i < scope.drop_last().len() implies {
                &&& #[trigger] scope.drop_last()[i].0 == env.drop_last()[i].0
                &&& (scope.drop_last()[i].1 as nat) < next
                &&& cells[scope.drop_last()[i].1 as int] == env.drop_last()[i].1
            } by {
                assert(scope[i].0 == env[i].0);
            }
        }
        lemma_lookup_agrees(env.drop_last(), scope.drop_last(), cells, next, id);
    }
}

/// Staging `e` under a scope that agrees with the bindings `env`, then
/// running the staged tree against cell contents that hold its cells, gives
/// what interpreting `e` under `env` gives. The run keeps the number of cells
/// and leaves every cell below `next` as it was.
pub proof fn lemma_run_matches_eval(
    e: Exp,
    env: Seq<(u64, Value)>,
    scope: Seq<(u64, usize)>,
    cells: Seq<Value>,
    next: nat,
)
    requires
        scoped(e, names_of(scope)),
        bindings_agree(env, scope, cells, next),
        next + stage_spec(e, scope, next).1.len() <= cells.len(),
        cells.len() <= usize::MAX,
    ensures
        ({
            let (r, after) = run_spec(stage_spec(e, scope, next).0, cells);
            &&& r == eval(e, env)
            &&& after.len() == cells.len()
            &&& forall|j: int| 0 <= j < next ==> after[j] == cells[j]
        }),
    decreases e,
{
    match e {
        Exp::Constant(_) => {},
        Exp::Variable(x) => {
            crate::staged::lemma_scope_binds(scope, x.id);
            lemma_lookup_agrees(env, scope, cells, next, x.id);
        },
        Exp::Addition(a, b) | Exp::LessThan(a, b) => {
            let (sa, fa) = stage_spec(*a, scope, next);
            lemma_run_matches_eval(*a, env, scope, cells, next);
            let (ra, c1) = run_spec(sa, cells);
            if ra is Some {
                let fb = stage_spec(*b, scope, next + fa.len()).1;
                assert(stage_spec(e, scope, next).1 == fa + fb);
                assert(next + fa.len() <= c1.len());
                assert(bindings_agree(env, scope, c1, next + fa.len())) by {
                    assert forall|i: int| 0 <= i < scope.len() implies {
                        &&& #[trigger] scope[i].0 == env[i].0
                        &&& (scope[i].1 as nat) < next + fa.len()
                        &&& c1[scope[i].1 as int] == env[i].1
                    } by {
                        assert(scope[i].0 == env[i].0);
                    }
                }
                lemma_run_matches_eval(*b, env, scope, c1, next + fa.len());
            }
        },
        Exp::Let(a, x, body) => {
            let (sa, fa) = stage_spec(*a, scope, next + 1);
            assert(bindings_agree(env, scope, cells, next + 1)) by {
                assert forall|i: int| 0 <= i < scope.len() implies {
                    &&& #[trigger] scope[i].0 == env[i].0
                    &&& (scope[i].1 as nat) < next + 1
                    &&& cells[scope[i].1 as int] == env[i].1
                } by {
                    assert(scope[i].0 == env[i].0);
                }
            }
            lemma_run_matches_eval(*a, env, scope, cells, next + 1);
            let (ra, c1) = run_spec(sa, cells);
            if ra is Some {
                let v = ra->0;
                let c2 = c1.update(next as int, v);
                let scope2 = scope.push((x.id, next as usize));
                let env2 = env.push((x.id, v));
                let fb = stage_spec(*body, scope2, next + 1 + fa.len()).1;
                assert(stage_spec(e, scope, next).1 == seq![Value::default_spec(x.kind)] + fa + fb);
                assert(next + 1 + fa.len() <= c2.len());
                assert(names_of(scope2) =~= names_of(scope).push(x.id));
                assert(bindings_agree(env2, scope2, c2, next + 1 + fa.len())) by {
                    assert forall|i: int| 0 <= i < scope2.len() implies {
                        &&& #[trigger] scope2[i].0 == env2[i].0
                        &&& (scope2[i].1 as nat) < next + 1 + fa.len()
                        &&& c2[scope2[i].1 as int] == env2[i].1
                    } by {
                        if i < scope.len() {
                            assert(scope[i].0 == env[i].0);
                        }
                    }
                }
                lemma_run_matches_eval(*body, env2, scope2, c2, next + 1 + fa.len());
            }
        },
    }
}

/// Cross-mode equivalence: for every closed expression, running its staged
/// tree, staged with its first cell at `next`, against any arena that holds
/// the cells staging allocated gives what interpreting the expression gives.
/// Such an arena is the one staging left, and the one each later run leaves.
pub proof fn lemma_stage_run_agrees(e: Exp, next: nat, cells: Seq<Value>)
    requires
        e.closed_spec(),
        next + stage_spec(e, seq![], next).1.len() <= cells.len(),
        cells.len() <= usize::MAX,
    ensures
        run_spec(stage_spec(e, seq![], next).0, cells).0 == eval(e, seq![]),
        run_spec(stage_spec(e, seq![], next).0, cells).1.len() == cells.len(),
{
    assert(names_of(seq![]) =~= seq![]);
    lemma_run_matches_eval(e, seq![], seq![], cells, next);
}

/// Re-running a staged tree: two runs in a row of the staged form of a
/// closed expression, the second against the cells the first left, give the
/// same result.
pub proof fn lemma_rerun_same(e: Exp, next: nat, cells: Seq<Value>)
    requires
        e.closed_spec(),
        next + stage_spec(e, seq![], next).1.len() <= cells.len(),
        cells.len() <= usize::MAX,
    ensures
        ({
            let s = stage_spec(e, seq![], next).0;
            run_spec(s, run_spec(s, cells).1).0 == run_spec(s, cells).0
        }),
{
    let s = stage_spec(e, seq![], next).0;
    lemma_stage_run_agrees(e, next, cells);
    lemma_stage_run_agrees(e, next, run_spec(s, cells).1);
}

/// The sum of two constants, interpreted and staged then run, is their sum
/// when it fits in an `i64`.
pub proof fn lemma_add_constants(a: i64, b: i64, next: nat, cells: Seq<Value>)
    requires
        i64::MIN <= a + b <= i64::MAX,
    ensures
        ({
            let e = Exp::Addition(
                Box::new(Exp::Constant(Value::Num(a))),
                Box::new(Exp::Constant(Value::Num(b))),
            );
            &&& eval(e, seq![]) == Some(Value::Num((a + b) as i64))
            &&& run_spec(stage_spec(e, seq![], next).0, cells).0 == Some(Value::Num((a + b) as i64))
        }),
{
    let ca = Exp::Constant(Value::Num(a));
    let cb = Exp::Constant(Value::Num(b));
    let sa = stage_spec(ca, seq![], next);
    let sb = stage_spec(cb, seq![], next + sa.1.len());
    assert(run_spec(sa.0, cells) == (Some(Value::Num(a)), cells));
    assert(run_spec(sb.0, cells) == (Some(Value::Num(b)), cells));
    assert(eval(ca, seq![]) == Some(Value::Num(a)));
    assert(eval(cb, seq![]) == Some(Value::Num(b)));
}

/// The strict ordering test of two constants, interpreted and staged then
/// run, is `a < b`.
pub proof fn lemma_less_constants(a: i64, b: i64, next: nat, cells: Seq<Value>)
    ensures
        ({
            let e = Exp::LessThan(
                Box::new(Exp::Constant(Value::Num(a))),
                Box::new(Exp::Constant(Value::Num(b))),
            );
            &&& eval(e, seq![]) == Some(Value::Bool(a < b))
            &&& run_spec(stage_spec(e, seq![], next).0, cells).0 == Some(Value::Bool(a < b))
        }),
{
    let ca = Exp::Constant(Value::Num(a));
    let cb = Exp::Constant(Value::Num(b));
    let sa = stage_spec(ca, seq![], next);
    let sb = stage_spec(cb, seq![], next + sa.1.len());
    assert(run_spec(sa.0, cells) == (Some(Value::Num(a)), cells));
    assert(run_spec(sb.0, cells) == (Some(Value::Num(b)), cells));
    assert(eval(ca, seq![]) == Some(Value::Num(a)));
    assert(eval(cb, seq![]) == Some(Value::Num(b)));
}

/// The binding stack `env` binds the identifiers of `ctx` in the same order,
/// each to a value of the kind `ctx` gives it.
pub open spec fn bindings_kinded(env: Seq<(u64, Value)>, ctx: Seq<(u64, Kind)>) -> bool {
    &&& env.len() == ctx.len()
    &&& forall|i: int|
        0 <= i < ctx.len() ==> #[trigger] ctx[i].0 == env[i].0 && ctx[i].1 == env[i].1.kind_spec()
}

proof fn lemma_lookup_kinded(env: Seq<(u64, Value)>, ctx: Seq<(u64, Kind)>, id: u64)
    requires
        bindings_kinded(env, ctx),
        lookup(ctx, id) is Some,
    ensures
        lookup(env, id) is Some,
        lookup(ctx, id)->0 == (lookup(env, id)->0).kind_spec(),
    decreases ctx.len(),
{
    let k = ctx.len() - 1;
    assert(ctx[k].0 == env[k].0);
    if ctx.last().0 != id {
        assert(bindings_kinded(env.drop_last(), ctx.drop_last())) by {
            assert forall|i: int| 0 <= i < ctx.drop_last().len() implies #[trigger] ctx.drop_last()[i].0
                == env.drop_last()[i].0 && ctx.drop_last()[i].1 == env.drop_last()[i].1.kind_spec() by {
                assert(ctx[i].0 == env[i].0);
            }
        }
        lemma_lookup_kinded(env.drop_last(), ctx.drop_last(), id);
    }
}

/// Under bindings of the kinds `ctx` gives, a well-kinded expression whose
/// variable references agree with their bindings evaluates, when it
/// evaluates at all, to a value of the kind `kind_of` gives it.
pub proof fn lemma_eval_kind_in(e: Exp, env: Seq<(u64, Value)>, ctx: Seq<(u64, Kind)>)
    requires
        kind_of(e) is Some,
        refs_kinded(e, ctx),
        bindings_kinded(env, ctx),
        eval(e, env) is Some,
    ensures
        kind_of(e) == Some((eval(e, env)->0).kind_spec()),
    decreases e,
{
    match e {
        Exp::Constant(_) => {},
        Exp::Variable(x) => {
            lemma_lookup_kinded(env, ctx, x.id);
        },
        Exp::Addition(a, b) | Exp::LessThan(a, b) => {
            lemma_eval_kind_in(*a, env, ctx);
            lemma_eval_kind_in(*b, env, ctx);
        },
        Exp::Let(a, x, body) => {
            lemma_eval_kind_in(*a, env, ctx);
            let v = eval(*a, env)->0;
            let env2 = env.push((x.id, v));
            let ctx2 = ctx.push((x.id, x.kind));
            assert(bindings_kinded(env2, ctx2)) by {
                assert forall|i: int| 0 <= i < ctx2.len() implies #[trigger] ctx2[i].0 == env2[i].0
                    && ctx2[i].1 == env2[i].1.kind_spec() by {
                    if i < ctx.len() {
                        assert(ctx[i].0 == env[i].0);
                    }
                }
            }
            lemma_eval_kind_in(*body, env2, ctx2);
        },
    }
}

/// Interpreting a closed, well-kinded expression whose variable references
/// carry the kinds of their bindings gives, when it gives a value, a value
/// of the expression's kind; so does running its staged tree.
pub proof fn lemma_interpret_kind(e: Exp, next: nat, cells: Seq<Value>)
    requires
        kind_of(e) is Some,
        refs_kinded(e, seq![]),
        e.closed_spec(),
        next + stage_spec(e, seq![], next).1.len() <= cells.len(),
        cells.len() <= usize::MAX,
    ensures
        eval(e, seq![]) matches Some(v) ==> kind_of(e) == Some(v.kind_spec()),
        run_spec(stage_spec(e, seq![], next).0, cells).0 matches Some(v) ==> kind_of(e) == Some(
            v.kind_spec(),
        ),
{
    if eval(e, seq![]) is Some {
        lemma_eval_kind_in(e, seq![], seq![]);
    }
    lemma_stage_run_agrees(e, next, cells);
}

} // verus!
