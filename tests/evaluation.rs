use std::cell::Cell;
use std::rc::Rc;

use staged_eval::{add_exp, less_than_exp, let_exp, unit_exp, var_exp, Cells, Exp, Kind, Scope, Value};

fn num(n: i64) -> Exp {
    unit_exp(Value::Num(n))
}

fn staged_result(e: &Exp) -> Option<Value> {
    let mut cells = Cells::new();
    let s = e.stage(&mut cells);
    s.run(&mut cells)
}

#[test]
fn addition_of_constants() {
    let cases: [(i64, i64); 5] = [(1, 2), (0, 0), (-7, 3), (i64::MAX, 0), (i64::MIN, i64::MAX)];
    for (a, b) in cases {
        let e = add_exp(num(a), num(b));
        assert_eq!(e.interpret(), Some(Value::Num(a + b)));
        assert_eq!(staged_result(&e), Some(Value::Num(a + b)));
    }
}

#[test]
fn addition_overflow_is_none_in_both_modes() {
    let e = add_exp(num(i64::MAX), num(1));
    assert_eq!(e.interpret(), None);
    assert_eq!(staged_result(&e), None);
    let e = add_exp(num(i64::MIN), num(-1));
    assert_eq!(e.interpret(), None);
    assert_eq!(staged_result(&e), None);
}

#[test]
fn less_than_of_constants() {
    let cases: [(i64, i64); 5] = [(1, 2), (2, 1), (3, 3), (-5, 0), (i64::MIN, i64::MAX)];
    for (a, b) in cases {
        let e = less_than_exp(num(a), num(b));
        assert_eq!(e.interpret(), Some(Value::Bool(a < b)));
        assert_eq!(staged_result(&e), Some(Value::Bool(a < b)));
    }
}

#[test]
fn let_binds_value_in_body() {
    let e = let_exp(Scope::top(), num(5), |_s, v| add_exp(var_exp(v), num(3)));
    assert_eq!(e.interpret(), Some(Value::Num(8)));
    assert_eq!(staged_result(&e), Some(Value::Num(8)));
}

#[test]
fn staged_let_reruns_to_same_result() {
    let e = let_exp(Scope::top(), add_exp(num(1), num(2)), |_s, v| add_exp(var_exp(v), num(5)));
    let mut cells = Cells::new();
    let s = e.stage(&mut cells);
    let first = s.run(&mut cells);
    let second = s.run(&mut cells);
    assert_eq!(first, Some(Value::Num(8)));
    assert_eq!(first, second);
    assert_eq!(cells.len(), 1);
}

#[test]
fn binder_is_called_once() {
    let calls = Rc::new(Cell::new(0u32));
    let seen = Rc::clone(&calls);
    let e = let_exp(Scope::top(), num(4), move |_s, v| {
        seen.set(seen.get() + 1);
        add_exp(var_exp(v), var_exp(v))
    });
    assert_eq!(calls.get(), 1);
    let mut cells = Cells::new();
    let s = e.stage(&mut cells);
    for _ in 0..3 {
        assert_eq!(s.run(&mut cells), Some(Value::Num(8)));
    }
    assert_eq!(e.interpret(), Some(Value::Num(8)));
    assert_eq!(calls.get(), 1);
}

#[test]
fn interpret_and_staged_run_agree() {
    let trees: Vec<Exp> = vec![
        num(42),
        add_exp(add_exp(num(1), num(2)), num(3)),
        less_than_exp(add_exp(num(2), num(2)), num(5)),
        let_exp(Scope::top(), num(10), |s, x| {
            let_exp(s, add_exp(var_exp(x), num(-4)), |_s, y| less_than_exp(var_exp(y), var_exp(x)))
        }),
        add_exp(
            let_exp(Scope::top(), num(1), |_s, x| add_exp(var_exp(x), num(1))),
            let_exp(Scope::top(), num(7), |_s, y| add_exp(var_exp(y), var_exp(y))),
        ),
        let_exp(Scope::top(), num(i64::MAX), |_s, x| add_exp(var_exp(x), num(1))),
    ];
    for e in &trees {
        assert_eq!(e.interpret(), staged_result(e));
    }
    assert_eq!(trees[3].interpret(), Some(Value::Bool(true)));
    assert_eq!(trees[4].interpret(), Some(Value::Num(16)));
    assert_eq!(trees[5].interpret(), None);
}

#[test]
fn nested_let_sees_outer_binding() {
    let e = let_exp(Scope::top(), num(1), |s, x| {
        let_exp(s, add_exp(var_exp(x), num(1)), move |_s, y| add_exp(var_exp(x), var_exp(y)))
    });
    assert_eq!(e.interpret(), Some(Value::Num(3)));
    assert_eq!(staged_result(&e), Some(Value::Num(3)));
}

#[test]
fn nested_binders_get_distinct_identifiers() {
    let e = let_exp(Scope::top(), num(1), |s, x| {
        assert_eq!(x.id, 0);
        assert_eq!(s.depth, 1);
        let_exp(s, num(2), move |_s, y| {
            assert_eq!(y.id, 1);
            assert_eq!(y.kind, Kind::Num);
            add_exp(var_exp(x), var_exp(y))
        })
    });
    assert_eq!(e.interpret(), Some(Value::Num(3)));
}

#[test]
fn staging_allocates_one_default_cell_per_let() {
    let e = let_exp(Scope::top(), num(1), |s, x| {
        let_exp(s, less_than_exp(var_exp(x), num(2)), |_s, b| var_exp(b))
    });
    let mut cells = Cells::new();
    let s = e.stage(&mut cells);
    assert_eq!(cells.len(), 2);
    assert_eq!(cells.read(0), Value::Num(0));
    assert_eq!(cells.read(1), Value::Bool(false));
    assert_eq!(s.run(&mut cells), Some(Value::Bool(true)));
    assert_eq!(cells.read(0), Value::Num(1));
    assert_eq!(cells.read(1), Value::Bool(true));
    assert_eq!(cells.len(), 2);
}

#[test]
fn mismatched_kinds_give_none() {
    let e = Exp::Addition(Box::new(unit_exp(Value::Bool(true))), Box::new(num(1)));
    assert_eq!(e.kind(), None);
    assert_eq!(e.interpret(), None);
    assert_eq!(staged_result(&e), None);
    let e = Exp::LessThan(Box::new(num(1)), Box::new(unit_exp(Value::Bool(false))));
    assert_eq!(e.interpret(), None);
    assert_eq!(staged_result(&e), None);
}

#[test]
fn kinds_of_expressions() {
    assert_eq!(num(1).kind(), Some(Kind::Num));
    assert_eq!(less_than_exp(num(1), num(2)).kind(), Some(Kind::Bool));
    let e = let_exp(Scope::top(), less_than_exp(num(1), num(2)), |_s, b| var_exp(b));
    assert_eq!(e.kind(), Some(Kind::Bool));
    assert_eq!(e.interpret(), Some(Value::Bool(true)));
}

#[test]
fn closedness() {
    let stray = staged_eval::VarRef { id: 9, kind: Kind::Num };
    assert!(!var_exp(stray).is_closed());
    assert!(!add_exp(num(1), var_exp(stray)).is_closed());
    assert_eq!(var_exp(stray).interpret(), None);
    let e = let_exp(Scope::top(), num(5), |_s, v| add_exp(var_exp(v), num(3)));
    assert!(e.is_closed());
    assert!(num(3).is_closed());
}

#[test]
fn cells_read_and_replace() {
    let mut cells = Cells::new();
    assert_eq!(cells.len(), 0);
    let a = cells.fresh(Kind::Num);
    let b = cells.fresh_with(Value::Bool(true));
    let c = cells.fresh(Kind::Bool);
    assert_eq!((a, b, c), (0, 1, 2));
    assert_eq!(cells.read(a), Value::Num(0));
    assert_eq!(cells.read(b), Value::Bool(true));
    assert_eq!(cells.read(c), Value::Bool(false));
    assert_eq!(cells.replace(a, Value::Num(17)), Value::Num(0));
    assert_eq!(cells.read(a), Value::Num(17));
    assert_eq!(cells.len(), 3);
}

#[test]
fn value_accessors() {
    assert_eq!(Value::Num(-3).as_num(), Some(-3));
    assert_eq!(Value::Num(-3).as_bool(), None);
    assert_eq!(Value::Bool(true).as_bool(), Some(true));
    assert_eq!(Value::Bool(true).as_num(), None);
    assert_eq!(Value::Bool(false).kind(), Kind::Bool);
    assert_eq!(Value::default_of(Kind::Num), Value::Num(0));
    assert_eq!(Value::default_of(Kind::Bool), Value::Bool(false));
}

#[test]
fn staging_twice_gives_separate_cells() {
    let e = let_exp(Scope::top(), num(2), |_s, v| add_exp(var_exp(v), num(1)));
    let mut cells = Cells::new();
    let s1 = e.stage(&mut cells);
    let s2 = e.stage(&mut cells);
    assert_eq!(cells.len(), 2);
    assert_eq!(s1.run(&mut cells), Some(Value::Num(3)));
    assert_eq!(s2.run(&mut cells), Some(Value::Num(3)));
    assert_eq!(cells.read(0), Value::Num(2));
    assert_eq!(cells.read(1), Value::Num(2));
}
