use vstd::prelude::*;

verus! {

/// The kind of value an expression produces.
#[derive(Clone, Copy, Debug, PartialEq, Eq, Structural)]
pub enum Kind {
    Num,
    Bool,
}

/// A value of the language: a signed integer or a truth value.
#[derive(Clone, Copy, Debug, PartialEq, Eq, Structural)]
pub enum Value {
    Num(i64),
    Bool(bool),
}

impl Value {
    pub open spec fn kind_spec(self) -> Kind {
        match self {
            Value::Num(_) => Kind::Num,
            Value::Bool(_) => Kind::Bool,
        }
    }

    /// The kind of this value.
    pub fn kind(&self) -> (r: Kind)
        ensures
            r == self.kind_spec(),
    {
        match self {
            Value::Num(_) => Kind::Num,
            Value::Bool(_) => Kind::Bool,
        }
    }

    /// The integer of a numeric value.
    pub fn as_num(&self) -> (r: Option<i64>)
        ensures
            r == (match *self {
                Value::Num(n) => Some(n),
                Value::Bool(_) => None::<i64>,
            }),
    {
        match self {
            Value::Num(n) => Some(*n),
            Value::Bool(_) => None,
        }
    }

    /// The truth value of a boolean value.
    pub fn as_bool(&self) -> (r: Option<bool>)
        ensures
            r == (match *self {
                Value::Bool(b) => Some(b),
                Value::Num(_) => None::<bool>,
            }),
    {
        match self {
            Value::Bool(b) => Some(*b),
            Value::Num(_) => None,
        }
    }

    /// The value a fresh cell of the given kind holds: zero or false.
    pub open spec fn default_spec(k: Kind) -> Value {
        match k {
            Kind::Num => Value::Num(0),
            Kind::Bool => Value::Bool(false),
        }
    }

    pub fn default_of(k: Kind) -> (r: Value)
        ensures
            r == Value::default_spec(k),
    {
        match k {
            Kind::Num => Value::Num(0),
            Kind::Bool => Value::Bool(false),
        }
    }
}

/// Sum of two numeric values; `None` when an operand is not numeric or the
/// sum leaves the range of `i64`.
pub open spec fn add_spec(a: Value, b: Value) -> Option<Value> {
    match (a, b) {
        (Value::Num(x), Value::Num(y)) => if i64::MIN <= x + y <= i64::MAX {
            Some(Value::Num((x + y) as i64))
        } else {
            None
        },
        _ => None,
    }
}

/// Strict ordering test of two numeric values; `None` when an operand is not
/// numeric.
pub open spec fn less_spec(a: Value, b: Value) -> Option<Value> {
    match (a, b) {
        (Value::Num(x), Value::Num(y)) => Some(Value::Bool(x < y)),
        _ => None,
    }
}

pub fn add_values(a: Value, b: Value) -> (r: Option<Value>)
    ensures
        r == add_spec(a, b),
{
    match (a, b) {
        (Value::Num(x), Value::Num(y)) => match x.checked_add(y) {
            Some(s) => Some(Value::Num(s)),
            None => None,
        },
        _ => None,
    }
}

pub fn less_values(a: Value, b: Value) -> (r: Option<Value>)
    ensures
        r == less_spec(a, b),
{
    match (a, b) {
        (Value::Num(x), Value::Num(y)) => Some(Value::Bool(x < y)),
        _ => None,
    }
}

} // verus!
