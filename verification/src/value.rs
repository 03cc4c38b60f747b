//! Runtime values of the language.
//!
//! A value is a number (the 64-bit pattern of an IEEE-754 double, see
//! [`crate::num`]), a boolean, an immutable string, a compiled function, or a
//! built-in function.  Compiled functions are shared by reference-counted
//! handle; each carries the identifier the compiler stamped on it, so that
//! equality of function values is equality of the function object.

use vstd::prelude::*;

use crate::chunk::Chunk;
use crate::num::num_is_zero;
use crate::num::num_zero_test;
use std::rc::Rc;

verus! {

/// A compiled unit: a name (or `"<script>"` for the top level), an arity,
/// and the chunk holding its code.  `id` is distinct for every function the
/// compiler emits within one compilation, so that two function values are
/// the same function exactly when their ids agree.
pub struct Function {
    pub arity: usize,
    pub chunk: Chunk,
    pub name: String,
    pub id: u64,
}

impl Function {
    /// An empty function: no code yet, id not yet stamped.
    pub fn new(name: String, arity: usize) -> (f: Function)
        ensures
            f.name == name,
            f.arity == arity,
            f.id == 0,
            f.chunk.code@ =~= Seq::<u8>::empty(),
            f.chunk.constants@ =~= Seq::<Value>::empty(),
            f.chunk.line_info.info@ =~= Seq::<(usize, usize)>::empty(),
    {
        Function { arity, name, id: 0, chunk: Chunk::new() }
    }
}

/// What a built-in function does.  The only built-in is `clock`.
#[derive(Clone, Copy, PartialEq, Eq, Structural, Debug)]
pub enum NativeFunctionImpl {
    NativeClock,
}

/// A built-in function: a name, an arity, and which built-in it is.  The
/// work itself (reading the clock) is performed by the embedder when the
/// virtual machine requests it.
pub struct NativeFunction {
    pub arity: usize,
    pub name: String,
    pub implementation: NativeFunctionImpl,
}

/// The built-in `clock`: arity 0, returns a number of seconds.
pub fn get_clock_native_func() -> (f: NativeFunction)
    ensures
        f.arity == 0,
        f.name@ == "clock"@,
        f.implementation == NativeFunctionImpl::NativeClock,
{
    NativeFunction {
        arity: 0,
        name: String::from_str("clock"),
        implementation: NativeFunctionImpl::NativeClock,
    }
}

/// A runtime value.
pub enum Value {
    Number(u64),
    Boolean(bool),
    Str(String),
    Function(Rc<Function>),
    NativeFunction(NativeFunction),
}

/// Equality as the language's `==` sees it: structural within a variant,
/// false across variants.  Numbers compare by their bit pattern, except
/// that the two zero patterns are the same value; strings compare by
/// their characters, functions by identity (their id), built-ins by what
/// they are.
pub open spec fn value_eq(a: Value, b: Value) -> bool {
    match (a, b) {
        (Value::Number(x), Value::Number(y)) => x == y || (num_is_zero(x) && num_is_zero(y)),
        (Value::Boolean(x), Value::Boolean(y)) => x == y,
        (Value::Str(x), Value::Str(y)) => x@ == y@,
        (Value::Function(f), Value::Function(g)) => f.id == g.id,
        (Value::NativeFunction(f), Value::NativeFunction(g)) => f.name@ == g.name@
            && f.arity == g.arity && f.implementation == g.implementation,
        _ => false,
    }
}

/// Truthiness: a number is falsey exactly when it is zero, a boolean is its
/// own truth, a string is falsey exactly when empty, functions and built-ins
/// are always truthy.
pub open spec fn spec_is_falsey(v: Value) -> bool {
    match v {
        Value::Number(b) => num_is_zero(b),
        Value::Boolean(x) => !x,
        Value::Str(s) => s@.len() == 0,
        Value::Function(_) => false,
        Value::NativeFunction(_) => false,
    }
}

/// Relies on `Rc::clone`: the returned handle refers to the same value.
#[verifier::external_body]
pub(crate) fn rc_clone<T>(rc: &Rc<T>) -> (r: Rc<T>)
    ensures
        r == *rc,
{
    Rc::clone(rc)
}

impl Value {
    /// Decides the language's `==` on two values.
    pub fn equals(&self, other: &Value) -> (r: bool)
        ensures
            r == value_eq(*self, *other),
    {
        match self {
            Value::Number(x) => match other {
                Value::Number(y) => *x == *y || (num_zero_test(*x) && num_zero_test(*y)),
                _ => false,
            },
            Value::Boolean(x) => match other {
                Value::Boolean(y) => *x == *y,
                _ => false,
            },
            Value::Str(x) => match other {
                Value::Str(y) => *x == *y,
                _ => false,
            },
            Value::Function(f) => match other {
                Value::Function(g) => f.id == g.id,
                _ => false,
            },
            Value::NativeFunction(f) => match other {
                Value::NativeFunction(g) => f.name == g.name && f.arity == g.arity
                    && f.implementation == g.implementation,
                _ => false,
            },
        }
    }

    pub fn is_falsey(&self) -> (r: bool)
        ensures
            r == spec_is_falsey(*self),
    {
        match self {
            Value::Number(b) => num_zero_test(*b),
            Value::Boolean(x) => !*x,
            Value::Str(s) => s.as_str().is_empty(),
            Value::Function(_) => false,
            Value::NativeFunction(_) => false,
        }
    }

    pub fn is_truthy(&self) -> (r: bool)
        ensures
            r == !spec_is_falsey(*self),
    {
        !self.is_falsey()
    }

    /// A copy of this value; function payloads are shared, not deep-copied.
    pub fn duplicate(&self) -> (r: Value)
        ensures
            r == *self,
    {
        match self {
            Value::Number(b) => Value::Number(*b),
            Value::Boolean(x) => Value::Boolean(*x),
            Value::Str(s) => Value::Str(s.clone()),
            Value::Function(rc) => Value::Function(rc_clone(rc)),
            Value::NativeFunction(nf) => Value::NativeFunction(NativeFunction {
                arity: nf.arity,
                name: nf.name.clone(),
                implementation: nf.implementation,
            }),
        }
    }
}

/// The language's `==` holds of every value and itself.
pub proof fn lemma_value_eq_reflexive(v: Value)
    ensures
        value_eq(v, v),
{
}

/// The language's `==` does not depend on the order of its operands.
pub proof fn lemma_value_eq_symmetric(a: Value, b: Value)
    ensures
        value_eq(a, b) == value_eq(b, a),
{
}

} // verus!
