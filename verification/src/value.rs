//! The run-time value model. Numbers are IEEE-754 binary64 values carried as
//! raw bit patterns (see `numerics`); strings are immutable byte strings;
//! functions and natives are named by their index in the program's function
//! and native tables, which makes equality on them the identity comparison.

use vstd::prelude::*;

use crate::numerics::double_eq;

verus! {

/// A value the virtual machine can hold.
#[derive(Debug, PartialEq)]
pub enum Value {
    Bool(bool),
    /// The bits of an IEEE-754 binary64 number.
    Number(u64),
    Null,
    /// An immutable string, by content.
    String(Vec<u8>),
    /// A user function, by index into the program's function table.
    Func(u32),
    /// A native function, by index into the installed natives.
    NativeFunc(u32),
}

/// The mathematical shape of a `Value`.
pub enum ValueV {
    Bool(bool),
    Number(u64),
    Null,
    Str(Seq<u8>),
    Func(int),
    Native(int),
}

impl View for Value {
    type V = ValueV;

    open spec fn view(&self) -> ValueV {
        match self {
            Value::Bool(b) => ValueV::Bool(*b),
            Value::Number(n) => ValueV::Number(*n),
            Value::Null => ValueV::Null,
            Value::String(s) => ValueV::Str(s@),
            Value::Func(i) => ValueV::Func(*i as int),
            Value::NativeFunc(i) => ValueV::Native(*i as int),
        }
    }
}

impl Clone for Value {
    fn clone(&self) -> (res: Self)
        ensures
            res@ == self@,
    {
        match self {
            Value::Bool(b) => Value::Bool(*b),
            Value::Number(n) => Value::Number(*n),
            Value::Null => Value::Null,
            Value::String(s) => Value::String(clone_bytes(s)),
            Value::Func(i) => Value::Func(*i),
            Value::NativeFunc(i) => Value::NativeFunc(*i),
        }
    }
}

/// A byte-for-byte copy.
pub fn clone_bytes(v: &Vec<u8>) -> (res: Vec<u8>)
    ensures
        res@ == v@,
{
    let mut out: Vec<u8> = Vec::new();
    let mut i: usize = 0;
    while i < v.len()
        invariant
            i <= v@.len(),
            out@ =~= v@.subrange(0, i as int),
        decreases v@.len() - i,
    {
        out.push(v[i]);
        proof {
            assert(out@ =~= v@.subrange(0, i + 1));
        }
        i = i + 1;
    }
    proof {
        assert(out@ =~= v@);
    }
    out
}

/// Whether two byte strings hold the same bytes.
pub fn bytes_equal(a: &Vec<u8>, b: &Vec<u8>) -> (r: bool)
    ensures
        r == (a@ == b@),
{
    if a.len() != b.len() {
        proof {
            assert(a@.len() != b@.len());
        }
        return false;
    }
    let mut i: usize = 0;
    while i < a.len()
        invariant
            a@.len() == b@.len(),
            i <= a@.len(),
            forall|j: int| 0 <= j < i ==> a@[j] == b@[j],
        decreases a@.len() - i,
    {
        if a[i] != b[i] {
            return false;
        }
        i = i + 1;
    }
    proof {
        assert(a@ =~= b@);
    }
    true
}

/// Equality as the language defines it: structural for the primitives, by
/// content for strings (IEEE equality for numbers: `-0 == +0`, NaN equals
/// nothing), and by identity for functions and natives.
pub open spec fn spec_values_equal(a: ValueV, b: ValueV) -> bool {
    match (a, b) {
        (ValueV::Bool(x), ValueV::Bool(y)) => x == y,
        (ValueV::Number(x), ValueV::Number(y)) => double_eq(x, y),
        (ValueV::Null, ValueV::Null) => true,
        (ValueV::Str(x), ValueV::Str(y)) => x == y,
        (ValueV::Func(x), ValueV::Func(y)) => x == y,
        (ValueV::Native(x), ValueV::Native(y)) => x == y,
        _ => false,
    }
}

pub fn values_equal(a: &Value, b: &Value) -> (r: bool)
    ensures
        r == spec_values_equal(a@, b@),
{
    match (a, b) {
        (Value::Bool(x), Value::Bool(y)) => *x == *y,
        (Value::Number(x), Value::Number(y)) => crate::numerics::num_eq(*x, *y),
        (Value::Null, Value::Null) => true,
        (Value::String(x), Value::String(y)) => bytes_equal(x, y),
        (Value::Func(x), Value::Func(y)) => *x == *y,
        (Value::NativeFunc(x), Value::NativeFunc(y)) => *x == *y,
        _ => false,
    }
}

/// Only `null` and `false` are falsey; every other value, `0` included, is
/// truthy.
pub open spec fn spec_is_falsey(v: ValueV) -> bool {
    v == ValueV::Null || v == ValueV::Bool(false)
}

pub fn is_falsey(v: &Value) -> (r: bool)
    ensures
        r == spec_is_falsey(v@),
{
    match v {
        Value::Null => true,
        Value::Bool(b) => !*b,
        _ => false,
    }
}

/// A user function: its name, how many parameters it takes, and its code.
#[derive(Debug, PartialEq)]
pub struct Function {
    pub name: Vec<u8>,
    pub arity: u8,
    pub chunk: crate::chunk::Chunk,
}

/// The mathematical shape of a `Function`.
pub struct FunctionV {
    pub name: Seq<u8>,
    pub arity: u8,
    pub chunk: crate::chunk::ChunkV,
}

impl View for Function {
    type V = FunctionV;

    open spec fn view(&self) -> FunctionV {
        FunctionV { name: self.name@, arity: self.arity, chunk: self.chunk@ }
    }
}

/// A host-provided function: its name and arity. The callable itself lives
/// with the host; the machine pauses when one is called (see `vm`).
#[derive(Debug, PartialEq)]
pub struct NativeFunction {
    pub name: Vec<u8>,
    pub arity: u8,
}

/// The mathematical shape of a `NativeFunction`.
pub struct NativeFunctionV {
    pub name: Seq<u8>,
    pub arity: u8,
}

impl View for NativeFunction {
    type V = NativeFunctionV;

    open spec fn view(&self) -> NativeFunctionV {
        NativeFunctionV { name: self.name@, arity: self.arity }
    }
}

impl Clone for NativeFunction {
    fn clone(&self) -> (res: Self)
        ensures
            res@ == self@,
    {
        NativeFunction { name: clone_bytes(&self.name), arity: self.arity }
    }
}

} // verus!
