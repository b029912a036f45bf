//! Runtime values: the tagged union of exact decimals and strings that
//! flows through the operand stack and the register table, together with
//! the output events the interpreter emits for the surrounding application
//! to print.

use crate::dec::{text_of, Dec, DecV};
use vstd::prelude::*;

verus! {

/// A runtime value: an exact decimal number, or a string, which doubles as
/// executable source text.
#[derive(Debug, PartialEq, Eq)]
pub enum Value {
    Num(Dec),
    Str(Vec<char>),
}

/// Mathematical model of a value.
pub ghost enum ValueV {
    Num(DecV),
    Str(Seq<char>),
}

impl View for Value {
    type V = ValueV;

    open spec fn view(&self) -> ValueV {
        match self {
            Value::Num(d) => ValueV::Num(d@),
            Value::Str(s) => ValueV::Str(s@),
        }
    }
}

impl ValueV {
    /// A well-formed value: a number's decimal representation is in range.
    pub open spec fn wf(self) -> bool {
        match self {
            ValueV::Num(d) => d.wf(),
            ValueV::Str(_) => true,
        }
    }
}

/// Two values denote the same thing: numbers as the same rational, strings
/// as the same character sequence.
pub open spec fn value_v_eq(a: ValueV, b: ValueV) -> bool {
    match (a, b) {
        (ValueV::Num(x), ValueV::Num(y)) => x.same_value(y),
        (ValueV::Str(x), ValueV::Str(y)) => x == y,
        _ => false,
    }
}

/// An output event: the interpreter never prints itself; it records what is
/// to be printed and the surrounding application renders it.
#[derive(Debug)]
pub enum OutEvent {
    /// Print this value.
    Print(Value),
    /// Print the application's help text.
    Help,
}

/// Mathematical model of an output event.
pub ghost enum OutV {
    Print(ValueV),
    Help,
}

impl View for OutEvent {
    type V = OutV;

    open spec fn view(&self) -> OutV {
        match self {
            OutEvent::Print(v) => OutV::Print(v@),
            OutEvent::Help => OutV::Help,
        }
    }
}

/// A well-formed output event.
pub open spec fn out_v_wf(o: OutV) -> bool {
    match o {
        OutV::Print(v) => v.wf(),
        OutV::Help => true,
    }
}

/// An element-wise copy of a character vector.
pub fn copy_chars(v: &Vec<char>) -> (r: Vec<char>)
    ensures
        r@ == v@,
{
    let mut r: Vec<char> = Vec::new();
    let mut i: usize = 0;
    while i < v.len()
        invariant
            0 <= i <= v@.len(),
            r@ == v@.take(i as int),
        decreases v@.len() - i,
    {
        r.push(v[i]);
        proof {
            assert(r@ =~= v@.take(i + 1));
        }
        i += 1;
    }
    proof {
        assert(v@.take(v@.len() as int) =~= v@);
    }
    r
}

/// Whether two character vectors hold the same characters.
pub fn chars_eq(a: &Vec<char>, b: &Vec<char>) -> (r: bool)
    ensures
        r == (a@ == b@),
{
    if a.len() != b.len() {
        proof {
            assert(a@ != b@) by {
                if a@ == b@ {
                    assert(a@.len() == b@.len());
                }
            }
        }
        return false;
    }
    let mut i: usize = 0;
    while i < a.len()
        invariant
            0 <= i <= a@.len(),
            a@.len() == b@.len(),
            forall|j: int| 0 <= j < i ==> a@[j] == b@[j],
        decreases a@.len() - i,
    {
        if a[i] != b[i] {
            proof {
                assert(a@ != b@) by {
                    if a@ == b@ {
                        assert(a@[i as int] == b@[i as int]);
                    }
                }
            }
            return false;
        }
        i += 1;
    }
    proof {
        assert(a@ =~= b@);
    }
    true
}

impl Value {
    /// A copy of this value with the same model.
    pub fn dup(&self) -> (r: Value)
        ensures
            r@ == self@,
    {
        match self {
            Value::Num(d) => Value::Num(*d),
            Value::Str(s) => Value::Str(copy_chars(s)),
        }
    }
}

/// Whether two values denote the same thing; numbers are compared as
/// rationals, not by representation.
pub fn value_eq(a: &Value, b: &Value) -> (r: bool)
    requires
        a@.wf(),
        b@.wf(),
    ensures
        r == value_v_eq(a@, b@),
{
    match (a, b) {
        (Value::Num(x), Value::Num(y)) => crate::dec::dec_eq(*x, *y),
        (Value::Str(x), Value::Str(y)) => chars_eq(x, y),
        _ => false,
    }
}

/// The human-readable rendering of a value: a number as its canonical
/// decimal text, a string bracketed.
pub open spec fn render_of(v: ValueV) -> Seq<char> {
    match v {
        ValueV::Num(d) => text_of(d),
        ValueV::Str(s) => seq!['['] + s + seq![']'],
    }
}

/// Renders a value as text.
pub fn render_value(v: &Value) -> (r: Vec<char>)
    requires
        v@.wf(),
    ensures
        r@ == render_of(v@),
{
    match v {
        Value::Num(d) => crate::dec::dec_text(*d),
        Value::Str(s) => {
            let mut r: Vec<char> = Vec::new();
            r.push('[');
            let mut i: usize = 0;
            while i < s.len()
                invariant
                    0 <= i <= s@.len(),
                    r@ == seq!['['] + s@.take(i as int),
                decreases s@.len() - i,
            {
                r.push(s[i]);
                proof {
                    assert(r@ =~= seq!['['] + s@.take(i + 1));
                }
                i += 1;
            }
            r.push(']');
            proof {
                assert(s@.take(s@.len() as int) =~= s@);
                assert(r@ =~= seq!['['] + s@ + seq![']']);
            }
            r
        },
    }
}

} // verus!
