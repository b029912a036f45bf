//! The executable evaluator: a character-driven walk that tokenizes and
//! executes at once, proved to leave the state exactly as the
//! specification interpreter in `sem` says.

use crate::dec::{dec_add, dec_div, dec_lt, dec_mul, dec_pow, dec_rem, dec_sqrt, dec_sub, Dec,
    MANTISSA_LIMIT, MAX_SCALE};
use crate::regs::Registers;
use crate::sem::{digit_val, fresh_scratch_v, spec_command_char, spec_command_named, spec_decimal,
    spec_eval, spec_finish_num, spec_integer, spec_register_char, spec_register_str, spec_step,
    spec_string, binop_of, EvalError, EvalState, Mode, RegOp, Scratch, ScratchV, Signal, StateV,
    MAX_DEPTH};
use crate::value::{OutEvent, Value};
use vstd::prelude::*;
use vstd::string::StrSliceExecFns;

verus! {

impl EvalState {
    /// A state with an empty stack, no recorded output, the default mode,
    /// and a caller-supplied (possibly pre-seeded) register table.
    pub fn new(regs: Registers) -> (r: EvalState)
        ensures
            r@ == (StateV {
                stack: Seq::empty(),
                regs: regs@,
                out: Seq::empty(),
                scratch: fresh_scratch_v(),
            }),
            crate::regs::regs_v_wf(regs@) ==> r@.wf(),
    {
        let r = EvalState { stack: Vec::new(), regs, out: Vec::new(), scratch: Scratch::fresh() };
        proof {
            assert(r@ =~~= (StateV {
                stack: Seq::empty(),
                regs: r.regs@,
                out: Seq::empty(),
                scratch: fresh_scratch_v(),
            }));
        }
        r
    }
}

/// The characters of a string slice, in order.
pub fn str_to_chars(s: &str) -> (r: Vec<char>)
    ensures
        r@ == s@,
{
    let n = s.unicode_len();
    let mut r: Vec<char> = Vec::new();
    let mut i: usize = 0;
    while i < n
        invariant
            n == s@.len(),
            0 <= i <= n,
            r@ == s@.take(i as int),
        decreases n - i,
    {
        r.push(s.get_char(i));
        proof {
            assert(r@ =~= s@.take(i + 1));
        }
        i += 1;
    }
    proof {
        assert(s@.take(n as int) =~= s@);
    }
    r
}

/// The numeric value of a digit character, or `-1` for any other
/// character.
fn digit_value(c: char) -> (r: i32)
    ensures
        r as int == digit_val(c),
{
    match c {
        '0' => 0,
        '1' => 1,
        '2' => 2,
        '3' => 3,
        '4' => 4,
        '5' => 5,
        '6' => 6,
        '7' => 7,
        '8' => 8,
        '9' => 9,
        _ => -1,
    }
}

/// Dispatches one command character.
fn command_char(c: char, state: &mut EvalState, depth: u32) -> (r: Result<(), Signal>)
    requires
        old(state)@.wf(),
    ensures
        ({
            let s = spec_command_char(c, old(state)@, depth as nat);
            final(state)@ == s.st && r == s.r && final(state)@.wf()
        }),
    decreases depth as int, 0int, 1int,
{
    let ghost s = spec_command_char(c, old(state)@, depth as nat);
    let d = digit_value(c);
    if d >= 0 {
        state.scratch.mode = Mode::Integer;
        state.scratch.num = d as i128;
        state.scratch.frac = 0;
        proof {
            assert(state@ =~~= s.st);
        }
        Ok(())
    } else if c == '_' {
        state.scratch.mode = Mode::Integer;
        state.scratch.num = 0;
        state.scratch.frac = 0;
        state.scratch.neg = true;
        proof {
            assert(state@ =~~= s.st);
        }
        Ok(())
    } else if c == ' ' {
        Ok(())
    } else if c == '(' {
        state.scratch.mode = Mode::CommandNamed;
        state.scratch.wip = Vec::new();
        state.scratch.esc = false;
        proof {
            assert(state@ =~~= s.st);
        }
        Ok(())
    } else if c == '[' {
        state.scratch.mode = Mode::Str;
        state.scratch.wip = Vec::new();
        state.scratch.esc = false;
        proof {
            assert(state@ =~~= s.st);
        }
        Ok(())
    } else if c == '?' {
        state.out.push(OutEvent::Help);
        proof {
            assert(state@.out =~= old(state)@.out.push(crate::value::OutV::Help));
            assert(state@ =~~= s.st);
        }
        Ok(())
    } else if c == '!' {
        if state.stack.len() == 0 {
            return Err(Signal::Error(EvalError::Underflow));
        }
        proof {
            assert(old(state)@.stack.last().wf());
        }
        let top = state.stack.pop().unwrap();
        proof {
            assert(state@.stack =~= old(state)@.stack.drop_last());
            assert(state@ =~~= (StateV { stack: old(state)@.stack.drop_last(), ..old(state)@ }));
        }
        match top {
            Value::Str(_) => Err(Signal::Error(EvalError::Type)),
            Value::Num(dv) => {
                let len = state.stack.len();
                let ld = Dec { m: len as i128, s: 0 };
                if dec_lt(ld, dv) {
                    Err(Signal::Error(EvalError::Underflow))
                } else {
                    Ok(())
                }
            },
        }
    } else if c == 'q' {
        Err(Signal::Terminate)
    } else if c == 'c' {
        state.stack.clear();
        proof {
            assert(state@.stack =~= Seq::<crate::value::ValueV>::empty());
            assert(state@ =~~= s.st);
        }
        Ok(())
    } else if c == 'l' {
        state.scratch.mode = Mode::RegisterChar;
        state.scratch.reg_op = RegOp::Load;
        proof {
            assert(state@ =~~= s.st);
        }
        Ok(())
    } else if c == 's' {
        state.scratch.mode = Mode::RegisterChar;
        state.scratch.reg_op = RegOp::Store;
        proof {
            assert(state@ =~~= s.st);
        }
        Ok(())
    } else if c == 'x' {
        if state.stack.len() == 0 {
            return Err(Signal::Error(EvalError::Underflow));
        }
        let top = state.stack.pop().unwrap();
        proof {
            assert(state@.stack =~= old(state)@.stack.drop_last());
            assert(state@ =~~= (StateV { stack: old(state)@.stack.drop_last(), ..old(state)@ }));
        }
        match top {
            Value::Num(_) => Err(Signal::Error(EvalError::Type)),
            Value::Str(body) => {
                if depth == 0 {
                    return Err(Signal::Error(EvalError::DepthLimit));
                }
                let ghost rest = state@;
                state.scratch = Scratch::fresh();
                proof {
                    assert(state@ =~~= (StateV { scratch: fresh_scratch_v(), ..rest }));
                }
                let r = eval_seq(&body, state, depth - 1);
                let ghost inner = spec_eval(body@, StateV { scratch: fresh_scratch_v(), ..rest },
                    (depth - 1) as nat);
                state.scratch = Scratch::fresh();
                proof {
                    assert(state@ =~~= (StateV { scratch: fresh_scratch_v(), ..inner.st }));
                    assert(state@ =~~= s.st);
                }
                r
            },
        }
    } else if c == 'd' {
        if state.stack.len() == 0 {
            return Err(Signal::Error(EvalError::Underflow));
        }
        let n = state.stack.len();
        let top = state.stack[n - 1].dup();
        state.stack.push(top);
        proof {
            assert(state@.stack =~= old(state)@.stack.push(old(state)@.stack.last()));
            assert(state@ =~~= s.st);
        }
        Ok(())
    } else if c == ',' {
        if state.stack.len() == 0 {
            return Err(Signal::Error(EvalError::Underflow));
        }
        let _ = state.stack.pop();
        proof {
            assert(state@.stack =~= old(state)@.stack.drop_last());
            assert(state@ =~~= s.st);
        }
        Ok(())
    } else if c == 'v' {
        if state.stack.len() == 0 {
            return Err(Signal::Error(EvalError::Underflow));
        }
        proof {
            assert(old(state)@.stack.last().wf());
        }
        let top = state.stack.pop().unwrap();
        proof {
            assert(state@.stack =~= old(state)@.stack.drop_last());
            assert(state@ =~~= (StateV { stack: old(state)@.stack.drop_last(), ..old(state)@ }));
        }
        match top {
            Value::Str(_) => Err(Signal::Error(EvalError::Type)),
            Value::Num(dv) => {
                if dv.m < 0 {
                    Err(Signal::Error(EvalError::Domain))
                } else {
                    let rt = dec_sqrt(dv).unwrap();
                    state.stack.push(Value::Num(rt));
                    proof {
                        assert(state@.stack =~= old(state)@.stack.drop_last().push(
                            crate::value::ValueV::Num(crate::dec::sqrt_of(dv@))));
                        assert(state@ =~~= s.st);
                    }
                    Ok(())
                }
            },
        }
    } else if c == 'p' {
        if state.stack.len() == 0 {
            return Err(Signal::Error(EvalError::Underflow));
        }
        let n = state.stack.len();
        let top = state.stack[n - 1].dup();
        state.out.push(OutEvent::Print(top));
        proof {
            assert(state@.out =~= old(state)@.out.push(crate::value::OutV::Print(
                old(state)@.stack.last())));
            assert(state@ =~~= s.st);
        }
        Ok(())
    } else if c == 'n' {
        if state.stack.len() == 0 {
            return Err(Signal::Error(EvalError::Underflow));
        }
        let top = state.stack.pop().unwrap();
        state.out.push(OutEvent::Print(top));
        proof {
            assert(state@.stack =~= old(state)@.stack.drop_last());
            assert(state@.out =~= old(state)@.out.push(crate::value::OutV::Print(
                old(state)@.stack.last())));
            assert(state@ =~~= s.st);
        }
        Ok(())
    } else if c == '+' || c == '-' || c == '*' || c == '/' || c == '%' || c == '^' {
        let n = state.stack.len();
        if n < 2 {
            return Err(Signal::Error(EvalError::Underflow));
        }
        proof {
            assert(old(state)@.stack.last().wf());
            assert(old(state)@.stack.drop_last().last().wf());
            assert(old(state)@.stack.drop_last().last() == old(state)@.stack[n - 2]);
        }
        let bx: Option<Dec> = match &state.stack[n - 2] {
            Value::Num(d) => Some(*d),
            Value::Str(_) => None,
        };
        let ax: Option<Dec> = match &state.stack[n - 1] {
            Value::Num(d) => Some(*d),
            Value::Str(_) => None,
        };
        match (bx, ax) {
            (Some(x), Some(y)) => {
                let res = if c == '+' {
                    dec_add(x, y)
                } else if c == '-' {
                    dec_sub(x, y)
                } else if c == '*' {
                    dec_mul(x, y)
                } else if c == '/' {
                    dec_div(x, y)
                } else if c == '%' {
                    dec_rem(x, y)
                } else {
                    dec_pow(x, y)
                };
                proof {
                    assert(res is Some <==> binop_of(c, x@, y@) is Some);
                }
                match res {
                    Some(v) => {
                        let _ = state.stack.pop();
                        let _ = state.stack.pop();
                        state.stack.push(Value::Num(v));
                        proof {
                            assert(state@.stack =~= old(state)@.stack.drop_last().drop_last().push(
                                crate::value::ValueV::Num(v@)));
                            assert(state@ =~~= s.st);
                        }
                        Ok(())
                    },
                    None => Err(Signal::Error(EvalError::Domain)),
                }
            },
            _ => Err(Signal::Error(EvalError::Type)),
        }
    } else {
        Err(Signal::Error(EvalError::UnknownCommand))
    }
}

/// Collects a parenthesized command name and, on close, expands the named
/// macro by a nested evaluation.
fn command_named(c: char, state: &mut EvalState, depth: u32) -> (r: Result<(), Signal>)
    requires
        old(state)@.wf(),
    ensures
        ({
            let s = spec_command_named(c, old(state)@, depth as nat);
            final(state)@ == s.st && r == s.r && final(state)@.wf()
        }),
    decreases depth as int, 0int, 1int,
{
    let ghost s = spec_command_named(c, old(state)@, depth as nat);
    if c != ')' {
        state.scratch.wip.push(c);
        proof {
            assert(state@ =~~= s.st);
        }
        Ok(())
    } else {
        let looked: Option<Value> = match state.regs.get(&state.scratch.wip) {
            Some(v) => Some(v.dup()),
            None => None,
        };
        match looked {
            Some(Value::Str(body)) => {
                state.scratch = Scratch::fresh();
                let ghost ready = StateV { scratch: fresh_scratch_v(), ..old(state)@ };
                proof {
                    assert(state@ =~~= ready);
                }
                if depth == 0 {
                    return Err(Signal::Error(EvalError::DepthLimit));
                }
                let r = eval_seq(&body, state, depth - 1);
                let ghost inner = spec_eval(body@, StateV { scratch: fresh_scratch_v(), ..ready },
                    (depth - 1) as nat);
                state.scratch = Scratch::fresh();
                proof {
                    assert(StateV { scratch: fresh_scratch_v(), ..ready } =~~= ready);
                    assert(state@ =~~= (StateV { scratch: fresh_scratch_v(), ..inner.st }));
                    assert(state@ =~~= s.st);
                }
                r
            },
            Some(Value::Num(_)) => Err(Signal::Error(EvalError::UnknownName)),
            None => Err(Signal::Error(EvalError::UnknownName)),
        }
    }
}

/// Finalizes the pending number and re-dispatches `c` as a command.
fn finish_num(c: char, state: &mut EvalState, depth: u32) -> (r: Result<(), Signal>)
    requires
        old(state)@.wf(),
    ensures
        ({
            let s = spec_finish_num(c, old(state)@, depth as nat);
            final(state)@ == s.st && r == s.r && final(state)@.wf()
        }),
    decreases depth as int, 0int, 2int,
{
    let ghost s = spec_finish_num(c, old(state)@, depth as nat);
    let m = if state.scratch.neg {
        -state.scratch.num
    } else {
        state.scratch.num
    };
    let sc = state.scratch.frac;
    state.stack.push(Value::Num(Dec { m, s: sc }));
    state.scratch.mode = Mode::CommandChar;
    state.scratch.neg = false;
    proof {
        let sc0 = old(state)@.scratch;
        let mv = if sc0.neg { -sc0.num } else { sc0.num };
        assert(state@.stack =~= old(state)@.stack.push(crate::value::ValueV::Num(
            crate::dec::DecV { m: mv, s: sc0.frac })));
        assert(state@ =~~= (StateV {
            stack: old(state)@.stack.push(crate::value::ValueV::Num(crate::dec::DecV {
                m: mv,
                s: sc0.frac,
            })),
            scratch: ScratchV { mode: Mode::CommandChar, neg: false, ..sc0 },
            ..old(state)@
        }));
    }
    command_char(c, state, depth)
}

/// One character while digits before the decimal point accumulate.
fn integer(c: char, state: &mut EvalState, depth: u32) -> (r: Result<(), Signal>)
    requires
        old(state)@.wf(),
    ensures
        ({
            let s = spec_integer(c, old(state)@, depth as nat);
            final(state)@ == s.st && r == s.r && final(state)@.wf()
        }),
    decreases depth as int, 0int, 3int,
{
    let ghost s = spec_integer(c, old(state)@, depth as nat);
    let d = digit_value(c);
    if d >= 0 {
        let nn = state.scratch.num * 10 + (d as i128);
        if nn >= MANTISSA_LIMIT {
            return Err(Signal::Error(EvalError::Domain));
        }
        state.scratch.num = nn;
        proof {
            assert(state@ =~~= s.st);
        }
        Ok(())
    } else if c == '.' {
        state.scratch.mode = Mode::Decimal;
        state.scratch.frac = 0;
        proof {
            assert(state@ =~~= s.st);
        }
        Ok(())
    } else if c == '_' {
        state.scratch.neg = true;
        proof {
            assert(state@ =~~= s.st);
        }
        Ok(())
    } else {
        finish_num(c, state, depth)
    }
}

/// One character while digits after the decimal point accumulate.
fn decimal(c: char, state: &mut EvalState, depth: u32) -> (r: Result<(), Signal>)
    requires
        old(state)@.wf(),
    ensures
        ({
            let s = spec_decimal(c, old(state)@, depth as nat);
            final(state)@ == s.st && r == s.r && final(state)@.wf()
        }),
    decreases depth as int, 0int, 3int,
{
    let ghost s = spec_decimal(c, old(state)@, depth as nat);
    let d = digit_value(c);
    if d >= 0 {
        if state.scratch.frac >= MAX_SCALE {
            return Ok(());
        }
        let nn = state.scratch.num * 10 + (d as i128);
        if nn >= MANTISSA_LIMIT {
            return Ok(());
        }
        state.scratch.num = nn;
        state.scratch.frac = state.scratch.frac + 1;
        proof {
            assert(state@ =~~= s.st);
        }
        Ok(())
    } else {
        finish_num(c, state, depth)
    }
}

/// One character while a bracketed string literal is collected.
fn string_lit(c: char, state: &mut EvalState) -> (r: Result<(), Signal>)
    requires
        old(state)@.wf(),
    ensures
        ({
            let s = spec_string(c, old(state)@);
            final(state)@ == s.st && r == s.r && final(state)@.wf()
        }),
{
    let ghost s = spec_string(c, old(state)@);
    if state.scratch.esc {
        state.scratch.wip.push(c);
        state.scratch.esc = false;
        proof {
            assert(state@ =~~= s.st);
        }
        Ok(())
    } else if c == '\\' {
        state.scratch.esc = true;
        proof {
            assert(state@ =~~= s.st);
        }
        Ok(())
    } else if c == ']' {
        let w = crate::value::copy_chars(&state.scratch.wip);
        state.stack.push(Value::Str(w));
        state.scratch.wip = Vec::new();
        state.scratch.mode = Mode::CommandChar;
        proof {
            assert(state@.stack =~= old(state)@.stack.push(crate::value::ValueV::Str(
                old(state)@.scratch.wip)));
            assert(state@ =~~= s.st);
        }
        Ok(())
    } else {
        state.scratch.wip.push(c);
        proof {
            assert(state@ =~~= s.st);
        }
        Ok(())
    }
}

/// The character following a load or store command.
fn register_char(c: char, state: &mut EvalState) -> (r: Result<(), Signal>)
    requires
        old(state)@.wf(),
    ensures
        ({
            let s = spec_register_char(c, old(state)@);
            final(state)@ == s.st && r == s.r && final(state)@.wf()
        }),
{
    let ghost s = spec_register_char(c, old(state)@);
    if c == '[' {
        state.scratch.mode = Mode::RegisterStr;
        proof {
            assert(state@ =~~= s.st);
        }
        return Ok(());
    }
    match state.scratch.reg_op {
        RegOp::Store => {
            if state.stack.len() == 0 {
                return Err(Signal::Error(EvalError::Underflow));
            }
            let v = state.stack.pop().unwrap();
            let mut name: Vec<char> = Vec::new();
            name.push(c);
            proof {
                assert(name@ =~= seq![c]);
            }
            state.regs.store(name, v);
            state.scratch.mode = Mode::CommandChar;
            proof {
                assert(state@.stack =~= old(state)@.stack.drop_last());
                assert(state@.regs =~= old(state)@.regs.push((seq![c],
                    old(state)@.stack.last())));
                assert(state@ =~~= s.st);
            }
            Ok(())
        },
        RegOp::Load => {
            let mut key: Vec<char> = Vec::new();
            key.push(c);
            proof {
                assert(key@ =~= seq![c]);
            }
            let got: Option<Value> = match state.regs.get(&key) {
                Some(v) => Some(v.dup()),
                None => None,
            };
            match got {
                Some(v) => {
                    proof {
                        crate::regs::lemma_lookup_wf(old(state)@.regs, seq![c]);
                    }
                    state.stack.push(v);
                    state.scratch.mode = Mode::CommandChar;
                    proof {
                        assert(state@ =~~= s.st);
                    }
                    Ok(())
                },
                None => {
                    state.scratch.mode = Mode::CommandChar;
                    proof {
                        assert(state@ =~~= s.st);
                    }
                    Ok(())
                },
            }
        },
    }
}

/// One character while a bracketed register name is collected.
fn register_str(c: char, state: &mut EvalState) -> (r: Result<(), Signal>)
    requires
        old(state)@.wf(),
    ensures
        ({
            let s = spec_register_str(c, old(state)@);
            final(state)@ == s.st && r == s.r && final(state)@.wf()
        }),
{
    let ghost s = spec_register_str(c, old(state)@);
    if c != ']' {
        state.scratch.wip.push(c);
        proof {
            assert(state@ =~~= s.st);
        }
        return Ok(());
    }
    match state.scratch.reg_op {
        RegOp::Store => {
            if state.stack.len() == 0 {
                return Err(Signal::Error(EvalError::Underflow));
            }
            let name = crate::value::copy_chars(&state.scratch.wip);
            let v = state.stack.pop().unwrap();
            state.regs.store(name, v);
            state.scratch.wip = Vec::new();
            state.scratch.mode = Mode::CommandChar;
            proof {
                assert(state@.stack =~= old(state)@.stack.drop_last());
                assert(state@.regs =~= old(state)@.regs.push((old(state)@.scratch.wip,
                    old(state)@.stack.last())));
                assert(state@ =~~= s.st);
            }
            Ok(())
        },
        RegOp::Load => {
            let key = crate::value::copy_chars(&state.scratch.wip);
            let got: Option<Value> = match state.regs.get(&key) {
                Some(v) => Some(v.dup()),
                None => None,
            };
            match got {
                Some(v) => {
                    proof {
                        crate::regs::lemma_lookup_wf(old(state)@.regs, old(state)@.scratch.wip);
                    }
                    state.stack.push(v);
                },
                None => {},
            }
            state.scratch.wip = Vec::new();
            state.scratch.mode = Mode::CommandChar;
            proof {
                assert(state@ =~~= s.st);
            }
            Ok(())
        },
    }
}

/// Routes one character to the component the current mode selects.
fn step_char(c: char, state: &mut EvalState, depth: u32) -> (r: Result<(), Signal>)
    requires
        old(state)@.wf(),
    ensures
        ({
            let s = spec_step(c, old(state)@, depth as nat);
            final(state)@ == s.st && r == s.r && final(state)@.wf()
        }),
    decreases depth as int, 0int, 4int,
{
    match state.scratch.mode {
        Mode::CommandChar => command_char(c, state, depth),
        Mode::CommandNamed => command_named(c, state, depth),
        Mode::Integer => integer(c, state, depth),
        Mode::Decimal => decimal(c, state, depth),
        Mode::Str => string_lit(c, state),
        Mode::RegisterChar => register_char(c, state),
        Mode::RegisterStr => register_str(c, state),
    }
}

/// Evaluates one chunk of characters against a state.
fn eval_seq(input: &Vec<char>, state: &mut EvalState, depth: u32) -> (r: Result<(), Signal>)
    requires
        old(state)@.wf(),
    ensures
        ({
            let s = spec_eval(input@, old(state)@, depth as nat);
            final(state)@ == s.st && r == s.r && final(state)@.wf()
        }),
    decreases depth as int, 0int, 5int,
{
    let ghost st0 = old(state)@;
    let ghost goal = spec_eval(input@, st0, depth as nat);
    let mut i: usize = 0;
    proof {
        assert(input@.skip(0) =~= input@);
    }
    while i < input.len()
        invariant
            old(state)@.wf(),
            0 <= i <= input@.len(),
            state@.wf(),
            st0 == old(state)@,
            goal == spec_eval(input@, st0, depth as nat),
            spec_eval(input@.skip(i as int), state@, depth as nat) == goal,
        decreases input@.len() - i,
    {
        let c = input[i];
        let ghost before = state@;
        let res = step_char(c, state, depth);
        proof {
            assert(input@.skip(i as int)[0] == c);
            assert(input@.skip(i as int).skip(1) =~= input@.skip(i + 1));
        }
        if let Err(e) = res {
            proof {
                let s0 = spec_step(c, before, depth as nat);
                assert(spec_eval(input@.skip(i as int), before, depth as nat) == s0);
            }
            return Err(e);
        }
        i += 1;
    }
    proof {
        assert(input@.skip(input@.len() as int) =~= Seq::<char>::empty());
    }
    let pending = match state.scratch.mode {
        Mode::Integer => true,
        Mode::Decimal => true,
        _ => false,
    };
    if pending {
        finish_num(' ', state, depth)
    } else {
        Ok(())
    }
}

/// Evaluates a chunk of input text against a state, resuming whatever
/// literal or mode the previous chunk left pending; a pending numeric
/// literal is finalized at end of input. The result and the state after
/// the call are exactly what the specification interpreter `spec_eval`
/// yields on `MAX_DEPTH`.
pub fn eval(input: &str, state: &mut EvalState) -> (r: Result<(), Signal>)
    requires
        old(state)@.wf(),
    ensures
        ({
            let s = spec_eval(input@, old(state)@, MAX_DEPTH as nat);
            final(state)@ == s.st && r == s.r && final(state)@.wf()
        }),
{
    let chars = str_to_chars(input);
    eval_seq(&chars, state, MAX_DEPTH)
}

} // verus!
