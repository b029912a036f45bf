//! Laws of the interpreter, proved once and for all against the
//! specification interpreter in `sem` — and thereby, through `eval`'s
//! contract, of the executable evaluator.

use crate::dec::{DecV, MANTISSA_LIMIT};
use crate::regs::spec_lookup;
use crate::sem::{digit_val, is_binop, serr, sok, spec_command_char, spec_eval, spec_register_char,
    spec_register_str, spec_step, EvalError, Mode, RegOp, ScratchV, Signal, SpecRes, StateV};
use crate::value::{OutV, ValueV};
use vstd::prelude::*;

verus! {

/// Every character of `s` is a decimal digit.
pub open spec fn all_digits(s: Seq<char>) -> bool {
    forall|i: int| 0 <= i < s.len() ==> digit_val(#[trigger] s[i]) >= 0
}

/// The base-10 reading of a digit sequence.
pub open spec fn digits_val(s: Seq<char>) -> int
    decreases s.len(),
{
    if s.len() == 0 {
        0
    } else {
        digits_val(s.drop_last()) * 10 + digit_val(s.last())
    }
}

proof fn lemma_digits_val_nonneg(s: Seq<char>)
    requires
        all_digits(s),
    ensures
        digits_val(s) >= 0,
    decreases s.len(),
{
    if s.len() > 0 {
        assert(forall|i: int| 0 <= i < s.drop_last().len() ==> s.drop_last()[i] == s[i]);
        lemma_digits_val_nonneg(s.drop_last());
        assert(digit_val(s.last()) >= 0);
    }
}

proof fn lemma_digits_val_take_le(s: Seq<char>, i: int)
    requires
        all_digits(s),
        0 <= i <= s.len(),
    ensures
        0 <= digits_val(s.take(i)) <= digits_val(s),
    decreases s.len() - i,
{
    assert(forall|j: int| 0 <= j < s.take(i).len() ==> s.take(i)[j] == s[j]);
    lemma_digits_val_nonneg(s.take(i));
    if i == s.len() {
        assert(s.take(i) =~= s);
    } else {
        lemma_digits_val_take_le(s, i + 1);
        assert(s.take(i + 1).drop_last() =~= s.take(i));
        assert(s.take(i + 1).last() == s[i]);
        assert(digit_val(s[i]) >= 0);
    }
}

/// Running the integer accumulator over the remaining digits of `d`
/// accumulates their base-10 value, and end of input pushes it.
proof fn lemma_integer_run(d: Seq<char>, i: int, st: StateV, depth: nat)
    requires
        all_digits(d),
        digits_val(d) < MANTISSA_LIMIT,
        0 <= i <= d.len(),
        st.scratch.mode == Mode::Integer,
        st.scratch.neg == false,
        st.scratch.frac == 0,
        st.scratch.num == digits_val(d.take(i)),
    ensures
        spec_eval(d.skip(i), st, depth) == sok(
            StateV {
                stack: st.stack.push(ValueV::Num(DecV { m: digits_val(d), s: 0 })),
                scratch: ScratchV {
                    mode: Mode::CommandChar,
                    num: digits_val(d),
                    ..st.scratch
                },
                ..st
            },
        ),
    decreases d.len() - i,
{
    if i == d.len() {
        assert(d.skip(i) =~= Seq::<char>::empty());
        assert(d.take(i) =~= d);
        let st2 = StateV {
            stack: st.stack.push(ValueV::Num(DecV { m: st.scratch.num, s: st.scratch.frac })),
            scratch: ScratchV { mode: Mode::CommandChar, neg: false, ..st.scratch },
            ..st
        };
        assert(spec_eval(d.skip(i), st, depth) == crate::sem::spec_finish_num(' ', st, depth));
        assert(crate::sem::spec_finish_num(' ', st, depth) =~~= spec_command_char(
            ' ',
            st2,
            depth,
        ));
        assert(spec_command_char(' ', st2, depth) =~~= sok(st2));
        assert(st2 =~~= (StateV {
            stack: st.stack.push(ValueV::Num(DecV { m: digits_val(d), s: 0 })),
            scratch: ScratchV { mode: Mode::CommandChar, num: digits_val(d), ..st.scratch },
            ..st
        }));
    } else {
        let c = d[i];
        assert(digit_val(c) >= 0);
        lemma_digits_val_take_le(d, i + 1);
        assert(d.take(i + 1).drop_last() =~= d.take(i));
        assert(d.take(i + 1).last() == c);
        let st1 = StateV {
            scratch: ScratchV { num: digits_val(d.take(i + 1)), ..st.scratch },
            ..st
        };
        assert(spec_step(c, st, depth) =~~= sok(st1));
        lemma_integer_run(d, i + 1, st1, depth);
        assert(d.skip(i)[0] == c);
        assert(d.skip(i).skip(1) =~= d.skip(i + 1));
        assert(spec_eval(d.skip(i), st, depth) =~~= sok(
            StateV {
                stack: st.stack.push(ValueV::Num(DecV { m: digits_val(d), s: 0 })),
                scratch: ScratchV { mode: Mode::CommandChar, num: digits_val(d), ..st.scratch },
                ..st
            },
        ));
    }
}

/// Evaluating a nonempty digit sequence (no leading sign) from command
/// mode pushes exactly the number it reads in base 10 — end of input
/// supplies the terminator — and touches neither registers nor output.
/// Digit runs whose value reaches the backing mantissa range are refused
/// with an error and are left out here.
pub proof fn theorem_digit_literal(d: Seq<char>, st: StateV, depth: nat)
    requires
        all_digits(d),
        d.len() >= 1,
        digits_val(d) < MANTISSA_LIMIT,
        st.scratch.mode == Mode::CommandChar,
        st.scratch.neg == false,
    ensures
        spec_eval(d, st, depth).r == Ok::<(), Signal>(()),
        spec_eval(d, st, depth).st.stack == st.stack.push(
            ValueV::Num(DecV { m: digits_val(d), s: 0 }),
        ),
        spec_eval(d, st, depth).st.regs == st.regs,
        spec_eval(d, st, depth).st.out == st.out,
{
    let c = d[0];
    assert(digit_val(c) >= 0);
    assert(d.take(1).drop_last() =~= Seq::<char>::empty());
    assert(d.take(1).last() == c);
    assert(digits_val(Seq::<char>::empty()) == 0);
    assert(digits_val(d.take(1)) == digit_val(c));
    let st1 = StateV {
        scratch: ScratchV { mode: Mode::Integer, num: digit_val(c), frac: 0, ..st.scratch },
        ..st
    };
    assert(spec_step(c, st, depth) =~~= sok(st1));
    lemma_integer_run(d, 1, st1, depth);
    assert(d.skip(1) == d.skip(1));
}

/// The state after a digit run has been read and finalized: its base-10
/// value pushed, the scratch context back at command dispatch.
pub open spec fn after_digits(d: Seq<char>, st: StateV) -> StateV {
    StateV {
        stack: st.stack.push(ValueV::Num(DecV { m: digits_val(d), s: 0 })),
        scratch: ScratchV {
            mode: Mode::CommandChar,
            num: digits_val(d),
            frac: 0,
            neg: false,
            ..st.scratch
        },
        ..st
    }
}

/// Running the integer accumulator over the digits of `d` from position
/// `i` on, with the terminator `t` behind them, acts exactly as `t` alone
/// acts once the whole number is pushed.
proof fn lemma_integer_run_then(d: Seq<char>, t: char, i: int, st: StateV, depth: nat)
    requires
        all_digits(d),
        digits_val(d) < MANTISSA_LIMIT,
        0 <= i <= d.len(),
        digit_val(t) < 0,
        t != '.',
        t != '_',
        st.scratch.mode == Mode::Integer,
        st.scratch.neg == false,
        st.scratch.frac == 0,
        st.scratch.num == digits_val(d.take(i)),
    ensures
        spec_eval(d.push(t).skip(i), st, depth) == spec_eval(seq![t], after_digits(d, st), depth),
    decreases d.len() - i,
{
    let p = after_digits(d, st);
    if i == d.len() {
        assert(d.take(i) =~= d);
        assert(d.push(t).skip(i) =~= seq![t]);
        let st2 = StateV {
            stack: st.stack.push(ValueV::Num(DecV { m: st.scratch.num, s: st.scratch.frac })),
            scratch: ScratchV { mode: Mode::CommandChar, neg: false, ..st.scratch },
            ..st
        };
        assert(st2 =~~= p);
        assert(spec_step(t, st, depth) == crate::sem::spec_finish_num(t, st, depth));
        assert(crate::sem::spec_finish_num(t, st, depth) == spec_command_char(t, st2, depth));
        assert(spec_step(t, p, depth) == spec_command_char(t, p, depth));
        assert(seq![t].skip(1) =~= Seq::<char>::empty());
        assert(spec_eval(d.push(t).skip(i), st, depth) == spec_eval(seq![t], p, depth));
    } else {
        let c = d[i];
        assert(digit_val(c) >= 0);
        lemma_digits_val_take_le(d, i + 1);
        assert(d.take(i + 1).drop_last() =~= d.take(i));
        assert(d.take(i + 1).last() == c);
        let st1 = StateV {
            scratch: ScratchV { num: digits_val(d.take(i + 1)), ..st.scratch },
            ..st
        };
        assert(spec_step(c, st, depth) =~~= sok(st1));
        lemma_integer_run_then(d, t, i + 1, st1, depth);
        assert(after_digits(d, st1) =~~= p);
        assert(d.push(t).skip(i)[0] == c);
        assert(d.push(t).skip(i).skip(1) =~= d.push(t).skip(i + 1));
        assert(spec_eval(d.push(t).skip(i), st, depth) == spec_eval(seq![t], p, depth));
    }
}

/// Evaluating a nonempty digit run followed by any terminating character
/// — one that is not a digit, not a decimal point and not a sign — acts
/// exactly as that character alone acts on the state with the number,
/// read in base 10, already pushed.
pub proof fn theorem_digit_literal_then_terminator(
    d: Seq<char>,
    t: char,
    st: StateV,
    depth: nat,
)
    requires
        all_digits(d),
        d.len() >= 1,
        digits_val(d) < MANTISSA_LIMIT,
        digit_val(t) < 0,
        t != '.',
        t != '_',
        st.scratch.mode == Mode::CommandChar,
        st.scratch.neg == false,
    ensures
        spec_eval(d.push(t), st, depth) == spec_eval(seq![t], after_digits(d, st), depth),
{
    let c = d[0];
    assert(digit_val(c) >= 0);
    assert(d.take(1).drop_last() =~= Seq::<char>::empty());
    assert(d.take(1).last() == c);
    assert(digits_val(Seq::<char>::empty()) == 0);
    assert(digits_val(d.take(1)) == digit_val(c));
    let st1 = StateV {
        scratch: ScratchV { mode: Mode::Integer, num: digit_val(c), frac: 0, ..st.scratch },
        ..st
    };
    assert(spec_step(c, st, depth) =~~= sok(st1));
    lemma_integer_run_then(d, t, 1, st1, depth);
    assert(after_digits(d, st1) =~~= after_digits(d, st));
    assert(d.push(t)[0] == c);
    assert(d.push(t).skip(1) == d.push(t).skip(1));
}

/// A binary arithmetic operator on a stack of depth below two fails with
/// an underflow error and leaves the whole state unchanged.
pub proof fn theorem_binop_underflow(c: char, st: StateV, depth: nat)
    requires
        is_binop(c),
        st.scratch.mode == Mode::CommandChar,
        st.stack.len() < 2,
    ensures
        spec_step(c, st, depth) == serr(st, EvalError::Underflow),
{
}

/// A binary arithmetic operator whose two operands are not both numbers
/// fails with a type error and leaves the stack exactly as it was, both
/// operands in their original order.
pub proof fn theorem_binop_type_mismatch(c: char, st: StateV, depth: nat)
    requires
        is_binop(c),
        st.scratch.mode == Mode::CommandChar,
        st.stack.len() >= 2,
        !(st.stack[st.stack.len() - 1] is Num) || !(st.stack[st.stack.len() - 2] is Num),
    ensures
        spec_step(c, st, depth) == serr(st, EvalError::Type),
{
    assert(st.stack.last() == st.stack[st.stack.len() - 1]);
    assert(st.stack.drop_last().last() == st.stack[st.stack.len() - 2]);
}

/// Loading from an unset one-character register is a no-op: no error, and
/// the stack, registers and output are untouched.
pub proof fn theorem_load_unset_char(c: char, st: StateV)
    requires
        st.scratch.mode == Mode::RegisterChar,
        st.scratch.reg_op == RegOp::Load,
        c != '[',
        spec_lookup(st.regs, seq![c]) is None,
    ensures
        spec_register_char(c, st).r == Ok::<(), Signal>(()),
        spec_register_char(c, st).st == (StateV {
            scratch: ScratchV { mode: Mode::CommandChar, ..st.scratch },
            ..st
        }),
{
    assert(spec_register_char(c, st).st =~~= (StateV {
        scratch: ScratchV { mode: Mode::CommandChar, ..st.scratch },
        ..st
    }));
}

/// Loading from an unset bracketed register name is a no-op as well.
pub proof fn theorem_load_unset_named(st: StateV)
    requires
        st.scratch.mode == Mode::RegisterStr,
        st.scratch.reg_op == RegOp::Load,
        spec_lookup(st.regs, st.scratch.wip) is None,
    ensures
        spec_register_str(']', st).r == Ok::<(), Signal>(()),
        spec_register_str(']', st).st == (StateV {
            scratch: ScratchV { mode: Mode::CommandChar, wip: Seq::empty(), ..st.scratch },
            ..st
        }),
{
    assert(spec_register_str(']', st).st =~~= (StateV {
        scratch: ScratchV { mode: Mode::CommandChar, wip: Seq::empty(), ..st.scratch },
        ..st
    }));
}

/// The help command records a help event and alters neither the stack nor
/// the register table nor the in-progress literal.
pub proof fn theorem_help_preserves_state(st: StateV, depth: nat)
    requires
        st.scratch.mode == Mode::CommandChar,
    ensures
        spec_step('?', st, depth).r == Ok::<(), Signal>(()),
        spec_step('?', st, depth).st == (StateV { out: st.out.push(OutV::Help), ..st }),
{
    assert(spec_step('?', st, depth).st =~~= (StateV { out: st.out.push(OutV::Help), ..st }));
}

/// The quit command signals termination and leaves the whole state —
/// stack, registers, output and scratch — exactly as it was.
pub proof fn theorem_quit_preserves_state(st: StateV, depth: nat)
    requires
        st.scratch.mode == Mode::CommandChar,
    ensures
        spec_step('q', st, depth) == (SpecRes { st, r: Err(Signal::Terminate) }),
{
}

} // verus!
