//! The evaluator's state and its mathematical semantics: a specification
//! level interpreter that says, character by character, what evaluation
//! does to the stack, the register table, the output and the in-progress
//! literal. The executable evaluator is proved equal to it.

use crate::dec::{add_of, div_of, mul_of, pow_of, rem_of, sqrt_of, sub_of, DecV, MANTISSA_LIMIT,
    MAX_SCALE};
use crate::regs::spec_lookup;
use crate::value::{out_v_wf, OutV, ValueV};
use vstd::prelude::*;

verus! {

/// How many levels of nested macro expansion an evaluation admits before it
/// stops with an error: a guard against a register whose macro invokes
/// itself forever.
pub const MAX_DEPTH: u32 = 64;

/// The mode of the character-driven state machine: which component the next
/// input character is routed to.
#[derive(Clone, Copy, Debug, PartialEq, Eq, Structural)]
pub enum Mode {
    /// Dispatch single-character commands.
    CommandChar,
    /// Collecting a parenthesized word naming a stored macro.
    CommandNamed,
    /// Accumulating digits before a decimal point.
    Integer,
    /// Accumulating digits after a decimal point.
    Decimal,
    /// Collecting a bracketed string literal.
    Str,
    /// Expecting a one-character register name.
    RegisterChar,
    /// Collecting a bracketed register name.
    RegisterStr,
}

/// Which register access is in progress while a register name is read.
#[derive(Clone, Copy, Debug, PartialEq, Eq, Structural)]
pub enum RegOp {
    Load,
    Store,
}

/// Why an evaluation failed.
#[derive(Clone, Copy, Debug, PartialEq, Eq, Structural)]
pub enum EvalError {
    /// An operation needed more stack elements than were present.
    Underflow,
    /// An operand had the wrong variant.
    Type,
    /// A named command referenced an absent or non-string register.
    UnknownName,
    /// A character that no command is assigned to.
    UnknownCommand,
    /// An arithmetic failure: division or remainder by zero, the square
    /// root of a negative number, or a result out of the decimal range.
    Domain,
    /// Macro expansion nested deeper than `MAX_DEPTH`.
    DepthLimit,
}

/// Why an evaluation stopped early: an error, or an explicit request to end
/// the session. `Terminate` is not an error.
#[derive(Clone, Copy, Debug, PartialEq, Eq, Structural)]
pub enum Signal {
    Error(EvalError),
    Terminate,
}

/// The transient per-evaluation context: the mode and the in-progress
/// numeric and string literals. A nested (macro) evaluation gets a fresh
/// scratch of its own, so a macro's half-parsed literal cannot corrupt its
/// caller's.
#[derive(Debug)]
pub struct Scratch {
    /// Current mode.
    pub mode: Mode,
    /// In-progress string, word or register name.
    pub wip: Vec<char>,
    /// Whether the pending register access is a load or a store.
    pub reg_op: RegOp,
    /// Whether the next string character is escaped.
    pub esc: bool,
    /// Digits accumulated so far, as a nonnegative mantissa.
    pub num: i128,
    /// How many of the accumulated digits lie behind the decimal point.
    pub frac: u32,
    /// Whether the number under construction is negated.
    pub neg: bool,
}

/// Mathematical model of the scratch context.
#[verifier::ext_equal]
pub ghost struct ScratchV {
    pub mode: Mode,
    pub wip: Seq<char>,
    pub reg_op: RegOp,
    pub esc: bool,
    pub num: int,
    pub frac: int,
    pub neg: bool,
}

impl View for Scratch {
    type V = ScratchV;

    open spec fn view(&self) -> ScratchV {
        ScratchV {
            mode: self.mode,
            wip: self.wip@,
            reg_op: self.reg_op,
            esc: self.esc,
            num: self.num as int,
            frac: self.frac as int,
            neg: self.neg,
        }
    }
}

/// The scratch context a fresh evaluation starts from.
pub open spec fn fresh_scratch_v() -> ScratchV {
    ScratchV {
        mode: Mode::CommandChar,
        wip: Seq::empty(),
        reg_op: RegOp::Load,
        esc: false,
        num: 0,
        frac: 0,
        neg: false,
    }
}

impl Scratch {
    /// The scratch context a fresh evaluation starts from.
    pub fn fresh() -> (r: Scratch)
        ensures
            r@ =~= fresh_scratch_v(),
    {
        Scratch {
            mode: Mode::CommandChar,
            wip: Vec::new(),
            reg_op: RegOp::Load,
            esc: false,
            num: 0,
            frac: 0,
            neg: false,
        }
    }
}

/// The full evaluator state: the operand stack and register table shared by
/// nested evaluations, the recorded output, and the top-level scratch
/// context, carried across calls so a half-read literal can resume on the
/// next input chunk.
#[derive(Debug)]
pub struct EvalState {
    pub stack: Vec<crate::value::Value>,
    pub regs: crate::regs::Registers,
    pub out: Vec<crate::value::OutEvent>,
    pub scratch: Scratch,
}

/// Mathematical model of the evaluator state.
#[verifier::ext_equal]
pub ghost struct StateV {
    pub stack: Seq<ValueV>,
    pub regs: Seq<(Seq<char>, ValueV)>,
    pub out: Seq<OutV>,
    pub scratch: ScratchV,
}

impl View for EvalState {
    type V = StateV;

    open spec fn view(&self) -> StateV {
        StateV {
            stack: self.stack@.map_values(|v: crate::value::Value| v@),
            regs: self.regs@,
            out: self.out@.map_values(|o: crate::value::OutEvent| o@),
            scratch: self.scratch@,
        }
    }
}

impl ScratchV {
    /// The accumulator stays a nonnegative in-range mantissa with at most
    /// `MAX_SCALE` fractional digits.
    pub open spec fn wf(self) -> bool {
        &&& 0 <= self.num < MANTISSA_LIMIT
        &&& 0 <= self.frac <= MAX_SCALE
    }
}

impl StateV {
    /// Every value on the stack, in the registers and in the output is well
    /// formed, and so is the scratch accumulator.
    pub open spec fn wf(self) -> bool {
        &&& forall|i: int| 0 <= i < self.stack.len() ==> (#[trigger] self.stack[i]).wf()
        &&& crate::regs::regs_v_wf(self.regs)
        &&& forall|i: int| 0 <= i < self.out.len() ==> out_v_wf(#[trigger] self.out[i])
        &&& self.scratch.wf()
    }
}

/// The outcome of feeding characters to the evaluator: the state it leaves
/// behind, and whether it finished normally or stopped on a signal.
#[verifier::ext_equal]
pub ghost struct SpecRes {
    pub st: StateV,
    pub r: Result<(), Signal>,
}

/// Normal continuation.
pub open spec fn sok(st: StateV) -> SpecRes {
    SpecRes { st, r: Ok(()) }
}

/// Failure with an error, leaving `st` behind.
pub open spec fn serr(st: StateV, e: EvalError) -> SpecRes {
    SpecRes { st, r: Err(Signal::Error(e)) }
}

/// The numeric value of a digit character, or `-1` for any other character.
pub open spec fn digit_val(c: char) -> int {
    match c {
        '0' => 0,
        '1' => 1,
        '2' => 2,
        '3' => 3,
        '4' => 4,
        '5' => 5,
        '6' => 6,
        '7' => 7,
        '8' => 8,
        '9' => 9,
        _ => -1,
    }
}

/// Whether `c` is a binary arithmetic operator.
pub open spec fn is_binop(c: char) -> bool {
    c == '+' || c == '-' || c == '*' || c == '/' || c == '%' || c == '^'
}

/// What `rust_decimal` returns for the binary operator `c` on `b OP a`,
/// where `b` was below `a` on the stack.
pub open spec fn binop_of(c: char, b: DecV, a: DecV) -> Option<DecV> {
    if c == '+' {
        add_of(b, a)
    } else if c == '-' {
        sub_of(b, a)
    } else if c == '*' {
        mul_of(b, a)
    } else if c == '/' {
        div_of(b, a)
    } else if c == '%' {
        rem_of(b, a)
    } else {
        pow_of(b, a)
    }
}

/// One character in command-dispatch mode. A command-position `_` begins
/// a negative numeric literal; it does not negate the value on top of the
/// stack.
pub open spec fn spec_command_char(c: char, st: StateV, depth: nat) -> SpecRes
    decreases depth, 0nat, 1nat,
{
    let sc = st.scratch;
    if digit_val(c) >= 0 {
        sok(
            StateV {
                scratch: ScratchV { mode: Mode::Integer, num: digit_val(c), frac: 0, ..sc },
                ..st
            },
        )
    } else if c == '_' {
        sok(
            StateV {
                scratch: ScratchV { mode: Mode::Integer, num: 0, frac: 0, neg: true, ..sc },
                ..st
            },
        )
    } else if c == ' ' {
        sok(st)
    } else if c == '(' {
        sok(
            StateV {
                scratch: ScratchV {
                    mode: Mode::CommandNamed,
                    wip: Seq::empty(),
                    esc: false,
                    ..sc
                },
                ..st
            },
        )
    } else if c == '[' {
        sok(
            StateV {
                scratch: ScratchV { mode: Mode::Str, wip: Seq::empty(), esc: false, ..sc },
                ..st
            },
        )
    } else if c == '?' {
        sok(StateV { out: st.out.push(OutV::Help), ..st })
    } else if c == '!' {
        if st.stack.len() == 0 {
            serr(st, EvalError::Underflow)
        } else {
            let rest = StateV { stack: st.stack.drop_last(), ..st };
            match st.stack.last() {
                ValueV::Str(_) => serr(rest, EvalError::Type),
                ValueV::Num(d) => {
                    if (DecV { m: rest.stack.len() as int, s: 0 }).lt_value(d) {
                        serr(rest, EvalError::Underflow)
                    } else {
                        sok(rest)
                    }
                },
            }
        }
    } else if c == 'q' {
        SpecRes { st, r: Err(Signal::Terminate) }
    } else if c == 'c' {
        sok(StateV { stack: Seq::empty(), ..st })
    } else if c == 'l' {
        sok(
            StateV {
                scratch: ScratchV { mode: Mode::RegisterChar, reg_op: RegOp::Load, ..sc },
                ..st
            },
        )
    } else if c == 's' {
        sok(
            StateV {
                scratch: ScratchV { mode: Mode::RegisterChar, reg_op: RegOp::Store, ..sc },
                ..st
            },
        )
    } else if c == 'x' {
        if st.stack.len() == 0 {
            serr(st, EvalError::Underflow)
        } else {
            let rest = StateV { stack: st.stack.drop_last(), ..st };
            match st.stack.last() {
                ValueV::Num(_) => serr(rest, EvalError::Type),
                ValueV::Str(body) => {
                    if depth == 0 {
                        serr(rest, EvalError::DepthLimit)
                    } else {
                        spec_eval_nested(body, rest, (depth - 1) as nat)
                    }
                },
            }
        }
    } else if c == 'd' {
        if st.stack.len() == 0 {
            serr(st, EvalError::Underflow)
        } else {
            sok(StateV { stack: st.stack.push(st.stack.last()), ..st })
        }
    } else if c == ',' {
        if st.stack.len() == 0 {
            serr(st, EvalError::Underflow)
        } else {
            sok(StateV { stack: st.stack.drop_last(), ..st })
        }
    } else if c == 'v' {
        if st.stack.len() == 0 {
            serr(st, EvalError::Underflow)
        } else {
            let rest = StateV { stack: st.stack.drop_last(), ..st };
            match st.stack.last() {
                ValueV::Str(_) => serr(rest, EvalError::Type),
                ValueV::Num(d) => {
                    if d.m < 0 {
                        serr(rest, EvalError::Domain)
                    } else {
                        sok(StateV { stack: rest.stack.push(ValueV::Num(sqrt_of(d))), ..st })
                    }
                },
            }
        }
    } else if c == 'p' {
        if st.stack.len() == 0 {
            serr(st, EvalError::Underflow)
        } else {
            sok(StateV { out: st.out.push(OutV::Print(st.stack.last())), ..st })
        }
    } else if c == 'n' {
        if st.stack.len() == 0 {
            serr(st, EvalError::Underflow)
        } else {
            sok(
                StateV {
                    stack: st.stack.drop_last(),
                    out: st.out.push(OutV::Print(st.stack.last())),
                    ..st
                },
            )
        }
    } else if is_binop(c) {
        if st.stack.len() < 2 {
            serr(st, EvalError::Underflow)
        } else {
            let a = st.stack.last();
            let b = st.stack.drop_last().last();
            match (b, a) {
                (ValueV::Num(x), ValueV::Num(y)) => {
                    match binop_of(c, x, y) {
                        Some(v) => sok(
                            StateV {
                                stack: st.stack.drop_last().drop_last().push(ValueV::Num(v)),
                                ..st
                            },
                        ),
                        None => serr(st, EvalError::Domain),
                    }
                },
                _ => serr(st, EvalError::Type),
            }
        }
    } else {
        serr(st, EvalError::UnknownCommand)
    }
}

/// One character while a parenthesized command name is collected.
pub open spec fn spec_command_named(c: char, st: StateV, depth: nat) -> SpecRes
    decreases depth, 0nat, 1nat,
{
    let sc = st.scratch;
    if c != ')' {
        sok(StateV { scratch: ScratchV { wip: sc.wip.push(c), ..sc }, ..st })
    } else {
        match spec_lookup(st.regs, sc.wip) {
            Some(ValueV::Str(body)) => {
                let ready = StateV { scratch: fresh_scratch_v(), ..st };
                if depth == 0 {
                    serr(ready, EvalError::DepthLimit)
                } else {
                    spec_eval_nested(body, ready, (depth - 1) as nat)
                }
            },
            Some(ValueV::Num(_)) => serr(st, EvalError::UnknownName),
            None => serr(st, EvalError::UnknownName),
        }
    }
}

/// Finalizes the number under construction — sign applied, pushed on the
/// stack, mode back to command dispatch — and re-dispatches `c` as a
/// command character.
pub open spec fn spec_finish_num(c: char, st: StateV, depth: nat) -> SpecRes
    decreases depth, 0nat, 2nat,
{
    let sc = st.scratch;
    let m = if sc.neg {
        -sc.num
    } else {
        sc.num
    };
    let st2 = StateV {
        stack: st.stack.push(ValueV::Num(DecV { m, s: sc.frac })),
        scratch: ScratchV { mode: Mode::CommandChar, neg: false, ..sc },
        ..st
    };
    spec_command_char(c, st2, depth)
}

/// One character while digits before the decimal point accumulate.
pub open spec fn spec_integer(c: char, st: StateV, depth: nat) -> SpecRes
    decreases depth, 0nat, 3nat,
{
    let sc = st.scratch;
    let d = digit_val(c);
    if d >= 0 {
        if sc.num * 10 + d >= MANTISSA_LIMIT {
            serr(st, EvalError::Domain)
        } else {
            sok(StateV { scratch: ScratchV { num: sc.num * 10 + d, ..sc }, ..st })
        }
    } else if c == '.' {
        sok(StateV { scratch: ScratchV { mode: Mode::Decimal, frac: 0, ..sc }, ..st })
    } else if c == '_' {
        sok(StateV { scratch: ScratchV { neg: true, ..sc }, ..st })
    } else {
        spec_finish_num(c, st, depth)
    }
}

/// One character while digits after the decimal point accumulate. A digit
/// beyond the supported precision is dropped, as the backing decimal type
/// would drop it.
pub open spec fn spec_decimal(c: char, st: StateV, depth: nat) -> SpecRes
    decreases depth, 0nat, 3nat,
{
    let sc = st.scratch;
    let d = digit_val(c);
    if d >= 0 {
        if sc.frac >= MAX_SCALE || sc.num * 10 + d >= MANTISSA_LIMIT {
            sok(st)
        } else {
            sok(
                StateV {
                    scratch: ScratchV { num: sc.num * 10 + d, frac: sc.frac + 1, ..sc },
                    ..st
                },
            )
        }
    } else {
        spec_finish_num(c, st, depth)
    }
}

/// One character while a bracketed string literal is collected, honoring a
/// one-character escape.
pub open spec fn spec_string(c: char, st: StateV) -> SpecRes {
    let sc = st.scratch;
    if sc.esc {
        sok(StateV { scratch: ScratchV { wip: sc.wip.push(c), esc: false, ..sc }, ..st })
    } else if c == '\\' {
        sok(StateV { scratch: ScratchV { esc: true, ..sc }, ..st })
    } else if c == ']' {
        sok(
            StateV {
                stack: st.stack.push(ValueV::Str(sc.wip)),
                scratch: ScratchV { mode: Mode::CommandChar, wip: Seq::empty(), ..sc },
                ..st
            },
        )
    } else {
        sok(StateV { scratch: ScratchV { wip: sc.wip.push(c), ..sc }, ..st })
    }
}

/// The character after a load or store command: a one-character register
/// name, or the opener of a bracketed name.
pub open spec fn spec_register_char(c: char, st: StateV) -> SpecRes {
    let sc = st.scratch;
    if c == '[' {
        sok(StateV { scratch: ScratchV { mode: Mode::RegisterStr, ..sc }, ..st })
    } else {
        match sc.reg_op {
            RegOp::Store => {
                if st.stack.len() == 0 {
                    serr(st, EvalError::Underflow)
                } else {
                    sok(
                        StateV {
                            stack: st.stack.drop_last(),
                            regs: st.regs.push((seq![c], st.stack.last())),
                            scratch: ScratchV { mode: Mode::CommandChar, ..sc },
                            ..st
                        },
                    )
                }
            },
            RegOp::Load => {
                let back = ScratchV { mode: Mode::CommandChar, ..sc };
                match spec_lookup(st.regs, seq![c]) {
                    Some(v) => sok(StateV { stack: st.stack.push(v), scratch: back, ..st }),
                    None => sok(StateV { scratch: back, ..st }),
                }
            },
        }
    }
}

/// One character while a bracketed register name is collected.
pub open spec fn spec_register_str(c: char, st: StateV) -> SpecRes {
    let sc = st.scratch;
    if c != ']' {
        sok(StateV { scratch: ScratchV { wip: sc.wip.push(c), ..sc }, ..st })
    } else {
        match sc.reg_op {
            RegOp::Store => {
                if st.stack.len() == 0 {
                    serr(st, EvalError::Underflow)
                } else {
                    sok(
                        StateV {
                            stack: st.stack.drop_last(),
                            regs: st.regs.push((sc.wip, st.stack.last())),
                            scratch: ScratchV {
                                mode: Mode::CommandChar,
                                wip: Seq::empty(),
                                ..sc
                            },
                            ..st
                        },
                    )
                }
            },
            RegOp::Load => {
                let back = ScratchV { mode: Mode::CommandChar, wip: Seq::empty(), ..sc };
                match spec_lookup(st.regs, sc.wip) {
                    Some(v) => sok(StateV { stack: st.stack.push(v), scratch: back, ..st }),
                    None => sok(StateV { scratch: back, ..st }),
                }
            },
        }
    }
}

/// Routes one character to the component the current mode selects.
pub open spec fn spec_step(c: char, st: StateV, depth: nat) -> SpecRes
    decreases depth, 0nat, 4nat,
{
    match st.scratch.mode {
        Mode::CommandChar => spec_command_char(c, st, depth),
        Mode::CommandNamed => spec_command_named(c, st, depth),
        Mode::Integer => spec_integer(c, st, depth),
        Mode::Decimal => spec_decimal(c, st, depth),
        Mode::Str => spec_string(c, st),
        Mode::RegisterChar => spec_register_char(c, st),
        Mode::RegisterStr => spec_register_str(c, st),
    }
}

/// Evaluates a whole chunk of input against a state: each character goes to
/// the component the mode selects, and end of input finalizes a pending
/// numeric literal with a synthetic whitespace terminator.
pub open spec fn spec_eval(input: Seq<char>, st: StateV, depth: nat) -> SpecRes
    decreases depth, input.len(), 5nat,
{
    if input.len() == 0 {
        match st.scratch.mode {
            Mode::Integer => spec_finish_num(' ', st, depth),
            Mode::Decimal => spec_finish_num(' ', st, depth),
            _ => sok(st),
        }
    } else {
        let first = spec_step(input[0], st, depth);
        if first.r is Err {
            first
        } else {
            spec_eval(input.skip(1), first.st, depth)
        }
    }
}

/// A nested evaluation, as macro expansion and the eval-string command
/// perform it: the stack, registers and output are shared, but the nested
/// evaluation runs on a fresh scratch context of its own and its transient
/// context is discarded when it returns.
pub open spec fn spec_eval_nested(input: Seq<char>, st: StateV, depth: nat) -> SpecRes
    decreases depth, input.len(), 6nat,
{
    let inner = spec_eval(input, StateV { scratch: fresh_scratch_v(), ..st }, depth);
    SpecRes { st: StateV { scratch: fresh_scratch_v(), ..inner.st }, r: inner.r }
}

} // verus!
