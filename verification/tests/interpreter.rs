use rpcalc::dec::Dec;
use rpcalc::eval::{eval, str_to_chars};
use rpcalc::regs::Registers;
use rpcalc::sem::{EvalError, EvalState, Mode, Signal};
use rpcalc::value::{render_value, value_eq, OutEvent, Value};

fn chars(s: &str) -> Vec<char> {
    str_to_chars(s)
}

fn num(m: i128, s: u32) -> Value {
    Value::Num(Dec { m, s })
}

fn baseline_registers() -> Registers {
    let mut r = Registers::new();
    let seed = [
        ("F->C", "1! 32- 5 9/*"),
        ("C->F", "1! 9 5/* 32+"),
        ("C->K", "1! 273+"),
        ("K->C", "1! 273-"),
        ("Km->mi", "1! 1.609344/"),
        ("mi->Km", "1! 1.609344*"),
    ];
    for (k, v) in seed {
        r.store(chars(k), Value::Str(chars(v)));
    }
    r
}

fn new_state() -> EvalState {
    EvalState::new(baseline_registers())
}

#[test]
fn test_binops() -> Result<(), Signal> {
    let mut state = new_state();

    eval("1 2+", &mut state)?;
    assert!(value_eq(&state.stack[0], &num(3, 0)));

    eval("3 4*", &mut state)?;
    assert!(value_eq(&state.stack[1], &num(12, 0)));

    eval("5 10/", &mut state)?;
    assert!(value_eq(&state.stack[2], &num(5, 1)));

    eval("20 15-", &mut state)?;
    assert!(value_eq(&state.stack[3], &num(5, 0)));

    eval("15 20-", &mut state)?;
    assert!(value_eq(&state.stack[4], &num(-5, 0)));

    eval("3 2%", &mut state)?;
    assert!(value_eq(&state.stack[5], &num(1, 0)));

    eval("2 2^", &mut state)?;
    assert!(value_eq(&state.stack[6], &num(4, 0)));

    eval("c_40 32-", &mut state)?;
    assert!(value_eq(&state.stack[0], &num(-72, 0)));

    Ok(())
}

#[test]
fn test_registers() -> Result<(), Signal> {
    let mut state = new_state();
    eval("[1+]s[inc]", &mut state)?;
    let stored = state.regs.get(&chars("inc")).expect("inc must be set");
    assert!(value_eq(stored, &Value::Str(chars("1+"))));
    eval("1(inc)(inc)", &mut state)?;
    assert!(value_eq(&state.stack[0], &num(3, 0)));

    eval("c1(inc)", &mut state)?;
    assert!(value_eq(&state.stack[0], &num(2, 0)));

    Ok(())
}

#[test]
fn test_stdlib() -> Result<(), Signal> {
    let mut state = new_state();

    eval("_40(C->F)", &mut state)?;
    assert!(value_eq(&state.stack[0], &num(-40, 0)));

    eval("c0(C->F)", &mut state)?;
    assert!(value_eq(&state.stack[0], &num(32, 0)));

    Ok(())
}

#[test]
fn digit_literal_is_base_10() -> Result<(), Signal> {
    let mut state = new_state();
    eval("123", &mut state)?;
    assert_eq!(state.stack.len(), 1);
    assert!(value_eq(&state.stack[0], &num(123, 0)));
    eval("c007", &mut state)?;
    assert!(value_eq(&state.stack[0], &num(7, 0)));
    Ok(())
}

#[test]
fn fractional_and_negative_literals() -> Result<(), Signal> {
    let mut state = new_state();
    eval("3.25", &mut state)?;
    assert!(value_eq(&state.stack[0], &num(325, 2)));
    eval("_4.5", &mut state)?;
    assert!(value_eq(&state.stack[1], &num(-45, 1)));
    Ok(())
}

#[test]
fn underscore_begins_negative_literal() -> Result<(), Signal> {
    let mut state = new_state();
    eval("5 _3", &mut state)?;
    assert_eq!(state.stack.len(), 2);
    assert!(value_eq(&state.stack[0], &num(5, 0)));
    assert!(value_eq(&state.stack[1], &num(-3, 0)));
    Ok(())
}

#[test]
fn literal_resumes_across_chunks() -> Result<(), Signal> {
    let mut state = new_state();
    eval("[ab", &mut state)?;
    assert_eq!(state.stack.len(), 0);
    eval("cd]", &mut state)?;
    assert!(value_eq(&state.stack[0], &Value::Str(chars("abcd"))));
    Ok(())
}

#[test]
fn string_escape_takes_closer_literally() -> Result<(), Signal> {
    let mut state = new_state();
    eval("[a\\]b]", &mut state)?;
    assert!(value_eq(&state.stack[0], &Value::Str(chars("a]b"))));
    Ok(())
}

#[test]
fn binop_underflow_leaves_stack() {
    let mut state = new_state();
    let r = eval("1+", &mut state);
    assert_eq!(r, Err(Signal::Error(EvalError::Underflow)));
    assert_eq!(state.stack.len(), 1);
    assert!(value_eq(&state.stack[0], &num(1, 0)));
}

#[test]
fn type_mismatch_restores_operands() {
    let mut state = new_state();
    let r = eval("[a][b]+", &mut state);
    assert_eq!(r, Err(Signal::Error(EvalError::Type)));
    assert_eq!(state.stack.len(), 2);
    assert!(value_eq(&state.stack[0], &Value::Str(chars("a"))));
    assert!(value_eq(&state.stack[1], &Value::Str(chars("b"))));
}

#[test]
fn load_unset_register_is_noop() -> Result<(), Signal> {
    let mut state = new_state();
    eval("lz", &mut state)?;
    assert_eq!(state.stack.len(), 0);
    eval("l[never set]", &mut state)?;
    assert_eq!(state.stack.len(), 0);
    Ok(())
}

#[test]
fn repeated_loads_push_independent_clones() -> Result<(), Signal> {
    let mut state = new_state();
    eval("[hi]sz lz lz", &mut state)?;
    assert_eq!(state.stack.len(), 2);
    eval(",", &mut state)?;
    assert_eq!(state.stack.len(), 1);
    assert!(value_eq(&state.stack[0], &Value::Str(chars("hi"))));
    let stored = state.regs.get(&chars("z")).expect("z must be set");
    assert!(value_eq(stored, &Value::Str(chars("hi"))));
    Ok(())
}

#[test]
fn help_alters_neither_stack_nor_registers() -> Result<(), Signal> {
    let mut state = new_state();
    let regs_before = state.regs.entries.len();
    eval("1 2?", &mut state)?;
    assert_eq!(state.stack.len(), 2);
    assert_eq!(state.regs.entries.len(), regs_before);
    assert!(matches!(state.out.last(), Some(OutEvent::Help)));
    Ok(())
}

#[test]
fn quit_signals_terminate_and_keeps_state() {
    let mut state = new_state();
    let regs_before = state.regs.entries.len();
    let r = eval("1 2 q", &mut state);
    assert_eq!(r, Err(Signal::Terminate));
    assert_eq!(state.stack.len(), 2);
    assert!(value_eq(&state.stack[0], &num(1, 0)));
    assert!(value_eq(&state.stack[1], &num(2, 0)));
    assert_eq!(state.regs.entries.len(), regs_before);
    assert_eq!(state.scratch.mode, Mode::CommandChar);
}

#[test]
fn eval_string_command_runs_popped_text() -> Result<(), Signal> {
    let mut state = new_state();
    eval("[1 2+]x", &mut state)?;
    assert_eq!(state.stack.len(), 1);
    assert!(value_eq(&state.stack[0], &num(3, 0)));
    Ok(())
}

#[test]
fn eval_string_of_number_is_type_error() {
    let mut state = new_state();
    let r = eval("5x", &mut state);
    assert_eq!(r, Err(Signal::Error(EvalError::Type)));
}

#[test]
fn unknown_named_command_errors() {
    let mut state = new_state();
    let r = eval("(nope)", &mut state);
    assert_eq!(r, Err(Signal::Error(EvalError::UnknownName)));
}

#[test]
fn unknown_command_char_errors() {
    let mut state = new_state();
    let r = eval("z", &mut state);
    assert_eq!(r, Err(Signal::Error(EvalError::UnknownCommand)));
}

#[test]
fn division_by_zero_is_domain_error() {
    let mut state = new_state();
    let r = eval("1 0/", &mut state);
    assert_eq!(r, Err(Signal::Error(EvalError::Domain)));
    let mut state2 = new_state();
    let r2 = eval("1 0%", &mut state2);
    assert_eq!(r2, Err(Signal::Error(EvalError::Domain)));
}

#[test]
fn sqrt_of_negative_is_domain_error() {
    let mut state = new_state();
    let r = eval("_4v", &mut state);
    assert_eq!(r, Err(Signal::Error(EvalError::Domain)));
}

#[test]
fn sqrt_and_pow_compute() -> Result<(), Signal> {
    let mut state = new_state();
    eval("9v", &mut state)?;
    assert!(value_eq(&state.stack[0], &num(3, 0)));
    eval("2 10^", &mut state)?;
    assert!(value_eq(&state.stack[1], &num(1024, 0)));
    Ok(())
}

#[test]
fn self_referencing_macro_hits_depth_limit() {
    let mut state = new_state();
    let r = eval("[(loop)]s[loop](loop)", &mut state);
    assert_eq!(r, Err(Signal::Error(EvalError::DepthLimit)));
}

#[test]
fn dup_drop_clear_and_depth_assert() -> Result<(), Signal> {
    let mut state = new_state();
    eval("5d+", &mut state)?;
    assert!(value_eq(&state.stack[0], &num(10, 0)));
    eval("1 2,", &mut state)?;
    assert_eq!(state.stack.len(), 2);
    eval("1 2 3 2!", &mut state)?;
    assert_eq!(state.stack.len(), 5);
    let r = eval("c1 5!", &mut state);
    assert_eq!(r, Err(Signal::Error(EvalError::Underflow)));
    eval("c", &mut state)?;
    assert_eq!(state.stack.len(), 0);
    Ok(())
}

#[test]
fn print_commands_record_output() -> Result<(), Signal> {
    let mut state = new_state();
    eval("5p", &mut state)?;
    assert_eq!(state.stack.len(), 1);
    assert!(matches!(&state.out[0], OutEvent::Print(v) if value_eq(v, &num(5, 0))));
    eval("n", &mut state)?;
    assert_eq!(state.stack.len(), 0);
    assert!(matches!(&state.out[1], OutEvent::Print(v) if value_eq(v, &num(5, 0))));
    Ok(())
}

#[test]
fn values_equal_as_rationals_not_representations() {
    assert!(value_eq(&num(5, 1), &num(50, 2)));
    assert!(!value_eq(&num(5, 1), &num(5, 0)));
    assert!(!value_eq(&num(5, 0), &Value::Str(chars("5"))));
}

#[test]
fn rendering_matches_decimal_text() {
    let n = num(35, 1);
    let text: String = render_value(&n).into_iter().collect();
    assert_eq!(text, "3.5");
    let whole = num(3, 0);
    let text2: String = render_value(&whole).into_iter().collect();
    assert_eq!(text2, "3");
    let s = Value::Str(chars("1+"));
    let text3: String = render_value(&s).into_iter().collect();
    assert_eq!(text3, "[1+]");
}

#[test]
fn store_to_one_char_register() -> Result<(), Signal> {
    let mut state = new_state();
    eval("7sa la la", &mut state)?;
    assert_eq!(state.stack.len(), 2);
    assert!(value_eq(&state.stack[0], &num(7, 0)));
    assert!(value_eq(&state.stack[1], &num(7, 0)));
    Ok(())
}

#[test]
fn later_store_shadows_earlier() -> Result<(), Signal> {
    let mut state = new_state();
    eval("1sa 2sa la", &mut state)?;
    assert_eq!(state.stack.len(), 1);
    assert!(value_eq(&state.stack[0], &num(2, 0)));
    eval("c3s[long name] 4s[long name] l[long name]", &mut state)?;
    assert!(value_eq(&state.stack[0], &num(4, 0)));
    Ok(())
}

#[test]
fn store_on_empty_stack_underflows() {
    let mut state = new_state();
    let r = eval("sa", &mut state);
    assert_eq!(r, Err(Signal::Error(EvalError::Underflow)));
    let mut state2 = new_state();
    let r2 = eval("s[name]", &mut state2);
    assert_eq!(r2, Err(Signal::Error(EvalError::Underflow)));
}

#[test]
fn oversized_digit_run_is_domain_error() {
    let mut state = new_state();
    let r = eval("99999999999999999999999999999999", &mut state);
    assert_eq!(r, Err(Signal::Error(EvalError::Domain)));
}
