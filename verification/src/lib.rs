//! A stack-based (reverse Polish notation) expression interpreter in the
//! tradition of `dc`: a character-driven state machine that tokenizes and
//! executes simultaneously against an operand stack and a register table,
//! with exact decimal arithmetic, string literals usable as macros, and
//! named commands.

pub mod dec;
pub mod eval;
pub mod laws;
pub mod regs;
pub mod sem;
pub mod value;

pub use dec::Dec;
