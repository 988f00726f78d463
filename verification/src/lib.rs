//! A small virtual machine whose program store is also its data memory: a
//! flat sequence of cells that the running program reads, overwrites, grows,
//! shrinks and reinterprets, and that is written back as text whenever an
//! instruction asks for it.
//!
//! - [`code`]: the cells, the actions that an instruction can ask for, and
//!   the faults that can end a run.
//! - [`address`]: how an operand names an address, and an address a cell.
//! - [`instruction`]: what each instruction does.
//! - [`program`]: the loop that drives a program, one step at a time.
//! - [`present`] and [`parse`]: the text of a program, written and read.
//! - [`text`]: decimal notation, splitting and joining.
//! - [`laws`] and [`round_trip`]: what holds of every store and every text.

pub mod address;
pub mod code;
pub mod instruction;
pub mod laws;
pub mod parse;
pub mod present;
pub mod program;
pub mod round_trip;
pub mod text;
