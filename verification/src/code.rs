//! The cell model: what one slot of the program store can hold, what an
//! instruction can ask of the loop that drives it, and how a step can fail.

use vstd::prelude::*;

verus! {

/// One slot of the program store: inert data, or one instruction. The fields
/// of an instruction are addresses of cells, except where its variant says
/// otherwise.
#[derive(Debug, Clone, Copy, PartialEq, Eq, Structural)]
pub enum Code {
    /// An inert placeholder.
    Nop,
    /// An integer.
    IntData(usize),
    /// A character.
    CharData(char),
    /// Turns the integer at the address held by the named cell into the
    /// character of that code, or the character there into its code.
    FlipType(usize),
    /// Continues at the given address, which is taken as it stands.
    Jump(usize),
    /// Continues at the address held by the named cell.
    JumpAddr(usize),
    /// Compares two integers, left and right, and continues at one of three
    /// addresses: the third field names the one for less, the fourth the one
    /// for equal, the fifth the one for greater.
    JumpAddrCmp(usize, usize, usize, usize, usize),
    /// Exchanges the cells at the addresses held by the two named cells.
    Swap(usize, usize),
    /// Copies a cell, from the first operand to the second.
    Copy(usize, usize),
    /// Adds the left integer to the right one, in place of the right one.
    Add(usize, usize),
    /// Subtracts the right integer from the left one, in place of the right
    /// one.
    Sub(usize, usize),
    /// Multiplies the two integers, in place of the right one.
    Mul(usize, usize),
    /// Divides the left integer by the right one, in place of the right one.
    Div(usize, usize),
    /// Removes the cell at the address held by the named cell.
    Del(usize),
    /// Writes out the integer or character at the address held by the named
    /// cell.
    Print(usize),
    /// Ends the run with the given exit code, which is taken as it stands.
    Exit(i32),
}

/// What an instruction asks of the loop that drives it.
#[derive(Debug, Clone, Copy, PartialEq, Eq, Structural)]
pub enum Actions {
    /// Continue at this address.
    Jump(usize),
    /// End the run with this exit code.
    Exit(i32),
    /// Write the whole program back to its store.
    Sync,
}

/// Why an instruction could not be carried out.
#[derive(Debug, Clone, Copy, PartialEq, Eq, Structural)]
pub enum Fault {
    /// The address lies behind the last cell.
    OutOfRange(usize),
    /// The cell at the address is not of the kind that the instruction needs
    /// there.
    TypeMismatch(usize),
    /// The divisor of a division is zero.
    DivisionByZero,
}

} // verus!
