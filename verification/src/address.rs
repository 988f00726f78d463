//! Address resolution. An operand of an instruction is the address of a cell
//! that holds an integer, and that integer is the address meant: one reading
//! gives the address to write to or to jump to, a second one the cell that
//! stands there.

use vstd::prelude::*;
use crate::code::{Code, Fault};

verus! {

/// The cell at `addr`.
pub open spec fn cell_at(mem: Seq<Code>, addr: usize) -> Result<Code, Fault> {
    if addr < mem.len() {
        Ok(mem[addr as int])
    } else {
        Err(Fault::OutOfRange(addr))
    }
}

/// The integer that the cell at `addr` holds.
pub open spec fn address_at(mem: Seq<Code>, addr: usize) -> Result<usize, Fault> {
    match cell_at(mem, addr) {
        Ok(Code::IntData(i)) => Ok(i),
        Ok(_) => Err(Fault::TypeMismatch(addr)),
        Err(fault) => Err(fault),
    }
}

/// The cell at the address that the cell at `addr_addr` holds.
pub open spec fn value_at(mem: Seq<Code>, addr_addr: usize) -> Result<Code, Fault> {
    match address_at(mem, addr_addr) {
        Ok(addr) => cell_at(mem, addr),
        Err(fault) => Err(fault),
    }
}

/// The integer at the address that the cell at `addr_addr` holds.
pub open spec fn int_value_at(mem: Seq<Code>, addr_addr: usize) -> Result<usize, Fault> {
    match address_at(mem, addr_addr) {
        Ok(addr) => address_at(mem, addr),
        Err(fault) => Err(fault),
    }
}

/// Reads the cell at `addr`.
pub fn read_from_address(code: &Vec<Code>, addr: usize) -> (r: Result<&Code, Fault>)
    ensures
        match r {
            Ok(cell) => cell_at(code@, addr) == Ok::<Code, Fault>(*cell),
            Err(fault) => cell_at(code@, addr) == Err::<Code, Fault>(fault),
        },
{
    if addr < code.len() {
        Ok(&code[addr])
    } else {
        Err(Fault::OutOfRange(addr))
    }
}

/// Reads the integer that the cell at `int_at` holds.
pub fn read_int_from_address(code: &Vec<Code>, int_at: usize) -> (r: Result<usize, Fault>)
    ensures
        r == address_at(code@, int_at),
{
    match read_from_address(code, int_at)? {
        Code::IntData(value) => Ok(*value),
        _ => Err(Fault::TypeMismatch(int_at)),
    }
}

/// Reads the cell at the address that the cell at `addr_addr` holds.
pub fn read_from_address_address(code: &Vec<Code>, addr_addr: usize) -> (r: Result<&Code, Fault>)
    ensures
        match r {
            Ok(cell) => value_at(code@, addr_addr) == Ok::<Code, Fault>(*cell),
            Err(fault) => value_at(code@, addr_addr) == Err::<Code, Fault>(fault),
        },
{
    let addr: usize = read_int_from_address(code, addr_addr)?;
    read_from_address(code, addr)
}

/// Reads the integer at the address that the cell at `addr_addr` holds.
pub fn read_int_from_address_address(code: &Vec<Code>, addr_addr: usize) -> (r: Result<
    usize,
    Fault,
>)
    ensures
        r == int_value_at(code@, addr_addr),
{
    let addr: usize = read_int_from_address(code, addr_addr)?;
    read_int_from_address(code, addr)
}

} // verus!
