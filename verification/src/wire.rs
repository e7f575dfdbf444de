//! Helpers for the fixed big-endian wire format: reading fixed-width integers
//! and booleans back out of byte slices. These are the run-time counterparts
//! of the code the generators emit.

use vstd::prelude::*;

verus! {

/// The unsigned value of two big-endian bytes.
pub open spec fn be_u16(b0: u8, b1: u8) -> int {
    b0 * 0x100 + b1
}

/// The unsigned value of four big-endian bytes.
pub open spec fn be_u32(b0: u8, b1: u8, b2: u8, b3: u8) -> int {
    b0 * 0x1000000 + b1 * 0x10000 + b2 * 0x100 + b3
}

/// Reinterpret an 8-bit unsigned value as two's complement.
pub open spec fn as_signed_8(v: int) -> int {
    if v < 0x80 {
        v
    } else {
        v - 0x100
    }
}

/// Reinterpret a 16-bit unsigned value as two's complement.
pub open spec fn as_signed_16(v: int) -> int {
    if v < 0x8000 {
        v
    } else {
        v - 0x10000
    }
}

/// Reinterpret a 32-bit unsigned value as two's complement.
pub open spec fn as_signed_32(v: int) -> int {
    if v < 0x80000000 {
        v
    } else {
        v - 0x100000000
    }
}

pub fn from_be_bytes_u8(a: &[u8]) -> (r: Result<u8, &str>)
    ensures
        a@.len() == 1 ==> r == Ok::<u8, &str>(a@[0]),
        a@.len() != 1 ==> r is Err && r->Err_0@ == "The length must be 1."@,
{
    match a.len() {
        1 => Ok(a[0]),
        _ => Err("The length must be 1."),
    }
}

pub fn from_be_bytes_u16(a: &[u8]) -> (r: Result<u16, &str>)
    ensures
        a@.len() == 2 ==> r is Ok && r->Ok_0 == be_u16(a@[0], a@[1]),
        a@.len() != 2 ==> r is Err && r->Err_0@ == "The length must be 2."@,
{
    match a.len() {
        2 => Ok((a[0] as u16) * 0x100 + (a[1] as u16)),
        _ => Err("The length must be 2."),
    }
}

pub fn from_be_bytes_u32(a: &[u8]) -> (r: Result<u32, &str>)
    ensures
        a@.len() == 4 ==> r is Ok && r->Ok_0 == be_u32(a@[0], a@[1], a@[2], a@[3]),
        a@.len() != 4 ==> r is Err && r->Err_0@ == "The length must be 4."@,
{
    match a.len() {
        4 => Ok(
            (a[0] as u32) * 0x1000000 + (a[1] as u32) * 0x10000 + (a[2] as u32) * 0x100 + (
            a[3] as u32),
        ),
        _ => Err("The length must be 4."),
    }
}

pub fn from_be_bytes_i8(a: &[u8]) -> (r: Result<i8, &str>)
    ensures
        a@.len() == 1 ==> r is Ok && r->Ok_0 == as_signed_8(a@[0] as int),
        a@.len() != 1 ==> r is Err && r->Err_0@ == "The length must be 1."@,
{
    match a.len() {
        1 => {
            let v = a[0];
            if v < 0x80 {
                Ok(v as i8)
            } else {
                Ok(-((0xff - v) as i8) - 1)
            }
        },
        _ => Err("The length must be 1."),
    }
}

pub fn from_be_bytes_i16(a: &[u8]) -> (r: Result<i16, &str>)
    ensures
        a@.len() == 2 ==> r is Ok && r->Ok_0 == as_signed_16(be_u16(a@[0], a@[1])),
        a@.len() != 2 ==> r is Err && r->Err_0@ == "The length must be 2."@,
{
    match a.len() {
        2 => {
            let v = (a[0] as u16) * 0x100 + (a[1] as u16);
            if v < 0x8000 {
                Ok(v as i16)
            } else {
                Ok(-((0xffff - v) as i16) - 1)
            }
        },
        _ => Err("The length must be 2."),
    }
}

pub fn from_be_bytes_i32(a: &[u8]) -> (r: Result<i32, &str>)
    ensures
        a@.len() == 4 ==> r is Ok && r->Ok_0 == as_signed_32(be_u32(a@[0], a@[1], a@[2], a@[3])),
        a@.len() != 4 ==> r is Err && r->Err_0@ == "The length must be 4."@,
{
    match a.len() {
        4 => {
            let v = (a[0] as u32) * 0x1000000 + (a[1] as u32) * 0x10000 + (a[2] as u32) * 0x100 + (
            a[3] as u32);
            if v < 0x80000000 {
                Ok(v as i32)
            } else {
                Ok(-((0xffffffff - v) as i32) - 1)
            }
        },
        _ => Err("The length must be 4."),
    }
}

pub fn from_be_bytes_bool(a: &[u8]) -> (r: Result<bool, &str>)
    ensures
        a@.len() == 1 ==> r == Ok::<bool, &str>(a@[0] != 0),
        a@.len() != 1 ==> r is Err && r->Err_0@ == "The length must be 1."@,
{
    match a.len() {
        1 => Ok(a[0] != 0),
        _ => Err("The length must be 1."),
    }
}

} // verus!
