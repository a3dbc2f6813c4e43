//! Time record exchanged with the virtual machine's firmware.
use vstd::prelude::*;

verus! {

/// A calendar time as firmware reports it.
#[derive(Clone, Copy, Debug, PartialEq, Eq, Structural)]
pub struct EfiTime {
    pub year: u16,
    pub month: u8,
    pub day: u8,
    pub hour: u8,
    pub minute: u8,
    pub second: u8,
    pub pad1: u8,
    pub nanosecond: u32,
    /// Offset from UTC in minutes.
    pub timezone: i16,
    pub daylight: u8,
    pub pad2: u8,
}

/// A firmware time query's answer: a status code and the time.
#[derive(Clone, Copy, Debug, PartialEq, Eq, Structural)]
pub struct VmEfiTime {
    pub status: u64,
    pub time: EfiTime,
}

} // verus!
