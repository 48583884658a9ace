//! Sequence numbers: sixteen bits that wrap, compared by their signed
//! difference.

use vstd::prelude::*;

verus! {

/// The sequence number after `s`, wrapping from 65535 to 0.
pub open spec fn spec_next_sequence(s: u16) -> u16 {
    if s == 0xffff {
        0
    } else {
        (s + 1) as u16
    }
}

/// The sequence number `back` steps before `s`, modulo 65536.
pub open spec fn spec_earlier_sequence(s: u16, back: int) -> u16 {
    ((s - back) % 0x1_0000) as u16
}

/// How far `to` lies after `from`, as a signed 16-bit difference modulo
/// 65536: positive when `to` is newer, negative when it is older.
pub open spec fn spec_sequence_delta(from: u16, to: u16) -> int {
    let d = (to - from) % 0x1_0000;
    if d >= 0x8000 {
        d - 0x1_0000
    } else {
        d
    }
}

/// The distance from the last delivered sequence number to the newest one.
/// Before anything was delivered the newest packet counts as the next one.
pub open spec fn spec_gap(last: Option<u16>, newest: u16) -> int {
    match last {
        Some(last) => spec_sequence_delta(last, newest),
        None => 1,
    }
}

/// How many of `available` embedded packets, counted from the newest, hold
/// audio that was not delivered yet.
pub open spec fn spec_pending(last: Option<u16>, newest: u16, available: int) -> int {
    let gap = spec_gap(last, newest);
    if gap <= 0 {
        0
    } else if gap < available {
        gap
    } else {
        available
    }
}

pub fn next_sequence(s: u16) -> (next: u16)
    ensures
        next == spec_next_sequence(s),
{
    if s == 0xffff {
        0
    } else {
        s + 1
    }
}

pub fn sequence_delta(from: u16, to: u16) -> (delta: i16)
    ensures
        delta == spec_sequence_delta(from, to),
{
    let raw: i32 = to as i32 - from as i32;
    let d: i32 = if raw < 0 {
        raw + 0x1_0000
    } else {
        raw
    };
    if d >= 0x8000 {
        (d - 0x1_0000) as i16
    } else {
        d as i16
    }
}

pub fn pending(last: Option<u16>, newest: u16, available: usize) -> (count: usize)
    ensures
        count == spec_pending(last, newest, available as int),
{
    let gap: i16 = match last {
        Some(last) => sequence_delta(last, newest),
        None => 1,
    };
    if gap <= 0 {
        0
    } else if (gap as usize) < available {
        gap as usize
    } else {
        available
    }
}

/// The successor of a sequence number is exactly one step newer, also across
/// the wrap from 65535 to 0.
pub proof fn lemma_successor_is_newer(s: u16)
    ensures
        spec_sequence_delta(s, spec_next_sequence(s)) == 1,
        spec_earlier_sequence(spec_next_sequence(s), 1) == s,
{
}

} // verus!
