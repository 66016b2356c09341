//! Byte counts rendered with a human-friendly unit scale.

use vstd::prelude::*;
use vstd::string::StringExecFns;
use crate::text::dec_seq;
use crate::text::dec_string;
use crate::text::digit_char;
use crate::text::digit_str;

verus! {

pub const KILOBYTE: u64 = 1024;

pub const MEGABYTE: u64 = 1024 * 1024;

pub const GIGABYTE: u64 = 1024 * 1024 * 1024;

pub const TERABYTE: u64 = 1024 * 1024 * 1024 * 1024;

pub const PETABYTE: u64 = 1024 * 1024 * 1024 * 1024 * 1024;

pub const EXABYTE: u64 = 1024 * 1024 * 1024 * 1024 * 1024 * 1024;

/// `b` scaled down by `unit`, with one truncated decimal digit.
pub open spec fn scaled_seq(b: nat, unit: nat) -> Seq<char>
    recommends
        unit > 0,
{
    dec_seq(b / unit) + seq!['.'] + seq![digit_char((b % unit) * 10 / unit)]
}

/// The human-scaled rendering of a byte count: plain bytes below one
/// kilobyte, otherwise one truncated decimal under the largest unit
/// the count reaches.
pub open spec fn size_seq(b: nat) -> Seq<char> {
    if b < KILOBYTE {
        dec_seq(b) + seq!['B']
    } else if b < MEGABYTE {
        scaled_seq(b, KILOBYTE as nat) + seq!['K']
    } else if b < GIGABYTE {
        scaled_seq(b, MEGABYTE as nat) + seq!['M']
    } else if b < TERABYTE {
        scaled_seq(b, GIGABYTE as nat) + seq!['G']
    } else if b < PETABYTE {
        scaled_seq(b, TERABYTE as nat) + seq!['T']
    } else if b < EXABYTE {
        scaled_seq(b, PETABYTE as nat) + seq!['P']
    } else {
        scaled_seq(b, EXABYTE as nat) + seq!['E']
    }
}

/// Renders `b` scaled down by `unit` with one truncated decimal digit.
fn scaled_string(b: u64, unit: u64) -> (r: String)
    requires
        0 < unit <= EXABYTE,
    ensures
        r@ == scaled_seq(b as nat, unit as nat),
{
    let whole = b / unit;
    let rem = b % unit;
    proof {
        assert(rem < unit);
        assert((rem as int) * 10 <= ((EXABYTE - 1) as int) * 10);
        assert((rem as int) * 10 / (unit as int) < 10) by (nonlinear_arith)
            requires
                rem < unit,
                0 < unit,
        ;
    }
    let tenth = rem * 10 / unit;
    let mut s = dec_string(whole);
    s.append(".");
    s.append(digit_str(tenth));
    proof {
        reveal_strlit(".");
        assert(s@ =~= scaled_seq(b as nat, unit as nat));
    }
    s
}

/// A byte count together with its human-scaled rendering.
#[derive(Clone, Copy, Debug, PartialEq, Eq, Structural)]
pub struct DigitalSize {
    pub bytes: u64,
}

impl DigitalSize {
    /// Wraps a raw byte count.
    pub fn from(bytes: u64) -> (s: DigitalSize)
        ensures
            s.bytes == bytes,
    {
        DigitalSize { bytes }
    }

    /// The human-scaled rendering of the byte count.
    pub fn as_string(&self) -> (r: String)
        ensures
            r@ == size_seq(self.bytes as nat),
    {
        let b = self.bytes;
        let (mut s, unit_mark): (String, &'static str) = if b < KILOBYTE {
            (dec_string(b), "B")
        } else if b < MEGABYTE {
            (scaled_string(b, KILOBYTE), "K")
        } else if b < GIGABYTE {
            (scaled_string(b, MEGABYTE), "M")
        } else if b < TERABYTE {
            (scaled_string(b, GIGABYTE), "G")
        } else if b < PETABYTE {
            (scaled_string(b, TERABYTE), "T")
        } else if b < EXABYTE {
            (scaled_string(b, PETABYTE), "P")
        } else {
            (scaled_string(b, EXABYTE), "E")
        };
        s.append(unit_mark);
        proof {
            reveal_strlit("B");
            reveal_strlit("K");
            reveal_strlit("M");
            reveal_strlit("G");
            reveal_strlit("T");
            reveal_strlit("P");
            reveal_strlit("E");
            assert(s@ =~= size_seq(b as nat));
        }
        s
    }
}

} // verus!
