//! Decimal numbers grouped in threes, as the report's index column shows them.

use vstd::prelude::*;
use vstd::string::StringExecFns;
use crate::text::dec_seq;
use crate::text::dec_string;

verus! {

/// One group of up to three digits, zero-padded on the left to width three.
pub open spec fn triple_seq(m: nat) -> Seq<char> {
    if m < 10 {
        seq!['0', '0'] + dec_seq(m)
    } else if m < 100 {
        seq!['0'] + dec_seq(m)
    } else {
        dec_seq(m)
    }
}

/// The digits of `n`, grouped in threes with comma separators.
pub open spec fn grouped_seq(n: nat) -> Seq<char>
    decreases n,
{
    if n < 1000 {
        dec_seq(n)
    } else {
        grouped_seq(n / 1000) + seq![','] + triple_seq(n % 1000)
    }
}

/// Renders numbers with grouped digits.
pub struct NumberFormatter {}

impl NumberFormatter {
    /// The grouped decimal rendering of `n`.
    pub fn format_u32(n: u32) -> (r: String)
        ensures
            r@ == grouped_seq(n as nat),
        decreases n,
    {
        if n < 1000 {
            dec_string(n as u64)
        } else {
            let mut s = NumberFormatter::format_u32(n / 1000);
            s.append(",");
            let m = n % 1000;
            if m < 10 {
                s.append("00");
            } else if m < 100 {
                s.append("0");
            }
            let digits = dec_string(m as u64);
            s.append(digits.as_str());
            proof {
                reveal_strlit(",");
                reveal_strlit("00");
                reveal_strlit("0");
                assert(s@ =~= grouped_seq(n as nat));
            }
            s
        }
    }
}

} // verus!
