//! Permission modes: symbolic rendering, octal rendering, octal parsing,
//! and the law that the octal display recovers the low permission bits.

use vstd::prelude::*;
use vstd::string::StrSliceExecFns;
use vstd::string::StringExecFns;
use crate::text::digit_char;

verus! {

/// The octal digits of `n`, most significant first, with no leading zeros.
pub open spec fn oct_seq(n: nat) -> Seq<char>
    decreases n,
{
    if n < 8 {
        seq![digit_char(n)]
    } else {
        oct_seq(n / 8).push(digit_char(n % 8))
    }
}

/// The value of one octal digit character; eight marks a non-digit.
pub open spec fn oct_digit_val(c: char) -> nat {
    if c == '0' {
        0
    } else if c == '1' {
        1
    } else if c == '2' {
        2
    } else if c == '3' {
        3
    } else if c == '4' {
        4
    } else if c == '5' {
        5
    } else if c == '6' {
        6
    } else if c == '7' {
        7
    } else {
        8
    }
}

/// Whether every character of `s` is an octal digit.
pub open spec fn is_oct_digits(s: Seq<char>) -> bool {
    forall|i: int| 0 <= i < s.len() ==> oct_digit_val(#[trigger] s[i]) < 8
}

/// The numeric value of a sequence of octal digit characters.
pub open spec fn oct_val(s: Seq<char>) -> nat
    decreases s.len(),
{
    if s.len() == 0 {
        0
    } else {
        oct_val(s.drop_last()) * 8 + oct_digit_val(s.last())
    }
}

/// Reading the octal digits of `n` back yields `n`: the octal rendering
/// loses nothing, and it is made of octal digits only.
pub proof fn lemma_oct_val_oct_seq(n: nat)
    ensures
        oct_val(oct_seq(n)) == n,
        is_oct_digits(oct_seq(n)),
        oct_seq(n).len() >= 1,
    decreases n,
{
    if n < 8 {
        assert(oct_digit_val(digit_char(n)) == n);
        assert(oct_val(Seq::<char>::empty()) == 0);
        assert(oct_seq(n).drop_last() =~= Seq::<char>::empty());
        assert(oct_seq(n).last() == digit_char(n));
    } else {
        lemma_oct_val_oct_seq(n / 8);
        assert(oct_digit_val(digit_char(n % 8)) == n % 8);
        assert(oct_seq(n).drop_last() =~= oct_seq(n / 8));
        assert(oct_seq(n).last() == digit_char(n % 8));
        assert(oct_val(oct_seq(n)) == (n / 8) * 8 + n % 8);
        vstd::arithmetic::div_mod::lemma_fundamental_div_mod(n as int, 8);
    }
}

/// A value prefix of an octal digit string never exceeds the whole.
proof fn lemma_oct_val_take_le(s: Seq<char>, i: int)
    requires
        0 <= i <= s.len(),
    ensures
        oct_val(s.take(i)) <= oct_val(s),
    decreases s.len() - i,
{
    if i == s.len() {
        assert(s.take(i) =~= s);
    } else {
        lemma_oct_val_take_le(s, i + 1);
        assert(s.take(i + 1).drop_last() =~= s.take(i));
        assert(oct_val(s.take(i + 1)) == oct_val(s.take(i)) * 8 + oct_digit_val(s.take(i + 1).last()));
    }
}

/// The octal rendering of `n`.
pub fn octal_string(n: u32) -> (r: String)
    ensures
        r@ == oct_seq(n as nat),
    decreases n,
{
    if n < 8 {
        String::from_str(crate::text::digit_str(n as u64))
    } else {
        let mut s = octal_string(n / 8);
        s.append(crate::text::digit_str((n % 8) as u64));
        proof {
            assert(s@ =~= oct_seq(n as nat));
        }
        s
    }
}

/// The value of one octal digit character; eight marks a non-digit.
fn oct_digit_of(c: char) -> (d: u8)
    ensures
        d as nat == oct_digit_val(c),
{
    match c {
        '0' => 0,
        '1' => 1,
        '2' => 2,
        '3' => 3,
        '4' => 4,
        '5' => 5,
        '6' => 6,
        '7' => 7,
        _ => 8,
    }
}

/// Parses a string of octal digits. Returns the value exactly when the
/// string is non-empty, holds octal digits only, and its value fits.
pub fn parse_octal(s: &str) -> (r: Option<u32>)
    ensures
        (r is Some) == (s@.len() > 0 && is_oct_digits(s@) && oct_val(s@) <= u32::MAX),
        r matches Some(v) ==> v as nat == oct_val(s@),
{
    let len = s.unicode_len();
    if len == 0 {
        return None;
    }
    let mut acc: u32 = 0;
    let mut i: usize = 0;
    proof {
        assert(s@.take(0) =~= Seq::<char>::empty());
    }
    while i < len
        invariant
            0 <= i <= len,
            len == s@.len(),
            acc as nat == oct_val(s@.take(i as int)),
            is_oct_digits(s@.take(i as int)),
        decreases len - i,
    {
        let c = s.get_char(i);
        let d = oct_digit_of(c);
        proof {
            assert(s@.take(i as int + 1).drop_last() =~= s@.take(i as int));
            assert(s@.take(i as int + 1).last() == s@[i as int]);
        }
        if d >= 8 {
            proof {
                assert(oct_digit_val(s@[i as int]) >= 8);
                assert(!is_oct_digits(s@));
            }
            return None;
        }
        let next: u64 = (acc as u64) * 8 + (d as u64);
        if next > u32::MAX as u64 {
            proof {
                assert(oct_val(s@.take(i as int + 1)) == acc as nat * 8 + d as nat);
                lemma_oct_val_take_le(s@, i as int + 1);
            }
            return None;
        }
        acc = next as u32;
        proof {
            assert(forall|k: int|
                0 <= k < i as int + 1 ==> oct_digit_val(#[trigger] s@.take(i as int + 1)[k]) < 8);
        }
        i = i + 1;
    }
    proof {
        assert(s@.take(len as int) =~= s@);
    }
    Some(acc)
}

/// The permission mode of one filesystem object.
#[derive(Clone, Copy, Debug, PartialEq, Eq, Structural)]
pub struct UnixPermissions {
    pub mode: u32,
}

/// The nine-character symbolic rendering of a permission mode: read, write
/// and execute for owner, group and others, a dash for each missing bit.
pub open spec fn sym_seq(mode: u32) -> Seq<char> {
    seq![
        if mode & 0o400 != 0 { 'r' } else { '-' },
        if mode & 0o200 != 0 { 'w' } else { '-' },
        if mode & 0o100 != 0 { 'x' } else { '-' },
        if mode & 0o040 != 0 { 'r' } else { '-' },
        if mode & 0o020 != 0 { 'w' } else { '-' },
        if mode & 0o010 != 0 { 'x' } else { '-' },
        if mode & 0o004 != 0 { 'r' } else { '-' },
        if mode & 0o002 != 0 { 'w' } else { '-' },
        if mode & 0o001 != 0 { 'x' } else { '-' },
    ]
}

/// One read-write-execute triad of the symbolic rendering.
fn rwx_string(r: bool, w: bool, x: bool) -> (s: String)
    ensures
        s@ =~= seq![
            if r { 'r' } else { '-' },
            if w { 'w' } else { '-' },
            if x { 'x' } else { '-' },
        ],
{
    proof {
        reveal_strlit("r");
        reveal_strlit("w");
        reveal_strlit("x");
        reveal_strlit("-");
    }
    let mut s = String::new();
    if r {
        s.append("r");
    } else {
        s.append("-");
    }
    if w {
        s.append("w");
    } else {
        s.append("-");
    }
    if x {
        s.append("x");
    } else {
        s.append("-");
    }
    proof {
        assert(s@ =~= seq![
            if r { 'r' } else { '-' },
            if w { 'w' } else { '-' },
            if x { 'x' } else { '-' },
        ]);
    }
    s
}

impl UnixPermissions {
    /// Wraps a raw permission mode.
    pub fn from(mode: u32) -> (p: UnixPermissions)
        ensures
            p.mode == mode,
    {
        UnixPermissions { mode }
    }

    /// The symbolic rendering of the mode.
    pub fn as_string(&self) -> (r: String)
        ensures
            r@ == sym_seq(self.mode),
    {
        let mut s = rwx_string(
            self.mode & 0o400 != 0,
            self.mode & 0o200 != 0,
            self.mode & 0o100 != 0,
        );
        let group = rwx_string(
            self.mode & 0o040 != 0,
            self.mode & 0o020 != 0,
            self.mode & 0o010 != 0,
        );
        let other = rwx_string(
            self.mode & 0o004 != 0,
            self.mode & 0o002 != 0,
            self.mode & 0o001 != 0,
        );
        s.append(group.as_str());
        s.append(other.as_str());
        proof {
            assert(s@ =~= sym_seq(self.mode));
        }
        s
    }

    /// The low permission bits of the mode, the value the octal display shows.
    pub fn as_bits_sum(&self) -> (r: u32)
        ensures
            r == self.mode & 0o777,
    {
        self.mode & 0o777
    }

    /// The octal rendering of the low permission bits.
    pub fn as_octal_string(&self) -> (r: String)
        ensures
            r@ == oct_seq((self.mode & 0o777) as nat),
    {
        octal_string(self.as_bits_sum())
    }
}

/// Formatting a mode to its octal display and parsing the digits back
/// recovers the mode's low permission bits.
pub proof fn lemma_octal_round_trip(mode: u32)
    ensures
        oct_val(oct_seq((mode & 0o777) as nat)) == (mode & 0o777) as nat,
        is_oct_digits(oct_seq((mode & 0o777) as nat)),
        oct_seq((mode & 0o777) as nat).len() >= 1,
        mode & 0o777 <= 0o777,
{
    lemma_oct_val_oct_seq((mode & 0o777) as nat);
    assert(mode & 0o777 <= 0o777) by (bit_vector);
}

} // verus!
