//! The deterministic file name of a segment: its base offset zero-padded to
//! twenty decimal digits, a `.log` extension, and an optional suffix.

use vstd::prelude::*;

verus! {

pub assume_specification[ String::push ](s: &mut String, ch: char)
    ensures
        final(s)@ == old(s)@.push(ch),
;

pub assume_specification[ String::push_str ](s: &mut String, other: &str)
    ensures
        final(s)@ == old(s)@ + other@,
;

/// Characters of `n` written in decimal, zero-padded on the left to `width`
/// digits; the least significant digit comes last. Only the lowest `width`
/// decimal digits of `n` appear.
pub open spec fn padded_decimal(n: int, width: nat) -> Seq<char>
    recommends
        0 <= n,
    decreases width,
{
    if width == 0 {
        Seq::empty()
    } else {
        padded_decimal(n / 10, (width - 1) as nat).push(((48 + n % 10) as u8) as char)
    }
}

/// The file name of the segment with the given base offset and suffix.
pub open spec fn spec_segment_file_name(base_offset: int, suffix: Seq<char>) -> Seq<char> {
    padded_decimal(base_offset, 20) + ".log"@ + suffix
}

/// Appends the decimal digits of `n`, zero-padded on the left to `width`
/// digits, to `s`.
fn push_padded_decimal(s: &mut String, n: usize, width: usize)
    ensures
        final(s)@ == old(s)@ + padded_decimal(n as int, width as nat),
    decreases width,
{
    if width == 0 {
        proof {
            assert(old(s)@ + padded_decimal(n as int, 0) =~= old(s)@);
        }
    } else {
        push_padded_decimal(s, n / 10, width - 1);
        let d: u8 = 48 + (n % 10) as u8;
        s.push(d as char);
        proof {
            assert(old(s)@ + padded_decimal(n as int, width as nat) =~= (old(s)@
                + padded_decimal(n as int / 10, (width - 1) as nat)).push(d as char));
        }
    }
}

/// The segment's file name: `base_offset` zero-padded to twenty decimal
/// digits, then `.log`, then the given suffix.
pub fn segment_file_name(base_offset: usize, suffix: &str) -> (name: String)
    ensures
        name@ == spec_segment_file_name(base_offset as int, suffix@),
{
    let mut name = String::new();
    push_padded_decimal(&mut name, base_offset, 20);
    name.push_str(".log");
    name.push_str(suffix);
    proof {
        assert(name@ =~= spec_segment_file_name(base_offset as int, suffix@));
    }
    name
}

} // verus!
