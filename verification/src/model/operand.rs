//! How DICTs and CharStrings spell integers.
//!
//! An operand starts with a byte that tells its form. Four forms are
//! common to DICTs and CharStrings: one byte for -107 to 107, two bytes
//! for 108 to 1131 and for -1131 to -108, and three bytes (lead 28) for
//! any 16-bit integer. A CharString has a fifth, lead 255: a 16.16
//! fixed-point number, of which only the integer part is kept. A DICT has
//! lead 29 instead: a 32-bit integer.

use vstd::prelude::*;

use crate::util::{i16_at, i32_at};

verus! {

/// Whether `b0` starts an operand in one of the four common forms.
pub open spec fn is_short_lead(b0: u8) -> bool {
    b0 == 28 || 32 <= b0 <= 254
}

/// How many bytes follow the lead `b0` of an operand in a common form.
pub open spec fn short_tail(b0: u8) -> int {
    if b0 == 28 {
        2
    } else if b0 <= 246 {
        0
    } else {
        1
    }
}

/// The operand in a common form whose lead is `b0` and whose other bytes
/// start at `s[at]`.
pub open spec fn short_value(b0: u8, s: Seq<u8>, at: int) -> int {
    if b0 == 28 {
        i16_at(s, at)
    } else if b0 <= 246 {
        b0 - 139
    } else if b0 <= 250 {
        (b0 - 247) * 256 + s[at] + 108
    } else {
        -(b0 - 251) * 256 - s[at] - 108
    }
}

/// The CharString operand with lead 255 whose other four bytes start at
/// `s[at]`: the integer part of a 16.16 fixed-point number, rounded down.
pub open spec fn fixed_value(s: Seq<u8>, at: int) -> int {
    i32_at(s, at) / 0x1_0000
}

/// The DICT operand with lead 29 whose other four bytes start at `s[at]`.
pub open spec fn long_value(s: Seq<u8>, at: int) -> int {
    i32_at(s, at)
}

/// The byte at place `place` of `v`, place 0 being the least significant,
/// in two's complement.
pub open spec fn byte_of(v: int, place: nat) -> u8
    decreases place,
{
    if place == 0 {
        (v % 256) as u8
    } else {
        byte_of(v / 256, (place - 1) as nat)
    }
}

/// The one-byte spelling of `v`, for -107 to 107.
pub open spec fn spell_small(v: int) -> Seq<u8> {
    seq![(v + 139) as u8]
}

/// The two-byte spelling of `v`, for 108 to 1131.
pub open spec fn spell_positive(v: int) -> Seq<u8> {
    seq![(247 + (v - 108) / 256) as u8, ((v - 108) % 256) as u8]
}

/// The two-byte spelling of `v`, for -1131 to -108.
pub open spec fn spell_negative(v: int) -> Seq<u8> {
    seq![(251 + (-v - 108) / 256) as u8, ((-v - 108) % 256) as u8]
}

/// The three-byte spelling of `v`, for any 16-bit integer.
pub open spec fn spell_i16(v: int) -> Seq<u8> {
    seq![28u8, byte_of(v, 1), byte_of(v, 0)]
}

/// The five-byte CharString spelling of the fixed-point number with
/// integer part `v`, a 16-bit integer, and fraction `fraction / 65536`.
pub open spec fn spell_fixed(v: int, fraction: int) -> Seq<u8> {
    seq![255u8, byte_of(v, 1), byte_of(v, 0), byte_of(fraction, 1), byte_of(fraction, 0)]
}

/// The five-byte DICT spelling of `v`, for any 32-bit integer.
pub open spec fn spell_i32(v: int) -> Seq<u8> {
    seq![29u8, byte_of(v, 3), byte_of(v, 2), byte_of(v, 1), byte_of(v, 0)]
}

/// Every integer in the range of a form is read back from its spelling
/// in that form.
pub proof fn lemma_spelling_reads_back(v: int, fraction: int)
    ensures
        -107 <= v <= 107 ==> {
            let s = spell_small(v);
            is_short_lead(s[0]) && short_tail(s[0]) == 0 && short_value(s[0], s, 1) == v
        },
        108 <= v <= 1131 ==> {
            let s = spell_positive(v);
            is_short_lead(s[0]) && short_tail(s[0]) == 1 && short_value(s[0], s, 1) == v
        },
        -1131 <= v <= -108 ==> {
            let s = spell_negative(v);
            is_short_lead(s[0]) && short_tail(s[0]) == 1 && short_value(s[0], s, 1) == v
        },
        -0x8000 <= v < 0x8000 ==> {
            let s = spell_i16(v);
            is_short_lead(s[0]) && short_tail(s[0]) == 2 && short_value(s[0], s, 1) == v
        },
        -0x8000 <= v < 0x8000 && 0 <= fraction < 0x1_0000 ==> fixed_value(
            spell_fixed(v, fraction),
            1,
        ) == v,
        -0x8000_0000 <= v < 0x8000_0000 ==> long_value(spell_i32(v), 1) == v,
{
    reveal_with_fuel(byte_of, 4);
    if -0x8000 <= v < 0x8000 {
        let s = spell_i16(v);
        assert(s[1] as int == (v / 256) % 256);
        assert(s[2] as int == v % 256);
        if 0 <= fraction < 0x1_0000 {
            let f = spell_fixed(v, fraction);
            assert(f[1] as int == (v / 256) % 256);
            assert(f[2] as int == v % 256);
            assert(f[3] as int == (fraction / 256) % 256);
            assert(f[4] as int == fraction % 256);
        }
    }
    if -0x8000_0000 <= v < 0x8000_0000 {
        let l = spell_i32(v);
        assert(l[1] as int == (v / 256 / 256 / 256) % 256);
        assert(l[2] as int == (v / 256 / 256) % 256);
        assert(l[3] as int == (v / 256) % 256);
        assert(l[4] as int == v % 256);
    }
}

} // verus!
