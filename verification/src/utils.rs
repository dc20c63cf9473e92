//! Formatting helpers for reporting consumers.

use vstd::prelude::*;

use crate::strutil::{dec_seq, digit_char, u64_to_string};

verus! {

/// `num / den` rounded to the nearest integer, ties to even.
pub open spec fn spec_round_half_even(num: int, den: int) -> int
    recommends
        num >= 0,
        den >= 1,
{
    let q = num / den;
    let r = num % den;
    if 2 * r < den {
        q
    } else if 2 * r > den {
        q + 1
    } else if q % 2 == 0 {
        q
    } else {
        q + 1
    }
}

/// The size in hundredths of a unit, rounded to nearest (ties to even).
pub open spec fn spec_scaled_hundredths(bytes: u64, unit: u64) -> int
    recommends
        unit >= 1,
{
    spec_round_half_even(bytes as int * 100, unit as int)
}

/// A size rendered over a unit: the whole number of units, a dot, and two
/// fraction digits, the value rounded to the nearest hundredth of a unit
/// (ties to even, zero-padded).
pub open spec fn spec_size_scaled(bytes: u64, unit: u64) -> Seq<char>
    recommends
        unit >= 1,
{
    let h = spec_scaled_hundredths(bytes, unit);
    dec_seq(h / 100) + seq!['.', digit_char(h / 10 % 10), digit_char(h % 10)]
}

/// The human-readable rendering of a byte count: the count itself below one
/// kibibyte, otherwise the size over the largest binary unit not exceeding
/// it, with two digits of fraction.
pub open spec fn spec_format_file_size(bytes: u64) -> Seq<char> {
    if bytes < 1024 {
        dec_seq(bytes as int) + seq![' ', 'B']
    } else if bytes < 1048576 {
        spec_size_scaled(bytes, 1024) + seq![' ', 'K', 'B']
    } else if bytes < 1073741824 {
        spec_size_scaled(bytes, 1048576) + seq![' ', 'M', 'B']
    } else if bytes < 1099511627776 {
        spec_size_scaled(bytes, 1073741824) + seq![' ', 'G', 'B']
    } else if bytes < 1125899906842624 {
        spec_size_scaled(bytes, 1099511627776) + seq![' ', 'T', 'B']
    } else {
        spec_size_scaled(bytes, 1125899906842624) + seq![' ', 'P', 'B']
    }
}

/// Renders a size over a unit with two fraction digits, rounded to nearest
/// (ties to even).
fn size_scaled(bytes: u64, unit: u64) -> (r: String)
    requires
        1024 <= unit <= 1125899906842624,
    ensures
        r@ == spec_size_scaled(bytes, unit),
{
    let num: u128 = (bytes as u128) * 100;
    let den: u128 = unit as u128;
    let q: u128 = num / den;
    let rem: u128 = num % den;
    let h128: u128 = if 2 * rem > den || (2 * rem == den && q % 2 == 1) {
        q + 1
    } else {
        q
    };
    proof {
        assert(h128 == spec_scaled_hundredths(bytes, unit));
        vstd::arithmetic::div_mod::lemma_div_is_ordered_by_denominator(
            num as int,
            1024,
            den as int,
        );
        vstd::arithmetic::div_mod::lemma_multiply_divide_lt(
            num as int,
            1024,
            0x2000000000000000,
        );
        assert(q < 0x2000000000000000);
    }
    let h: u64 = h128 as u64;
    let whole: u64 = h / 100;
    let d1: u64 = h / 10 % 10;
    let d2: u64 = h % 10;
    let mut s = u64_to_string(whole);
    proof {
        reveal_strlit(".");
    }
    s.append(".");
    s.append(crate::strutil::digit_str(d1));
    s.append(crate::strutil::digit_str(d2));
    proof {
        assert("."@ =~= seq!['.']);
        assert(s@ =~= spec_size_scaled(bytes, unit));
    }
    s
}

/// Formats a file size in bytes into a human-readable string in the most
/// appropriate binary unit (B, KB, MB, GB, TB, or PB), with two fraction
/// digits, rounded to nearest (ties to even), for every unit above plain
/// bytes.
pub fn format_file_size(bytes: u64) -> (r: String)
    ensures
        r@ == spec_format_file_size(bytes),
{
    if bytes < 1024 {
        let mut s = u64_to_string(bytes);
        proof {
            reveal_strlit(" B");
        }
        s.append(" B");
        proof {
            assert(" B"@ =~= seq![' ', 'B']);
            assert(s@ =~= spec_format_file_size(bytes));
        }
        s
    } else if bytes < 1048576 {
        let mut s = size_scaled(bytes, 1024);
        proof {
            reveal_strlit(" KB");
        }
        s.append(" KB");
        proof {
            assert(" KB"@ =~= seq![' ', 'K', 'B']);
            assert(s@ =~= spec_format_file_size(bytes));
        }
        s
    } else if bytes < 1073741824 {
        let mut s = size_scaled(bytes, 1048576);
        proof {
            reveal_strlit(" MB");
        }
        s.append(" MB");
        proof {
            assert(" MB"@ =~= seq![' ', 'M', 'B']);
            assert(s@ =~= spec_format_file_size(bytes));
        }
        s
    } else if bytes < 1099511627776 {
        let mut s = size_scaled(bytes, 1073741824);
        proof {
            reveal_strlit(" GB");
        }
        s.append(" GB");
        proof {
            assert(" GB"@ =~= seq![' ', 'G', 'B']);
            assert(s@ =~= spec_format_file_size(bytes));
        }
        s
    } else if bytes < 1125899906842624 {
        let mut s = size_scaled(bytes, 1099511627776);
        proof {
            reveal_strlit(" TB");
        }
        s.append(" TB");
        proof {
            assert(" TB"@ =~= seq![' ', 'T', 'B']);
            assert(s@ =~= spec_format_file_size(bytes));
        }
        s
    } else {
        let mut s = size_scaled(bytes, 1125899906842624);
        proof {
            reveal_strlit(" PB");
        }
        s.append(" PB");
        proof {
            assert(" PB"@ =~= seq![' ', 'P', 'B']);
            assert(s@ =~= spec_format_file_size(bytes));
        }
        s
    }
}

} // verus!
