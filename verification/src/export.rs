//! What the export panel writes by itself: the size of a file as people read it.

use vstd::prelude::*;

use crate::double::{lemma_two_monotone_pub, lemma_two_pos_pub, lemma_whole_bound, nearest, nearest_double, two, whole, whole_of, P52};
use crate::footprint::{push_tenths, tenths_text};
use crate::text::{decimal, push_char, push_decimal};

verus! {

/// A size as `830 B`, `12.4 KB`, `3.1 MB`: kibibytes and mebibytes with one decimal, those of
/// the size as a double divided by 1024 or by 1024 × 1024, rounded half to even.
pub open spec fn human_bytes_spec(bytes: nat) -> Seq<char> {
    let b = nearest(bytes, 1);
    if bytes >= 1_048_576 {
        tenths_text(whole_of(b.0, b.1 - 20, 10)) + seq![' ', 'M', 'B']
    } else if bytes >= 1_024 {
        tenths_text(whole_of(b.0, b.1 - 10, 10)) + seq![' ', 'K', 'B']
    } else {
        decimal(bytes) + seq![' ', 'B']
    }
}

/// A size as `830 B`, `12.4 KB`, `3.1 MB`.
pub fn human_bytes(bytes: usize) -> (r: String)
    ensures
        r@ == human_bytes_spec(bytes as nat),
{
    let mut s = String::new();
    if bytes < 1_024 {
        push_decimal(&mut s, bytes as u64);
        push_char(&mut s, ' ');
        push_char(&mut s, 'B');
        proof {
            assert(s@ =~= human_bytes_spec(bytes as nat));
        }
        return s;
    }
    let (m, e) = nearest_double(bytes as u128, 1);
    proof {
        assert(two(13) == 8192) by {
            reveal_with_fuel(two, 14);
        }
        if e >= 13 {
            lemma_two_monotone_pub(13, e as nat);
            assert(two(e as nat) * P52 * 1 >= 8192 * P52) by (nonlinear_arith)
                requires
                    two(e as nat) >= 8192,
            ;
            assert(bytes as int <= usize::MAX);
            assert(false);
        }
        assert(e <= 12);
    }
    let shift: i32 = if bytes >= 1_048_576 { 20 } else { 10 };
    proof {
        if bytes < 1_048_576 && e >= 0 {
            // Under a mebibyte the exponent is below zero.
            lemma_two_pos_pub(e as nat);
            assert(two(e as nat) * P52 * 1 >= P52) by (nonlinear_arith)
                requires
                    two(e as nat) >= 1,
            ;
            assert(false);
        }
        if e < -52 {
            lemma_two_monotone_pub(53, (-e) as nat);
            assert(two(53) == 2 * P52) by {
                crate::double::lemma_two_step(52);
                crate::double::lemma_two_values();
            }
            assert(bytes * two((-e) as nat) >= 2 * P52) by (nonlinear_arith)
                requires
                    bytes >= 1,
                    two((-e) as nat) >= 2 * P52,
            ;
            assert(false);
        }
        assert(-113 <= e - shift <= 11);
        assert(e - shift < 0);
        lemma_whole_bound(m as nat, (e - shift) as int, 10);
    }
    let t = whole(m, e - shift, 10);
    push_tenths(&mut s, t);
    push_char(&mut s, ' ');
    if bytes >= 1_048_576 {
        push_char(&mut s, 'M');
    } else {
        push_char(&mut s, 'K');
    }
    push_char(&mut s, 'B');
    proof {
        assert(s@ =~= human_bytes_spec(bytes as nat));
    }
    s
}

} // verus!
