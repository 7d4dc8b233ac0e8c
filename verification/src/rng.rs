//! Random draws for card creation: the six-digit card identifier and the
//! palette color.

use vstd::prelude::*;
use crate::digits::{digits_seq, is_dec_digit, digit_string, lemma_digits_seq_chars};
use crate::models::{Color, spec_palette, available_card_colors};

verus! {

/// Relies on `rand::Rng::gen_range` over a half-open `u32` range, which
/// returns a value inside the range and panics only when the range is empty.
#[verifier::external_body]
pub(crate) fn random_below(lo: u32, hi: u32) -> (r: u32)
    requires
        lo < hi,
    ensures
        lo <= r < hi,
{
    rand::Rng::gen_range(&mut rand::thread_rng(), lo..hi)
}

/// The six-decimal-digit text of a card identifier value.
pub open spec fn card_id_of(n: u32) -> Seq<char> {
    digits_seq(n as int, 10, 6)
}

/// Exactly six decimal digits.
pub open spec fn is_card_id(s: Seq<char>) -> bool {
    s.len() == 6 && forall|i: int| 0 <= i < 6 ==> is_dec_digit(#[trigger] s[i])
}

/// A card identifier drawn uniformly from the six-digit range.
pub fn generate_card_id() -> (r: String)
    ensures
        is_card_id(r@),
        exists|n: u32| 100000 <= n <= 999999 && r@ == card_id_of(n),
{
    let n = random_below(100000, 1000000);
    let s = digit_string(n as u128, 10, 6);
    proof {
        lemma_digits_seq_chars(n as int, 10, 6);
        assert(s@ == card_id_of(n));
    }
    s
}

/// A color drawn uniformly from the fixed palette.
pub fn get_random_color() -> (r: Color)
    ensures
        spec_palette().contains(r),
{
    let colors = available_card_colors();
    let i = random_below(0, 9);
    let c = colors[i as usize];
    proof {
        assert(spec_palette()[i as int] == c);
        assert(spec_palette().contains(c));
    }
    c
}

} // verus!
