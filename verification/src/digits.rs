//! Rendering of non-negative integers as fixed-width digit strings.
//!
//! Card identifiers are six decimal digits and merchant identifiers are
//! twenty-four hexadecimal digits, so one renderer over a small base covers
//! both.

use vstd::prelude::*;

verus! {

/// The lower-case character standing for one digit value below sixteen.
pub open spec fn digit_char(d: int) -> char {
    if d == 0 {
        '0'
    } else if d == 1 {
        '1'
    } else if d == 2 {
        '2'
    } else if d == 3 {
        '3'
    } else if d == 4 {
        '4'
    } else if d == 5 {
        '5'
    } else if d == 6 {
        '6'
    } else if d == 7 {
        '7'
    } else if d == 8 {
        '8'
    } else if d == 9 {
        '9'
    } else if d == 10 {
        'a'
    } else if d == 11 {
        'b'
    } else if d == 12 {
        'c'
    } else if d == 13 {
        'd'
    } else if d == 14 {
        'e'
    } else {
        'f'
    }
}

pub open spec fn is_dec_digit(c: char) -> bool {
    '0' <= c && c <= '9'
}

pub open spec fn is_lower_hex_digit(c: char) -> bool {
    is_dec_digit(c) || ('a' <= c && c <= 'f')
}

/// The `n` low-order base-`b` digits of `v`, most significant first.
pub open spec fn digits_seq(v: int, b: int, n: nat) -> Seq<char>
    decreases n,
{
    if n == 0 {
        Seq::empty()
    } else {
        digits_seq(v / b, b, (n - 1) as nat) + seq![digit_char(v % b)]
    }
}

pub proof fn lemma_digits_seq_chars(v: int, b: int, n: nat)
    requires
        v >= 0,
        2 <= b <= 16,
    ensures
        digits_seq(v, b, n).len() == n,
        forall|i: int| 0 <= i < n ==> is_lower_hex_digit(#[trigger] digits_seq(v, b, n)[i]),
        b <= 10 ==> forall|i: int| 0 <= i < n ==> is_dec_digit(#[trigger] digits_seq(v, b, n)[i]),
    decreases n,
{
    if n > 0 {
        lemma_digits_seq_chars(v / b, b, (n - 1) as nat);
        assert(0 <= v % b < b);
    }
}

/// The digit characters of `s`, least significant first, reversed into
/// most-significant-first reading order.
pub open spec fn rev_digit_chars(s: Seq<u8>) -> Seq<char>
    decreases s.len(),
{
    if s.len() == 0 {
        Seq::empty()
    } else {
        seq![digit_char(s.last() as int)] + rev_digit_chars(s.drop_last())
    }
}

pub proof fn lemma_rev_digit_chars(s: Seq<u8>)
    ensures
        rev_digit_chars(s).len() == s.len(),
        forall|j: int|
            0 <= j < s.len() ==> rev_digit_chars(s)[j] == digit_char(
                s[s.len() - 1 - j] as int,
            ),
    decreases s.len(),
{
    if s.len() > 0 {
        lemma_rev_digit_chars(s.drop_last());
    }
}

/// One digit value as a one-character string slice.
pub fn digit_str(d: u8) -> (r: &'static str)
    requires
        d < 16,
    ensures
        r@ == seq![digit_char(d as int)],
{
    proof {
        reveal_strlit("0");
        reveal_strlit("1");
        reveal_strlit("2");
        reveal_strlit("3");
        reveal_strlit("4");
        reveal_strlit("5");
        reveal_strlit("6");
        reveal_strlit("7");
        reveal_strlit("8");
        reveal_strlit("9");
        reveal_strlit("a");
        reveal_strlit("b");
        reveal_strlit("c");
        reveal_strlit("d");
        reveal_strlit("e");
        reveal_strlit("f");
    }
    let r: &'static str = match d {
        0u8 => "0",
        1u8 => "1",
        2u8 => "2",
        3u8 => "3",
        4u8 => "4",
        5u8 => "5",
        6u8 => "6",
        7u8 => "7",
        8u8 => "8",
        9u8 => "9",
        10u8 => "a",
        11u8 => "b",
        12u8 => "c",
        13u8 => "d",
        14u8 => "e",
        _ => "f",
    };
    proof {
        assert(r@ =~= seq![digit_char(d as int)]);
    }
    r
}

/// `v` rendered as exactly `n` base-`b` digits, most significant first.
pub fn digit_string(v: u128, b: u32, n: usize) -> (r: String)
    requires
        2 <= b <= 16,
    ensures
        r@ == digits_seq(v as int, b as int, n as nat),
        r@.len() == n,
{
    let bb: u128 = b as u128;
    let mut ds: Vec<u8> = Vec::new();
    let mut x: u128 = v;
    let mut k: usize = 0;
    while k < n
        invariant
            2 <= bb <= 16,
            bb == b as u128,
            k <= n,
            ds@.len() == k,
            forall|j: int| 0 <= j < k ==> ds@[j] < 16,
            digits_seq(v as int, b as int, n as nat) == digits_seq(
                x as int,
                b as int,
                (n - k) as nat,
            ) + rev_digit_chars(ds@),
        decreases n - k,
    {
        let d: u8 = (x % bb) as u8;
        let ghost old_ds = ds@;
        let ghost old_x = x as int;
        ds.push(d);
        x = x / bb;
        proof {
            assert(ds@.drop_last() =~= old_ds);
            assert(rev_digit_chars(ds@) =~= seq![digit_char(d as int)] + rev_digit_chars(
                old_ds,
            ));
            assert(digits_seq(old_x, b as int, (n - k) as nat) == digits_seq(
                x as int,
                b as int,
                (n - k - 1) as nat,
            ) + seq![digit_char(old_x % (b as int))]);
            assert(d as int == old_x % (b as int));
            assert(digits_seq(x as int, b as int, (n - k - 1) as nat) + rev_digit_chars(ds@)
                =~= (digits_seq(x as int, b as int, (n - k - 1) as nat) + seq![
                digit_char(d as int),
            ]) + rev_digit_chars(old_ds));
        }
        k = k + 1;
    }
    proof {
        assert(digits_seq(v as int, b as int, n as nat) =~= rev_digit_chars(ds@));
        lemma_rev_digit_chars(ds@);
        lemma_digits_seq_chars(v as int, b as int, n as nat);
    }
    let ghost target = digits_seq(v as int, b as int, n as nat);
    let mut s = String::new();
    let mut i: usize = ds.len();
    while i > 0
        invariant
            i <= ds@.len(),
            ds@.len() == n,
            forall|j: int| 0 <= j < n ==> ds@[j] < 16,
            target == digits_seq(v as int, b as int, n as nat),
            target.len() == n,
            target =~= rev_digit_chars(ds@),
            forall|j: int|
                0 <= j < n ==> rev_digit_chars(ds@)[j] == digit_char(
                    ds@[n - 1 - j] as int,
                ),
            s@ =~= target.take((n - i) as int),
        decreases i,
    {
        i = i - 1;
        let piece = digit_str(ds[i]);
        s.append(piece);
        proof {
            assert(target[(n - i - 1) as int] == digit_char(ds@[i as int] as int));
            assert(s@ =~= target.take((n - i) as int));
        }
    }
    proof {
        assert(s@ =~= target);
    }
    s
}

} // verus!
