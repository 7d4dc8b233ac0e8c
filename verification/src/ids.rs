//! Parsing and rendering of the two identifier formats.
//!
//! A user identifier is a UUID string; a merchant identifier is the store's
//! object-identifier format, twenty-four hexadecimal digits. Parsing goes
//! through the store driver's own routines; rendering to the canonical
//! lower-case form is verified here.

use vstd::prelude::*;
use crate::digits::{digits_seq, lemma_digits_seq_chars, is_lower_hex_digit};
use vstd::arithmetic::div_mod::lemma_fundamental_div_mod;

verus! {

pub open spec fn is_hex_digit(c: char) -> bool {
    ('0' <= c && c <= '9') || ('a' <= c && c <= 'f') || ('A' <= c && c <= 'F')
}

pub open spec fn hex_digit_val(c: char) -> int {
    if '0' <= c && c <= '9' {
        c as int - '0' as int
    } else if 'a' <= c && c <= 'f' {
        10 + c as int - 'a' as int
    } else {
        10 + c as int - 'A' as int
    }
}

/// The numeric value of a big-endian string of hexadecimal digits.
pub open spec fn hex_val(s: Seq<char>) -> int
    decreases s.len(),
{
    if s.len() == 0 {
        0
    } else {
        16 * hex_val(s.drop_last()) + hex_digit_val(s.last())
    }
}

/// A well-formed textual object identifier: exactly twenty-four hexadecimal
/// digits, either case.
pub open spec fn is_oid_str(s: Seq<char>) -> bool {
    s.len() == 24 && forall|i: int| 0 <= i < 24 ==> is_hex_digit(#[trigger] s[i])
}

/// The canonical (lower-case) textual form of an object identifier value.
pub open spec fn oid_str_of(v: int) -> Seq<char> {
    digits_seq(v, 16, 24)
}

pub open spec fn pow16(n: nat) -> int
    decreases n,
{
    if n == 0 {
        1
    } else {
        16 * pow16((n - 1) as nat)
    }
}

pub proof fn lemma_hex_val_bound(s: Seq<char>)
    requires
        forall|i: int| 0 <= i < s.len() ==> is_hex_digit(#[trigger] s[i]),
    ensures
        0 <= hex_val(s) < pow16(s.len()),
    decreases s.len(),
{
    if s.len() > 0 {
        assert(forall|i: int| 0 <= i < s.drop_last().len() ==> is_hex_digit(
            #[trigger] s.drop_last()[i],
        ));
        lemma_hex_val_bound(s.drop_last());
        assert(is_hex_digit(s.last()));
        assert(0 <= hex_digit_val(s.last()) < 16);
    }
}

pub proof fn lemma_digit_char_val(d: int)
    requires
        0 <= d < 16,
    ensures
        is_hex_digit(crate::digits::digit_char(d)),
        hex_digit_val(crate::digits::digit_char(d)) == d,
{
}

/// Rendering an identifier value and reading the digits back is the identity.
pub proof fn lemma_hex_round_trip(v: int, n: nat)
    requires
        0 <= v < pow16(n),
    ensures
        digits_seq(v, 16, n).len() == n,
        forall|i: int| 0 <= i < n ==> is_hex_digit(#[trigger] digits_seq(v, 16, n)[i]),
        hex_val(digits_seq(v, 16, n)) == v,
    decreases n,
{
    lemma_digits_seq_chars(v, 16, n);
    assert(forall|i: int| 0 <= i < n ==> is_lower_hex_digit(#[trigger] digits_seq(v, 16, n)[i]));
    assert(forall|c: char| is_lower_hex_digit(c) ==> is_hex_digit(c));
    if n == 0 {
        assert(v == 0);
    } else {
        lemma_fundamental_div_mod(v, 16);
        assert(v / 16 < pow16((n - 1) as nat)) by {
            if v / 16 >= pow16((n - 1) as nat) {
                assert(v >= 16 * pow16((n - 1) as nat)) by (nonlinear_arith)
                    requires
                        v / 16 >= pow16((n - 1) as nat),
                        v >= 0,
                ;
            }
        }
        lemma_hex_round_trip(v / 16, (n - 1) as nat);
        let s = digits_seq(v, 16, n);
        assert(s == digits_seq(v / 16, 16, (n - 1) as nat) + seq![
            crate::digits::digit_char(v % 16),
        ]);
        assert(s.drop_last() =~= digits_seq(v / 16, 16, (n - 1) as nat));
        assert(s.last() == crate::digits::digit_char(v % 16));
        lemma_digit_char_val(v % 16);
        assert(hex_val(s) == 16 * (v / 16) + v % 16);
    }
}

pub proof fn lemma_pow16_24()
    ensures
        pow16(24) == 0x1000000000000000000000000,
{
    assert(pow16(0) == 1);
    assert(pow16(1) == 0x10);
    assert(pow16(2) == 0x100);
    assert(pow16(3) == 0x1000);
    assert(pow16(4) == 0x10000);
    assert(pow16(5) == 0x100000);
    assert(pow16(6) == 0x1000000);
    assert(pow16(7) == 0x10000000);
    assert(pow16(8) == 0x100000000);
    assert(pow16(9) == 0x1000000000);
    assert(pow16(10) == 0x10000000000);
    assert(pow16(11) == 0x100000000000);
    assert(pow16(12) == 0x1000000000000);
    assert(pow16(13) == 0x10000000000000);
    assert(pow16(14) == 0x100000000000000);
    assert(pow16(15) == 0x1000000000000000);
    assert(pow16(16) == 0x10000000000000000);
    assert(pow16(17) == 0x100000000000000000);
    assert(pow16(18) == 0x1000000000000000000);
    assert(pow16(19) == 0x10000000000000000000);
    assert(pow16(20) == 0x100000000000000000000);
    assert(pow16(21) == 0x1000000000000000000000);
    assert(pow16(22) == 0x10000000000000000000000);
    assert(pow16(23) == 0x100000000000000000000000);
    assert(pow16(24) == 0x1000000000000000000000000);
}

/// The value a well-formed textual object identifier denotes, or nothing.
pub open spec fn parsed_oid(s: Seq<char>) -> Option<u128> {
    if is_oid_str(s) {
        Some(hex_val(s) as u128)
    } else {
        None
    }
}

/// A textual object identifier's value always fits the identifier range, and
/// the driver's parser returns exactly that value.
pub proof fn lemma_parsed_oid_fits(s: Seq<char>)
    requires
        is_oid_str(s),
    ensures
        0 <= hex_val(s) < pow16(24),
        (hex_val(s) as u128) as int == hex_val(s),
        hex_val(s) < 0x1000000000000000000000000,
{
    lemma_hex_val_bound(s);
    lemma_pow16_24();
}

/// A name for what the store driver's UUID parser yields: the sixteen
/// big-endian bytes as one number, or nothing when the string is not one of
/// the textual UUID forms it accepts.
pub uninterp spec fn parsed_uuid(s: Seq<char>) -> Option<u128>;

/// Relies on `mongodb::bson::uuid::Uuid::parse_str`, which parses the textual
/// UUID formats of the `uuid` crate; the outcome depends on the characters
/// alone. `bytes` gives the big-endian bytes of the parsed value.
#[verifier::external_body]
pub(crate) fn parse_user_id(s: &str) -> (r: Option<u128>)
    ensures
        r == parsed_uuid(s@),
{
    match mongodb::bson::uuid::Uuid::parse_str(s) {
        Ok(u) => Some(u128::from_be_bytes(u.bytes())),
        Err(_) => None,
    }
}

/// Relies on `mongodb::bson::oid::ObjectId::parse_str`, which accepts exactly
/// twenty-four hexadecimal digits of either case and yields the twelve bytes
/// they spell; `bytes` gives those bytes big-endian, returned here as one
/// number.
#[verifier::external_body]
pub(crate) fn parse_merchant_id(s: &str) -> (r: Option<u128>)
    ensures
        r is Some <==> is_oid_str(s@),
        r matches Some(v) ==> v as int == hex_val(s@),
{
    match mongodb::bson::oid::ObjectId::parse_str(s) {
        Ok(o) => {
            let mut w = [0u8; 16];
            w[4..16].copy_from_slice(&o.bytes());
            Some(u128::from_be_bytes(w))
        },
        Err(_) => None,
    }
}

/// The canonical lower-case textual form of a merchant identifier value.
pub fn merchant_id_string(v: u128) -> (r: String)
    ensures
        r@ == oid_str_of(v as int),
        r@.len() == 24,
{
    crate::digits::digit_string(v, 16, 24)
}

/// The value of a textual merchant identifier, when it is well formed.
pub fn merchant_id_value(s: &str) -> (r: Option<u128>)
    ensures
        r == parsed_oid(s@),
{
    let r = parse_merchant_id(s);
    proof {
        if r is Some {
            lemma_parsed_oid_fits(s@);
        }
    }
    r
}

/// Both identifiers of a card request, parsed together; the request is
/// rejected unless the user id is a UUID and the merchant id an object id.
pub fn deserialize_req_params(user_id: &str, merchant_id: &str) -> (r: Option<(u128, u128)>)
    ensures
        r is Some <==> (parsed_uuid(user_id@) is Some && parsed_oid(merchant_id@) is Some),
        r matches Some(p) ==> parsed_uuid(user_id@) == Some(p.0) && parsed_oid(merchant_id@)
            == Some(p.1),
{
    match parse_user_id(user_id) {
        Some(u) => match merchant_id_value(merchant_id) {
            Some(m) => Some((u, m)),
            None => None,
        },
        None => None,
    }
}

} // verus!
