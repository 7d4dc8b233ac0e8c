//! The endpoint laws, proved over the specification transitions.

use vstd::prelude::*;
use crate::api::{spec_new_user, spec_auth_user, spec_new_merchant, spec_get_merchant,
    spec_new_card, spec_active_card, spec_add_mark, fresh_card, Status};
use crate::digits::lemma_digits_seq_chars;
use crate::ids::{oid_str_of, parsed_oid, pow16, lemma_hex_round_trip};
use crate::models::{CardMark, CardV, Color, MerchantV, UserV, spec_palette, marked_card};
use crate::rng::is_card_id;
use crate::store::{StoreV, idx_of_key, lemma_idx_of_key, lemma_idx_of_key_first};

verus! {

/// Creating a user under an unused valid identifier succeeds, and
/// authenticating that identifier afterwards succeeds.
pub proof fn lemma_create_then_auth(st: StoreV, v: u128)
    requires
        !st.has_user(v),
    ensures
        spec_new_user(st, Some(v)).1 == Status::Success,
        spec_auth_user(spec_new_user(st, Some(v)).0, Some(v)) == Status::Success,
{
    let st1 = spec_new_user(st, Some(v)).0;
    assert(st1.user_ids() =~= st.user_ids().push(v));
    lemma_idx_of_key(st.user_ids(), v);
    lemma_idx_of_key_first(st1.user_ids(), v, st.users.len() as int);
}

/// Authenticating an identifier that was never registered fails with a server
/// error.
pub proof fn lemma_auth_unused(st: StoreV, v: u128)
    requires
        !st.has_user(v),
    ensures
        spec_auth_user(st, Some(v)) == Status::InternalServerError,
{
}

/// A request whose identifier fails to parse changes no store state; the user
/// and merchant endpoints answer with a client error, the card endpoints with
/// a server error.
pub proof fn lemma_malformed_ids(
    st: StoreV,
    n: u32,
    color: Color,
    mark_index: i32,
    uid: Option<u128>,
    oid: Option<u128>,
)
    requires
        uid is None || oid is None,
    ensures
        spec_new_user(st, None) == (st, Status::BadRequest),
        spec_auth_user(st, None) == Status::BadRequest,
        spec_get_merchant(st, None) == Err::<MerchantV, Status>(Status::BadRequest),
        spec_new_card(st, uid, oid, n, color) == (st, Err::<CardV, Status>(
            Status::InternalServerError,
        )),
        spec_active_card(st, uid, oid) == Err::<CardV, Status>(Status::InternalServerError),
        spec_add_mark(st, uid, oid, mark_index) == Err::<CardV, Status>(
            Status::InternalServerError,
        ),
{
}

/// A freshly created card has no marks, a six-decimal-digit identifier, and a
/// palette color.
pub proof fn lemma_fresh_card_format(o: u128, n: u32, color: Color)
    requires
        spec_palette().contains(color),
    ensures
        fresh_card(o, n, color).marks.len() == 0,
        is_card_id(fresh_card(o, n, color).card_id),
        spec_palette().contains(fresh_card(o, n, color).color),
        fresh_card(o, n, color).merchant_id == oid_str_of(o as int),
{
    lemma_digits_seq_chars(n as int, 10, 6);
}

/// Upserting a card for one merchant twice keeps no history: the second upsert
/// alone decides the card list.
pub proof fn lemma_upsert_overwrites(u: UserV, m: u128, c1: CardV, c2: CardV)
    ensures
        u.with_card(m, c1).with_card(m, c2) == u.with_card(m, c2),
{
    let keys = u.card_keys();
    let i = idx_of_key(keys, m);
    lemma_idx_of_key(keys, m);
    let u1 = u.with_card(m, c1);
    if i == -1 {
        assert(u1.card_keys() =~= keys.push(m));
        lemma_idx_of_key_first(u1.card_keys(), m, keys.len() as int);
        assert(u1.with_card(m, c2).cards =~= u.with_card(m, c2).cards);
        assert(u1.with_card(m, c2) =~= u.with_card(m, c2));
    } else {
        assert(keys[i] == m);
        assert(u1.card_keys() =~= keys);
        assert(u1.with_card(m, c2).cards =~= u.with_card(m, c2).cards);
        assert(u1.with_card(m, c2) =~= u.with_card(m, c2));
    }
}

/// The same, lifted to the store: writing a pair's card twice leaves exactly
/// the state the second write alone leaves.
pub proof fn lemma_with_user_card_twice(st: StoreV, u: u128, m: u128, c1: CardV, c2: CardV)
    requires
        st.has_user(u),
    ensures
        st.with_user_card(u, m, c1).with_user_card(u, m, c2) == st.with_user_card(u, m, c2),
{
    let i = idx_of_key(st.user_ids(), u);
    lemma_idx_of_key(st.user_ids(), u);
    let st1 = st.with_user_card(u, m, c1);
    assert(st1.user_ids() =~= st.user_ids());
    lemma_upsert_overwrites(st.users[i], m, c1, c2);
    assert(st1.with_user_card(u, m, c2).users =~= st.with_user_card(u, m, c2).users);
    assert(st1.with_user_card(u, m, c2) =~= st.with_user_card(u, m, c2));
}

/// Repeated card creation for one (user, merchant) pair overwrites the prior
/// card: after two creations the store is what the second creation alone
/// produces.
pub proof fn lemma_new_card_overwrites(
    st: StoreV,
    u: u128,
    o: u128,
    n1: u32,
    n2: u32,
    col1: Color,
    col2: Color,
)
    requires
        st.has_user(u),
    ensures
        spec_new_card(spec_new_card(st, Some(u), Some(o), n1, col1).0, Some(u), Some(o), n2, col2).0
            == spec_new_card(st, Some(u), Some(o), n2, col2).0,
{
    let st1 = spec_new_card(st, Some(u), Some(o), n1, col1).0;
    let i = idx_of_key(st.user_ids(), u);
    lemma_idx_of_key(st.user_ids(), u);
    assert(st1.user_ids() =~= st.user_ids());
    assert(st1.has_user(u));
    lemma_with_user_card_twice(st, u, o, fresh_card(o, n1, col1), fresh_card(o, n2, col2));
}

/// Fetching an active card for a pair that has no card, or for a user that
/// does not exist, fails with a server error.
pub proof fn lemma_active_card_missing(st: StoreV, u: u128, o: u128)
    requires
        !st.has_user(u) || !st.user_at(u).has_card(o),
    ensures
        spec_active_card(st, Some(u), Some(o)) == Err::<CardV, Status>(
            Status::InternalServerError,
        ),
{
}

/// Adding a mark returns the pair's card with exactly one more mark, marked at
/// the given index, while the stored card is unchanged: a subsequent fetch
/// returns the card without that mark.
pub proof fn lemma_add_mark_not_persisted(st: StoreV, u: u128, o: u128, i: i32)
    requires
        st.has_user(u),
        st.user_at(u).has_card(o),
    ensures
        spec_add_mark(st, Some(u), Some(o), i) == Ok::<CardV, Status>(
            marked_card(st.user_at(u).card_at(o), i),
        ),
        marked_card(st.user_at(u).card_at(o), i).marks.last() == (CardMark {
            index: i,
            is_marked: true,
        }),
        marked_card(st.user_at(u).card_at(o), i).marks.drop_last() == st.user_at(u).card_at(
            o,
        ).marks,
        spec_active_card(st, Some(u), Some(o)) == Ok::<CardV, Status>(st.user_at(u).card_at(o)),
{
    let c0 = st.user_at(u).card_at(o);
    assert(marked_card(c0, i).marks.drop_last() =~= c0.marks);
}

/// Registering a merchant under an unused identifier succeeds, grows the list
/// by exactly one, and a fetch by that identifier afterwards returns the
/// merchant with identical fields.
pub proof fn lemma_register_then_get(st: StoreV, m: MerchantV)
    requires
        !st.has_merchant(m.id),
    ensures
        spec_new_merchant(st, m).1 == Status::Success,
        spec_new_merchant(st, m).0.merchants.len() == st.merchants.len() + 1,
        spec_get_merchant(spec_new_merchant(st, m).0, Some(m.id)) == Ok::<MerchantV, Status>(m),
{
    let st1 = spec_new_merchant(st, m).0;
    assert(st1.merchant_ids() =~= st.merchant_ids().push(m.id));
    lemma_idx_of_key(st.merchant_ids(), m.id);
    lemma_idx_of_key_first(st1.merchant_ids(), m.id, st.merchants.len() as int);
}

/// Fetching a merchant under an unused well-formed identifier reports the
/// distinguished not-implemented outcome.
pub proof fn lemma_get_unused_merchant(st: StoreV, o: u128)
    requires
        !st.has_merchant(o),
    ensures
        spec_get_merchant(st, Some(o)) == Err::<MerchantV, Status>(Status::NotImplemented),
{
}

/// Rendering a merchant identifier value to its canonical text and parsing it
/// back is the identity.
pub proof fn lemma_oid_round_trip(v: u128)
    requires
        (v as int) < pow16(24),
    ensures
        parsed_oid(oid_str_of(v as int)) == Some(v),
{
    lemma_hex_round_trip(v as int, 24);
}

} // verus!
