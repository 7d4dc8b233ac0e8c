//! The request handlers, one per endpoint.
//!
//! Each handler validates its identifiers, performs one store operation, and
//! maps the outcome to a transport status. Every handler's behaviour is pinned
//! by a specification transition over the store view, so the endpoint laws are
//! provable facts about those transitions.

use vstd::prelude::*;
use crate::ids::{parsed_uuid, parsed_oid, oid_str_of, parse_user_id, merchant_id_value,
    deserialize_req_params, merchant_id_string};
use crate::models::{CardMark, CardModel, CardV, Color, Merchant, MerchantV, User, UserV,
    spec_palette, marked_card};
use crate::rng::{card_id_of, is_card_id, generate_card_id, get_random_color};
use crate::store::{Store, StoreV};

verus! {

/// The transport-level outcome of a request.
#[derive(Clone, Copy, PartialEq, Eq, Structural, Debug)]
pub enum Status {
    Success,
    BadRequest,
    InternalServerError,
    NotImplemented,
}

impl Status {
    /// The numeric HTTP status code of this outcome.
    pub fn code(&self) -> (r: u16)
        ensures
            *self == Status::Success <==> r == 200,
            *self == Status::BadRequest <==> r == 400,
            *self == Status::InternalServerError <==> r == 500,
            *self == Status::NotImplemented <==> r == 501,
    {
        match self {
            Status::Success => 200,
            Status::BadRequest => 400,
            Status::InternalServerError => 500,
            Status::NotImplemented => 501,
        }
    }
}

/// Registering a user: a malformed id is a client error; an existing id is a
/// write failure; otherwise the user is stored with an empty card map.
pub open spec fn spec_new_user(st: StoreV, uid: Option<u128>) -> (StoreV, Status) {
    match uid {
        Option::None => (st, Status::BadRequest),
        Option::Some(v) => if st.has_user(v) {
            (st, Status::InternalServerError)
        } else {
            (
                StoreV {
                    users: st.users.push(UserV { id: v, cards: Seq::empty() }),
                    merchants: st.merchants,
                },
                Status::Success,
            )
        },
    }
}

/// Authenticating a user: a malformed id is a client error; a missing user is
/// a server error.
pub open spec fn spec_auth_user(st: StoreV, uid: Option<u128>) -> Status {
    match uid {
        Option::None => Status::BadRequest,
        Option::Some(v) => if st.has_user(v) {
            Status::Success
        } else {
            Status::InternalServerError
        },
    }
}

/// Registering a merchant: an existing id is a write failure; otherwise the
/// merchant is stored as given.
pub open spec fn spec_new_merchant(st: StoreV, m: MerchantV) -> (StoreV, Status) {
    if st.has_merchant(m.id) {
        (st, Status::InternalServerError)
    } else {
        (StoreV { users: st.users, merchants: st.merchants.push(m) }, Status::Success)
    }
}

/// Fetching a merchant: a malformed id is a client error; a missing merchant
/// reports the distinguished not-implemented code.
pub open spec fn spec_get_merchant(st: StoreV, oid: Option<u128>) -> Result<MerchantV, Status> {
    match oid {
        Option::None => Err(Status::BadRequest),
        Option::Some(o) => if st.has_merchant(o) {
            Ok(st.merchant_at(o))
        } else {
            Err(Status::NotImplemented)
        },
    }
}

/// The card a fresh creation stores: no marks, the chosen palette color, the
/// drawn identifier, and the merchant id in canonical text form.
pub open spec fn fresh_card(o: u128, n: u32, color: Color) -> CardV {
    CardV {
        marks: Seq::empty(),
        color: color,
        card_id: card_id_of(n),
        merchant_id: oid_str_of(o as int),
    }
}

/// Creating a card: any parse failure or missing user is a server error;
/// otherwise the fresh card replaces whatever card the pair had.
pub open spec fn spec_new_card(
    st: StoreV,
    uid: Option<u128>,
    oid: Option<u128>,
    n: u32,
    color: Color,
) -> (StoreV, Result<CardV, Status>) {
    match (uid, oid) {
        (Option::Some(u), Option::Some(o)) => if st.has_user(u) {
            (st.with_user_card(u, o, fresh_card(o, n, color)), Ok(fresh_card(o, n, color)))
        } else {
            (st, Err(Status::InternalServerError))
        },
        _ => (st, Err(Status::InternalServerError)),
    }
}

/// Fetching the active card: any parse failure, missing user or missing card
/// is a server error.
pub open spec fn spec_active_card(st: StoreV, uid: Option<u128>, oid: Option<u128>) -> Result<
    CardV,
    Status,
> {
    match (uid, oid) {
        (Option::Some(u), Option::Some(o)) => if st.has_user(u) && st.user_at(u).has_card(o) {
            Ok(st.user_at(u).card_at(o))
        } else {
            Err(Status::InternalServerError)
        },
        _ => Err(Status::InternalServerError),
    }
}

/// Adding a mark: gated exactly as fetching the active card; the returned card
/// carries the new mark, and no store state is written back.
pub open spec fn spec_add_mark(
    st: StoreV,
    uid: Option<u128>,
    oid: Option<u128>,
    mark_index: i32,
) -> Result<CardV, Status> {
    match spec_active_card(st, uid, oid) {
        Ok(c) => Ok(marked_card(c, mark_index)),
        Err(e) => Err(e),
    }
}

/// Registers a new user with an empty card map.
pub fn new_user(store: &mut Store, user_id: &str) -> (r: Status)
    requires
        old(store)@.wf(),
    ensures
        final(store)@.wf(),
        final(store)@ == spec_new_user(old(store)@, parsed_uuid(user_id@)).0,
        r == spec_new_user(old(store)@, parsed_uuid(user_id@)).1,
{
    match parse_user_id(user_id) {
        None => Status::BadRequest,
        Some(v) => {
            let user = User { id: v, cards: Vec::new() };
            proof {
                assert(user@.cards =~= Seq::<(u128, CardV)>::empty());
                assert(user@ =~= (UserV { id: v, cards: Seq::empty() }));
            }
            match store.insert_user(user) {
                Ok(_) => Status::Success,
                Err(_) => Status::InternalServerError,
            }
        },
    }
}

/// Authenticates a user: the identifier must parse and the user must exist.
pub fn auth_user(store: &Store, user_id: &str) -> (r: Status)
    ensures
        r == spec_auth_user(store@, parsed_uuid(user_id@)),
{
    match parse_user_id(user_id) {
        None => Status::BadRequest,
        Some(v) => match store.get_user(v) {
            Some(_) => Status::Success,
            None => Status::InternalServerError,
        },
    }
}

/// Registers a merchant exactly as supplied by the client.
pub fn new_merchant(store: &mut Store, merchant: Merchant) -> (r: Status)
    requires
        old(store)@.wf(),
    ensures
        final(store)@.wf(),
        final(store)@ == spec_new_merchant(old(store)@, merchant@).0,
        r == spec_new_merchant(old(store)@, merchant@).1,
{
    match store.insert_merchant(merchant) {
        Ok(_) => Status::Success,
        Err(_) => Status::InternalServerError,
    }
}

/// Fetches one merchant by its textual identifier.
pub fn get_merchant(store: &Store, merchant_id: &str) -> (r: Result<Merchant, Status>)
    ensures
        r matches Ok(m) ==> spec_get_merchant(store@, parsed_oid(merchant_id@)) == Ok::<
            MerchantV,
            Status,
        >(m@),
        r matches Err(e) ==> spec_get_merchant(store@, parsed_oid(merchant_id@)) == Err::<
            MerchantV,
            Status,
        >(e),
{
    match merchant_id_value(merchant_id) {
        None => Err(Status::BadRequest),
        Some(o) => match store.get_merchant(o) {
            Some(m) => Ok(m),
            None => Err(Status::NotImplemented),
        },
    }
}

/// Lists every merchant document, in collection order.
pub fn get_all_merchants(store: &Store) -> (r: Vec<Merchant>)
    ensures
        r@.map_values(|m: Merchant| m@) == store@.merchants,
{
    store.get_all_merchants()
}

/// Creates a fresh card for the pair and upserts it into the user's card map.
pub fn new_card(store: &mut Store, user_id: &str, merchant_id: &str) -> (r: Result<
    CardModel,
    Status,
>)
    requires
        old(store)@.wf(),
    ensures
        final(store)@.wf(),
        (parsed_uuid(user_id@) is None || parsed_oid(merchant_id@) is None) ==> final(store)@
            == old(store)@ && (r matches Err(e) && e == Status::InternalServerError),
        parsed_uuid(user_id@) matches Some(u) ==> (parsed_oid(merchant_id@) matches Some(o) ==> (
        if old(store)@.has_user(u) {
            r matches Ok(c) && c@.marks.len() == 0 && is_card_id(c@.card_id)
                && spec_palette().contains(c@.color) && c@.merchant_id == oid_str_of(o as int)
                && (exists|n: u32|
                100000 <= n <= 999999 && c@.card_id == card_id_of(n) && (final(store)@, Ok::<
                    CardV,
                    Status,
                >(c@)) == spec_new_card(old(store)@, Some(u), Some(o), n, c@.color))
        } else {
            final(store)@ == old(store)@ && (r matches Err(e) && e
                == Status::InternalServerError)
        })),
{
    match deserialize_req_params(user_id, merchant_id) {
        None => Err(Status::InternalServerError),
        Some((u, o)) => {
            let card = CardModel {
                marks: Vec::new(),
                color: get_random_color(),
                card_id: generate_card_id(),
                merchant_id: merchant_id_string(o),
            };
            proof {
                assert(card@.marks =~= Seq::<CardMark>::empty());
            }
            match store.update_user_cards(u, &card, o) {
                Ok(_) => {
                    proof {
                        let n = choose|n: u32|
                            100000 <= n <= 999999 && card@.card_id == card_id_of(n);
                        assert(card@ =~= fresh_card(o, n, card@.color));
                    }
                    Ok(card)
                },
                Err(_) => Err(Status::InternalServerError),
            }
        },
    }
}

/// Fetches the active card of a (user, merchant) pair.
pub fn active_card(store: &Store, user_id: &str, merchant_id: &str) -> (r: Result<
    CardModel,
    Status,
>)
    ensures
        r matches Ok(c) ==> spec_active_card(store@, parsed_uuid(user_id@), parsed_oid(
            merchant_id@,
        )) == Ok::<CardV, Status>(c@),
        r matches Err(e) ==> spec_active_card(store@, parsed_uuid(user_id@), parsed_oid(
            merchant_id@,
        )) == Err::<CardV, Status>(e),
{
    match deserialize_req_params(user_id, merchant_id) {
        None => Err(Status::InternalServerError),
        Some((u, o)) => match store.get_user_card(u, o) {
            Ok(c) => Ok(c),
            Err(_) => Err(Status::InternalServerError),
        },
    }
}

/// Adds one mark to the pair's card and returns the updated card; the store
/// itself is not written, so the mark is not persisted.
pub fn add_mark(store: &Store, user_id: &str, merchant_id: &str, mark_index: i32) -> (r: Result<
    CardModel,
    Status,
>)
    ensures
        r matches Ok(c) ==> spec_add_mark(store@, parsed_uuid(user_id@), parsed_oid(merchant_id@),
            mark_index) == Ok::<CardV, Status>(c@),
        r matches Err(e) ==> spec_add_mark(store@, parsed_uuid(user_id@), parsed_oid(merchant_id@),
            mark_index) == Err::<CardV, Status>(e),
{
    match deserialize_req_params(user_id, merchant_id) {
        None => Err(Status::InternalServerError),
        Some((u, o)) => {
            let user = match store.get_user(u) {
                None => return Err(Status::InternalServerError),
                Some(user) => user,
            };
            match Store::find_card_index(&user, o) {
                None => Err(Status::InternalServerError),
                Some(j) => {
                    let entry = &user.cards[j];
                    let mut card = entry.1.duplicate();
                    card.push_mark(mark_index);
                    proof {
                        assert(user@ == store@.user_at(u));
                        assert(user@.card_at(o) == user@.cards[j as int].1);
                        assert(card@ =~= marked_card(user@.card_at(o), mark_index));
                    }
                    Ok(card)
                },
            }
        },
    }
}

} // verus!
