//! An exact in-memory model of the document store.
//!
//! Two collections are kept: user documents keyed by UUID value and merchant
//! documents keyed by object-identifier value. Every operation is a single
//! lookup or write, and its contract pins the outcome; identifier uniqueness
//! in each collection is the model's well-formedness invariant.

use vstd::prelude::*;
use crate::models::{CardModel, CardV, Merchant, MerchantV, User, UserV};

verus! {

/// The failures a store operation can surface: an insert hitting an existing
/// identifier, a lookup missing its user, or a user without the wanted card.
#[derive(Clone, Copy, PartialEq, Eq, Structural, Debug)]
pub enum StoreError {
    DuplicateId,
    UserNotFound,
    CardNotFound,
}

/// The first position of `k` in `keys`, or -1 when it is absent.
pub open spec fn idx_of_key(keys: Seq<u128>, k: u128) -> int
    decreases keys.len(),
{
    if keys.len() == 0 {
        -1
    } else if keys[0] == k {
        0
    } else if idx_of_key(keys.drop_first(), k) == -1 {
        -1
    } else {
        1 + idx_of_key(keys.drop_first(), k)
    }
}

pub proof fn lemma_idx_of_key(keys: Seq<u128>, k: u128)
    ensures
        idx_of_key(keys, k) == -1 ==> forall|j: int| 0 <= j < keys.len() ==> keys[j] != k,
        idx_of_key(keys, k) != -1 ==> 0 <= idx_of_key(keys, k) < keys.len() && keys[idx_of_key(
            keys,
            k,
        )] == k && forall|j: int| 0 <= j < idx_of_key(keys, k) ==> keys[j] != k,
    decreases keys.len(),
{
    if keys.len() > 0 {
        lemma_idx_of_key(keys.drop_first(), k);
        assert(forall|j: int|
            1 <= j < keys.len() ==> keys[j] == keys.drop_first()[j - 1]);
    }
}

pub proof fn lemma_idx_of_key_first(keys: Seq<u128>, k: u128, i: int)
    requires
        0 <= i < keys.len(),
        keys[i] == k,
        forall|j: int| 0 <= j < i ==> keys[j] != k,
    ensures
        idx_of_key(keys, k) == i,
    decreases i,
{
    if i > 0 {
        lemma_idx_of_key_first(keys.drop_first(), k, i - 1);
        assert(forall|j: int|
            1 <= j < keys.len() ==> keys[j] == keys.drop_first()[j - 1]);
    }
}

impl UserV {
    /// The merchant identifiers of the user's cards, in list order.
    pub open spec fn card_keys(self) -> Seq<u128> {
        self.cards.map_values(|p: (u128, CardV)| p.0)
    }

    pub open spec fn has_card(self, m: u128) -> bool {
        idx_of_key(self.card_keys(), m) != -1
    }

    pub open spec fn card_at(self, m: u128) -> CardV {
        self.cards[idx_of_key(self.card_keys(), m)].1
    }

    /// The user with the card for merchant `m` replaced, or appended when the
    /// user had none.
    pub open spec fn with_card(self, m: u128, c: CardV) -> UserV {
        let i = idx_of_key(self.card_keys(), m);
        UserV {
            id: self.id,
            cards: if i == -1 {
                self.cards.push((m, c))
            } else {
                self.cards.update(i, (m, c))
            },
        }
    }

    /// At most one card per merchant.
    pub open spec fn wf(self) -> bool {
        forall|i: int, j: int|
            0 <= i < j < self.cards.len() ==> (#[trigger] self.cards[i]).0 != (
            #[trigger] self.cards[j]).0
    }
}

#[verifier::ext_equal]
pub struct StoreV {
    pub users: Seq<UserV>,
    pub merchants: Seq<MerchantV>,
}

impl StoreV {
    pub open spec fn user_ids(self) -> Seq<u128> {
        self.users.map_values(|u: UserV| u.id)
    }

    pub open spec fn has_user(self, id: u128) -> bool {
        idx_of_key(self.user_ids(), id) != -1
    }

    pub open spec fn user_at(self, id: u128) -> UserV {
        self.users[idx_of_key(self.user_ids(), id)]
    }

    pub open spec fn merchant_ids(self) -> Seq<u128> {
        self.merchants.map_values(|m: MerchantV| m.id)
    }

    pub open spec fn has_merchant(self, id: u128) -> bool {
        idx_of_key(self.merchant_ids(), id) != -1
    }

    pub open spec fn merchant_at(self, id: u128) -> MerchantV {
        self.merchants[idx_of_key(self.merchant_ids(), id)]
    }

    /// The store with user `uid`'s card for merchant `m` upserted.
    pub open spec fn with_user_card(self, uid: u128, m: u128, c: CardV) -> StoreV {
        let i = idx_of_key(self.user_ids(), uid);
        StoreV { users: self.users.update(i, self.users[i].with_card(m, c)), merchants: self.merchants }
    }

    /// Identifiers are unique in each collection and inside each card list.
    pub open spec fn wf(self) -> bool {
        &&& forall|i: int, j: int|
            0 <= i < j < self.users.len() ==> (#[trigger] self.users[i]).id != (
            #[trigger] self.users[j]).id
        &&& forall|i: int, j: int|
            0 <= i < j < self.merchants.len() ==> (#[trigger] self.merchants[i]).id != (
            #[trigger] self.merchants[j]).id
        &&& forall|i: int| 0 <= i < self.users.len() ==> (#[trigger] self.users[i]).wf()
    }
}

/// The in-memory document store: one collection of users, one of merchants.
pub struct Store {
    pub users: Vec<User>,
    pub merchants: Vec<Merchant>,
}

impl View for Store {
    type V = StoreV;

    open spec fn view(&self) -> StoreV {
        StoreV {
            users: self.users@.map_values(|u: User| u@),
            merchants: self.merchants@.map_values(|m: Merchant| m@),
        }
    }
}

impl Store {
    /// An empty store.
    pub fn new() -> (r: Store)
        ensures
            r@.users.len() == 0,
            r@.merchants.len() == 0,
            r@.wf(),
    {
        let r = Store { users: Vec::new(), merchants: Vec::new() };
        proof {
            assert(r@.users =~= Seq::<UserV>::empty());
            assert(r@.merchants =~= Seq::<MerchantV>::empty());
        }
        r
    }

    /// The position of the user with identifier `id`, when one exists.
    fn find_user_index(&self, id: u128) -> (r: Option<usize>)
        ensures
            r matches Some(i) ==> i as int == idx_of_key(self@.user_ids(), id) && i < self.users@.len(),
            r is None ==> idx_of_key(self@.user_ids(), id) == -1,
    {
        let ghost keys = self@.user_ids();
        let mut i: usize = 0;
        while i < self.users.len()
            invariant
                i <= self.users@.len(),
                keys == self@.user_ids(),
                keys.len() == self.users@.len(),
                forall|j: int| 0 <= j < i ==> keys[j] != id,
            decreases self.users@.len() - i,
        {
            if self.users[i].id == id {
                proof {
                    lemma_idx_of_key_first(keys, id, i as int);
                }
                return Some(i);
            }
            i = i + 1;
        }
        proof {
            lemma_idx_of_key(keys, id);
        }
        None
    }

    /// The position of the merchant with identifier `id`, when one exists.
    fn find_merchant_index(&self, id: u128) -> (r: Option<usize>)
        ensures
            r matches Some(i) ==> i as int == idx_of_key(self@.merchant_ids(), id) && i
                < self.merchants@.len(),
            r is None ==> idx_of_key(self@.merchant_ids(), id) == -1,
    {
        let ghost keys = self@.merchant_ids();
        let mut i: usize = 0;
        while i < self.merchants.len()
            invariant
                i <= self.merchants@.len(),
                keys == self@.merchant_ids(),
                keys.len() == self.merchants@.len(),
                forall|j: int| 0 <= j < i ==> keys[j] != id,
            decreases self.merchants@.len() - i,
        {
            if self.merchants[i].id == id {
                proof {
                    lemma_idx_of_key_first(keys, id, i as int);
                }
                return Some(i);
            }
            i = i + 1;
        }
        proof {
            lemma_idx_of_key(keys, id);
        }
        None
    }

    /// The position of `user`'s card entry for merchant `m`, when one exists.
    pub(crate) fn find_card_index(user: &User, m: u128) -> (r: Option<usize>)
        ensures
            r matches Some(i) ==> i as int == idx_of_key(user@.card_keys(), m) && i
                < user.cards@.len(),
            r is None ==> idx_of_key(user@.card_keys(), m) == -1,
    {
        let ghost keys = user@.card_keys();
        let mut j: usize = 0;
        while j < user.cards.len()
            invariant
                j <= user.cards@.len(),
                keys == user@.card_keys(),
                keys.len() == user.cards@.len(),
                forall|l: int| 0 <= l < j ==> keys[l] != m,
            decreases user.cards@.len() - j,
        {
            proof {
                assert(keys[j as int] == user.cards@[j as int].0);
            }
            if user.cards[j].0 == m {
                proof {
                    lemma_idx_of_key_first(keys, m, j as int);
                }
                return Some(j);
            }
            j = j + 1;
        }
        proof {
            lemma_idx_of_key(keys, m);
        }
        None
    }

    /// Inserts a new user document; an existing identifier is a write error.
    pub fn insert_user(&mut self, user: User) -> (r: Result<(), StoreError>)
        requires
            old(self)@.wf(),
            user@.wf(),
        ensures
            final(self)@.wf(),
            old(self)@.has_user(user.id) ==> r == Err::<(), StoreError>(StoreError::DuplicateId)
                && final(self)@ == old(self)@,
            !old(self)@.has_user(user.id) ==> r == Ok::<(), StoreError>(()) && final(self)@
                == (StoreV { users: old(self)@.users.push(user@), merchants: old(self)@.merchants }),
    {
        match self.find_user_index(user.id) {
            Some(_) => Err(StoreError::DuplicateId),
            None => {
                proof {
                    lemma_idx_of_key(self@.user_ids(), user.id);
                }
                let ghost old_view = self@;
                let ghost uv = user@;
                self.users.push(user);
                proof {
                    assert(self@.users =~= old_view.users.push(uv));
                    assert(self@ =~= (StoreV {
                        users: old_view.users.push(uv),
                        merchants: old_view.merchants,
                    }));
                    assert(forall|j: int|
                        0 <= j < old_view.users.len() ==> (#[trigger] old_view.users[j]).id
                            == old_view.user_ids()[j]);
                }
                Ok(())
            },
        }
    }

    /// The user document with identifier `user_id`, or nothing.
    pub fn get_user(&self, user_id: u128) -> (r: Option<User>)
        ensures
            r is Some <==> self@.has_user(user_id),
            r matches Some(u) ==> u@ == self@.user_at(user_id),
    {
        match self.find_user_index(user_id) {
            Some(i) => Some(self.users[i].duplicate()),
            None => None,
        }
    }

    /// Upserts `card` as user `user_id`'s card for merchant `merchant_oid`;
    /// no user document is created when none exists.
    pub fn update_user_cards(&mut self, user_id: u128, card: &CardModel, merchant_oid: u128) -> (r:
        Result<(), StoreError>)
        requires
            old(self)@.wf(),
        ensures
            final(self)@.wf(),
            !old(self)@.has_user(user_id) ==> r == Err::<(), StoreError>(StoreError::UserNotFound)
                && final(self)@ == old(self)@,
            old(self)@.has_user(user_id) ==> r == Ok::<(), StoreError>(()) && final(self)@
                == old(self)@.with_user_card(user_id, merchant_oid, card@),
    {
        let idx = match self.find_user_index(user_id) {
            None => return Err(StoreError::UserNotFound),
            Some(i) => i,
        };
        let ghost old_view = self@;
        let ghost cv = card@;
        let mut user = self.users.remove(idx);
        let ghost uv = user@;
        proof {
            assert(uv == old_view.users[idx as int]);
            assert(uv.wf());
        }
        let found = Self::find_card_index(&user, merchant_oid);
        let ghost ci = idx_of_key(uv.card_keys(), merchant_oid);
        proof {
            lemma_idx_of_key(uv.card_keys(), merchant_oid);
        }
        match found {
            Some(f) => {
                let _replaced = user.cards.remove(f);
                user.cards.insert(f, (merchant_oid, card.duplicate()));
                proof {
                    assert(user@.cards =~= uv.cards.update(ci, (merchant_oid, cv)));
                    assert(user@ =~= uv.with_card(merchant_oid, cv));
                    assert(uv.cards[ci].0 == uv.card_keys()[ci]);
                    assert(user@.card_keys() =~= uv.card_keys());
                    assert(forall|l: int|
                        0 <= l < user@.cards.len() ==> (#[trigger] user@.cards[l]).0
                            == user@.card_keys()[l]);
                    assert(user@.wf());
                }
            },
            None => {
                user.cards.push((merchant_oid, card.duplicate()));
                proof {
                    assert(user@.cards =~= uv.cards.push((merchant_oid, cv)));
                    assert(user@ =~= uv.with_card(merchant_oid, cv));
                    assert(user@.card_keys() =~= uv.card_keys().push(merchant_oid));
                    assert(forall|l: int|
                        0 <= l < user@.cards.len() ==> (#[trigger] user@.cards[l]).0
                            == user@.card_keys()[l]);
                    assert(user@.wf());
                }
            },
        }
        let ghost new_uv = user@;
        self.users.insert(idx, user);
        proof {
            assert(self@.users =~= old_view.users.update(idx as int, new_uv));
            assert(self@ =~= old_view.with_user_card(user_id, merchant_oid, cv));
            assert(new_uv.id == uv.id);
            assert(self@.user_ids() =~= old_view.user_ids());
            assert(forall|l: int|
                0 <= l < self@.users.len() ==> (#[trigger] self@.users[l]).id
                    == self@.user_ids()[l]);
            assert(self@.wf());
        }
        Ok(())
    }

    /// User `user_id`'s card for merchant `merchant_oid`; a missing user and a
    /// missing card are distinct failures.
    pub fn get_user_card(&self, user_id: u128, merchant_oid: u128) -> (r: Result<
        CardModel,
        StoreError,
    >)
        ensures
            !self@.has_user(user_id) ==> r == Err::<CardModel, StoreError>(
                StoreError::UserNotFound,
            ),
            self@.has_user(user_id) && !self@.user_at(user_id).has_card(merchant_oid) ==> r
                == Err::<CardModel, StoreError>(StoreError::CardNotFound),
            self@.has_user(user_id) && self@.user_at(user_id).has_card(merchant_oid) ==> r is Ok
                && (r matches Ok(c) ==> c@ == self@.user_at(user_id).card_at(merchant_oid)),
    {
        let idx = match self.find_user_index(user_id) {
            None => return Err(StoreError::UserNotFound),
            Some(i) => i,
        };
        let user = &self.users[idx];
        let ghost uv = user@;
        proof {
            assert(uv == self@.users[idx as int]);
            assert(self@.user_at(user_id) == uv);
        }
        let mut j: usize = 0;
        while j < user.cards.len()
            invariant
                j <= user.cards@.len(),
                uv == user@,
                uv == self@.user_at(user_id),
                self@.has_user(user_id),
                forall|l: int| 0 <= l < j ==> uv.card_keys()[l] != merchant_oid,
            decreases user.cards@.len() - j,
        {
            proof {
                assert(uv.card_keys()[j as int] == user.cards@[j as int].0);
            }
            if user.cards[j].0 == merchant_oid {
                proof {
                    lemma_idx_of_key_first(uv.card_keys(), merchant_oid, j as int);
                    assert(uv.card_at(merchant_oid) == uv.cards[j as int].1);
                }
                return Ok(user.cards[j].1.duplicate());
            }
            j = j + 1;
        }
        proof {
            lemma_idx_of_key(uv.card_keys(), merchant_oid);
        }
        Err(StoreError::CardNotFound)
    }

    /// Inserts a new merchant document; an existing identifier is a write
    /// error.
    pub fn insert_merchant(&mut self, merchant: Merchant) -> (r: Result<(), StoreError>)
        requires
            old(self)@.wf(),
        ensures
            final(self)@.wf(),
            old(self)@.has_merchant(merchant.id) ==> r == Err::<(), StoreError>(
                StoreError::DuplicateId,
            ) && final(self)@ == old(self)@,
            !old(self)@.has_merchant(merchant.id) ==> r == Ok::<(), StoreError>(()) && final(self)@
                == (StoreV {
                users: old(self)@.users,
                merchants: old(self)@.merchants.push(merchant@),
            }),
    {
        match self.find_merchant_index(merchant.id) {
            Some(_) => Err(StoreError::DuplicateId),
            None => {
                proof {
                    lemma_idx_of_key(self@.merchant_ids(), merchant.id);
                }
                let ghost old_view = self@;
                let ghost mv = merchant@;
                self.merchants.push(merchant);
                proof {
                    assert(self@.merchants =~= old_view.merchants.push(mv));
                    assert(self@ =~= (StoreV {
                        users: old_view.users,
                        merchants: old_view.merchants.push(mv),
                    }));
                    assert(forall|j: int|
                        0 <= j < old_view.merchants.len() ==> (#[trigger] old_view.merchants[j]).id
                            == old_view.merchant_ids()[j]);
                }
                Ok(())
            },
        }
    }

    /// The merchant document with identifier `merchant_id`, or nothing.
    pub fn get_merchant(&self, merchant_id: u128) -> (r: Option<Merchant>)
        ensures
            r is Some <==> self@.has_merchant(merchant_id),
            r matches Some(m) ==> m@ == self@.merchant_at(merchant_id),
    {
        match self.find_merchant_index(merchant_id) {
            Some(i) => Some(self.merchants[i].duplicate()),
            None => None,
        }
    }

    /// Every merchant document, in collection order.
    pub fn get_all_merchants(&self) -> (r: Vec<Merchant>)
        ensures
            r@.map_values(|m: Merchant| m@) == self@.merchants,
    {
        let mut r: Vec<Merchant> = Vec::new();
        let mut i: usize = 0;
        while i < self.merchants.len()
            invariant
                i <= self.merchants@.len(),
                r@.len() == i,
                forall|j: int| 0 <= j < i ==> (#[trigger] r@[j])@ == self.merchants@[j]@,
            decreases self.merchants@.len() - i,
        {
            r.push(self.merchants[i].duplicate());
            i = i + 1;
        }
        proof {
            assert(r@.map_values(|m: Merchant| m@) =~= self@.merchants);
        }
        r
    }
}

} // verus!
