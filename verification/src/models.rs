//! The four domain records and the fixed palette of card colors.
//!
//! Each record that owns heap data has a mathematical view (`CardV`,
//! `MerchantV`, `UserV`) over sequences, which the contracts speak of.

use vstd::prelude::*;

verus! {

/// One palette entry: the card face color and the mark color, both 32-bit
/// ARGB values.
#[derive(Clone, Copy, PartialEq, Eq, Structural, Debug)]
pub struct Color {
    pub card_color: u32,
    pub mark_color: u32,
}

/// One punch on a card.
#[derive(Clone, Copy, PartialEq, Eq, Structural, Debug)]
pub struct CardMark {
    pub index: i32,
    pub is_marked: bool,
}

/// A loyalty card held by one user for one merchant.
pub struct CardModel {
    pub marks: Vec<CardMark>,
    pub color: Color,
    pub card_id: String,
    pub merchant_id: String,
}

#[verifier::ext_equal]
pub struct CardV {
    pub marks: Seq<CardMark>,
    pub color: Color,
    pub card_id: Seq<char>,
    pub merchant_id: Seq<char>,
}

impl View for CardModel {
    type V = CardV;

    open spec fn view(&self) -> CardV {
        CardV {
            marks: self.marks@,
            color: self.color,
            card_id: self.card_id@,
            merchant_id: self.merchant_id@,
        }
    }
}

/// A business that issues cards. The identifier is the numeric value of the
/// store's twelve-byte object identifier.
pub struct Merchant {
    pub id: u128,
    pub name: String,
    pub address: String,
    pub logo: String,
}

#[verifier::ext_equal]
pub struct MerchantV {
    pub id: u128,
    pub name: Seq<char>,
    pub address: Seq<char>,
    pub logo: Seq<char>,
}

impl View for Merchant {
    type V = MerchantV;

    open spec fn view(&self) -> MerchantV {
        MerchantV { id: self.id, name: self.name@, address: self.address@, logo: self.logo@ }
    }
}

/// An identity holding at most one card per merchant. The identifier is the
/// numeric value of the sixteen-byte UUID; the card list is keyed by merchant
/// identifier.
pub struct User {
    pub id: u128,
    pub cards: Vec<(u128, CardModel)>,
}

#[verifier::ext_equal]
pub struct UserV {
    pub id: u128,
    pub cards: Seq<(u128, CardV)>,
}

impl View for User {
    type V = UserV;

    open spec fn view(&self) -> UserV {
        UserV { id: self.id, cards: self.cards@.map_values(|p: (u128, CardModel)| (p.0, p.1@)) }
    }
}

/// The nine colors a new card may be given.
pub open spec fn spec_palette() -> Seq<Color> {
    seq![
        Color { card_color: 0xFFEAAB7Eu32, mark_color: 0xFFF1C9ADu32 },
        Color { card_color: 0xFFA25E58u32, mark_color: 0xFFC2827Cu32 },
        Color { card_color: 0xFF7F946Cu32, mark_color: 0xFFABC296u32 },
        Color { card_color: 0xFFCFC4ACu32, mark_color: 0xFFDFD0AEu32 },
        Color { card_color: 0xFF9EA779u32, mark_color: 0xFFD2DAB4u32 },
        Color { card_color: 0xFF7B9091u32, mark_color: 0xFFA5BABBu32 },
        Color { card_color: 0xFFAA9664u32, mark_color: 0xFFC6B99Au32 },
        Color { card_color: 0xFFBBA6BEu32, mark_color: 0xFFDDC7E0u32 },
        Color { card_color: 0xFFCA9C97u32, mark_color: 0xFFEAC6C2u32 },
    ]
}

/// The fixed palette as a vector, in palette order.
pub fn available_card_colors() -> (r: Vec<Color>)
    ensures
        r@ == spec_palette(),
{
    let mut v: Vec<Color> = Vec::new();
    v.push(Color { card_color: 0xFFEAAB7E, mark_color: 0xFFF1C9AD });
    v.push(Color { card_color: 0xFFA25E58, mark_color: 0xFFC2827C });
    v.push(Color { card_color: 0xFF7F946C, mark_color: 0xFFABC296 });
    v.push(Color { card_color: 0xFFCFC4AC, mark_color: 0xFFDFD0AE });
    v.push(Color { card_color: 0xFF9EA779, mark_color: 0xFFD2DAB4 });
    v.push(Color { card_color: 0xFF7B9091, mark_color: 0xFFA5BABB });
    v.push(Color { card_color: 0xFFAA9664, mark_color: 0xFFC6B99A });
    v.push(Color { card_color: 0xFFBBA6BE, mark_color: 0xFFDDC7E0 });
    v.push(Color { card_color: 0xFFCA9C97, mark_color: 0xFFEAC6C2 });
    proof {
        assert(v@ =~= spec_palette());
    }
    v
}

/// A copy of a mark vector with the same contents.
pub fn clone_marks(v: &Vec<CardMark>) -> (r: Vec<CardMark>)
    ensures
        r@ == v@,
{
    let mut r: Vec<CardMark> = Vec::new();
    let mut i: usize = 0;
    while i < v.len()
        invariant
            i <= v@.len(),
            r@ == v@.take(i as int),
        decreases v@.len() - i,
    {
        r.push(v[i]);
        proof {
            assert(r@ =~= v@.take(i as int + 1));
        }
        i = i + 1;
    }
    proof {
        assert(r@ =~= v@);
    }
    r
}

/// The card with one more mark appended, marked at the given index.
pub open spec fn marked_card(c: CardV, mark_index: i32) -> CardV {
    CardV {
        marks: c.marks.push(CardMark { index: mark_index, is_marked: true }),
        color: c.color,
        card_id: c.card_id,
        merchant_id: c.merchant_id,
    }
}

impl CardModel {
    /// Appends one mark at the given index, marked as punched.
    pub fn push_mark(&mut self, mark_index: i32)
        ensures
            final(self)@ == marked_card(old(self)@, mark_index),
    {
        self.marks.push(CardMark { index: mark_index, is_marked: true });
        proof {
            assert(self@ =~= marked_card(old(self)@, mark_index));
        }
    }

    /// A copy with the same view.
    pub fn duplicate(&self) -> (r: CardModel)
        ensures
            r@ == self@,
    {
        CardModel {
            marks: clone_marks(&self.marks),
            color: self.color,
            card_id: self.card_id.clone(),
            merchant_id: self.merchant_id.clone(),
        }
    }
}

impl Merchant {
    /// A copy with the same view.
    pub fn duplicate(&self) -> (r: Merchant)
        ensures
            r@ == self@,
    {
        Merchant {
            id: self.id,
            name: self.name.clone(),
            address: self.address.clone(),
            logo: self.logo.clone(),
        }
    }
}

impl User {
    /// A copy with the same view.
    pub fn duplicate(&self) -> (r: User)
        ensures
            r@ == self@,
    {
        let mut cards: Vec<(u128, CardModel)> = Vec::new();
        let mut i: usize = 0;
        while i < self.cards.len()
            invariant
                i <= self.cards@.len(),
                cards@.len() == i,
                forall|j: int|
                    0 <= j < i ==> (#[trigger] cards@[j]).0 == self.cards@[j].0 && cards@[j].1@
                        == self.cards@[j].1@,
            decreases self.cards@.len() - i,
        {
            let entry = &self.cards[i];
            cards.push((entry.0, entry.1.duplicate()));
            i = i + 1;
        }
        let r = User { id: self.id, cards };
        proof {
            assert(r@.cards =~= self@.cards);
            assert(r@ =~= self@);
        }
        r
    }
}

} // verus!
