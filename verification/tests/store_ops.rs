use loyalty_card::models::User;
use loyalty_card::store::{Store, StoreError};

fn fresh_user() -> User {
    let id = u128::from_be_bytes(mongodb::bson::Uuid::new().bytes());
    User { id, cards: Vec::new() }
}

#[test]
fn test_insert_user() {
    let mut store = Store::new();
    let user = fresh_user();
    let res = store.insert_user(user);
    assert!(res.is_ok());
}

#[test]
fn test_get_user() {
    let mut store = Store::new();
    let user = fresh_user();
    let id = user.id;
    store.insert_user(user).unwrap();
    match store.get_user(id) {
        Some(v) => {
            assert_eq!(v.id, id);
            assert!(v.cards.is_empty());
        }
        None => panic!("inserted user was not found"),
    }
}

#[test]
fn duplicate_user_id_is_a_write_error() {
    let mut store = Store::new();
    let user = fresh_user();
    let id = user.id;
    store.insert_user(user).unwrap();
    let res = store.insert_user(User { id, cards: Vec::new() });
    assert_eq!(res, Err(StoreError::DuplicateId));
}

#[test]
fn update_user_cards_requires_the_user() {
    let mut store = Store::new();
    let card = loyalty_card::models::CardModel {
        marks: Vec::new(),
        color: loyalty_card::models::Color { card_color: 0, mark_color: 0 },
        card_id: "123456".to_string(),
        merchant_id: "0123456789abcdef01234567".to_string(),
    };
    let res = store.update_user_cards(42, &card, 7);
    assert_eq!(res, Err(StoreError::UserNotFound));
    // with the user present the upsert succeeds and the card is stored
    store.insert_user(User { id: 42, cards: Vec::new() }).unwrap();
    assert!(store.update_user_cards(42, &card, 7).is_ok());
    let got = store.get_user_card(42, 7).expect("card is stored");
    assert_eq!(got.card_id, "123456");
    assert_eq!(got.merchant_id, "0123456789abcdef01234567");
}
