use loyalty_card::api::{active_card, add_mark, new_card, new_user, Status};
use loyalty_card::models::available_card_colors;
use loyalty_card::rng::generate_card_id;
use loyalty_card::store::{Store, StoreError};

const USER: &str = "67e55044-10b1-426f-9247-bb680e5fe0c8";
const MERCHANT: &str = "0123456789abcdef01234567";

fn store_with_user() -> Store {
    let mut store = Store::new();
    assert_eq!(new_user(&mut store, USER), Status::Success);
    store
}

#[test]
fn test_generate_card_id() {
    let card_id = generate_card_id();
    assert_eq!(card_id.len(), 6);
}

#[test]
fn new_card_has_six_digit_id_and_palette_color() {
    let mut store = store_with_user();
    let card = new_card(&mut store, USER, MERCHANT).expect("card creation succeeds");
    assert_eq!(card.card_id.len(), 6);
    assert!(card.card_id.chars().all(|c| c.is_ascii_digit()));
    assert!(card.card_id.parse::<u32>().unwrap() >= 100000);
    assert!(available_card_colors().contains(&card.color));
    assert!(card.marks.is_empty());
    assert_eq!(card.merchant_id, MERCHANT);
}

#[test]
fn new_card_renders_merchant_id_like_the_driver() {
    let mut store = store_with_user();
    let oid = mongodb::bson::oid::ObjectId::new();
    let text = oid.to_string();
    let card = new_card(&mut store, USER, &text).expect("card creation succeeds");
    assert_eq!(card.merchant_id, oid.to_hex());
    // upper-case input parses to the same identifier and renders lower-case
    let upper = text.to_uppercase();
    let card = new_card(&mut store, USER, &upper).expect("card creation succeeds");
    assert_eq!(card.merchant_id, oid.to_hex());
}

#[test]
fn repeated_creation_overwrites_the_card() {
    let mut store = store_with_user();
    let first = new_card(&mut store, USER, MERCHANT).expect("first creation succeeds");
    let second = new_card(&mut store, USER, MERCHANT).expect("second creation succeeds");
    let fetched = active_card(&store, USER, MERCHANT).expect("the pair has a card");
    assert_eq!(fetched.card_id, second.card_id);
    assert_eq!(fetched.color, second.color);
    assert!(fetched.marks.is_empty());
    // no history: the user still holds exactly one card
    let user = store.get_user(parse_uuid(USER)).expect("user exists");
    assert_eq!(user.cards.len(), 1);
    let _ = first;
}

#[test]
fn active_card_without_creation_fails() {
    let store = store_with_user();
    let res = active_card(&store, USER, MERCHANT);
    assert!(matches!(res, Err(Status::InternalServerError)));
}

#[test]
fn card_for_missing_user_fails() {
    let mut store = Store::new();
    let res = new_card(&mut store, USER, MERCHANT);
    assert!(matches!(res, Err(Status::InternalServerError)));
    let res = active_card(&store, USER, MERCHANT);
    assert!(matches!(res, Err(Status::InternalServerError)));
}

#[test]
fn malformed_ids_fail_without_mutation() {
    let mut store = store_with_user();
    assert!(matches!(new_card(&mut store, "bad", MERCHANT), Err(Status::InternalServerError)));
    assert!(matches!(new_card(&mut store, USER, "bad"), Err(Status::InternalServerError)));
    assert!(matches!(active_card(&store, "bad", MERCHANT), Err(Status::InternalServerError)));
    assert!(matches!(add_mark(&store, USER, "bad", 0), Err(Status::InternalServerError)));
    // the failed creations stored nothing
    assert!(matches!(active_card(&store, USER, MERCHANT), Err(Status::InternalServerError)));
}

#[test]
fn add_mark_returns_marked_card_but_does_not_persist() {
    let mut store = store_with_user();
    let created = new_card(&mut store, USER, MERCHANT).expect("card creation succeeds");
    let marked = add_mark(&store, USER, MERCHANT, 4).expect("marking succeeds");
    assert_eq!(marked.marks.len(), 1);
    let last = marked.marks.last().unwrap();
    assert_eq!(last.index, 4);
    assert!(last.is_marked);
    assert_eq!(marked.card_id, created.card_id);
    // a subsequent independent fetch does not see the mark
    let fetched = active_card(&store, USER, MERCHANT).expect("the pair has a card");
    assert!(fetched.marks.is_empty());
}

#[test]
fn add_mark_without_card_fails() {
    let store = store_with_user();
    let res = add_mark(&store, USER, MERCHANT, 1);
    assert!(matches!(res, Err(Status::InternalServerError)));
}

#[test]
fn store_card_errors_are_distinct() {
    let mut store = store_with_user();
    let uid = parse_uuid(USER);
    assert!(matches!(store.get_user_card(999, 1), Err(StoreError::UserNotFound)));
    assert!(matches!(store.get_user_card(uid, 1), Err(StoreError::CardNotFound)));
    let card = new_card(&mut store, USER, MERCHANT).expect("card creation succeeds");
    let got = store.get_user_card(uid, parse_oid(MERCHANT)).expect("card is stored");
    assert_eq!(got.card_id, card.card_id);
    assert_eq!(got.merchant_id, card.merchant_id);
}

#[test]
fn status_codes_match_the_http_surface() {
    assert_eq!(Status::Success.code(), 200);
    assert_eq!(Status::BadRequest.code(), 400);
    assert_eq!(Status::InternalServerError.code(), 500);
    assert_eq!(Status::NotImplemented.code(), 501);
}

fn parse_uuid(s: &str) -> u128 {
    u128::from_be_bytes(mongodb::bson::Uuid::parse_str(s).unwrap().bytes())
}

fn parse_oid(s: &str) -> u128 {
    let mut w = [0u8; 16];
    w[4..16].copy_from_slice(&mongodb::bson::oid::ObjectId::parse_str(s).unwrap().bytes());
    u128::from_be_bytes(w)
}
