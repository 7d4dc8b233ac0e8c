use loyalty_card::api::{get_all_merchants, get_merchant, new_merchant, Status};
use loyalty_card::models::Merchant;
use loyalty_card::store::Store;

fn merchant(id: u128, name: &str, address: &str, logo: &str) -> Merchant {
    Merchant {
        id,
        name: name.to_string(),
        address: address.to_string(),
        logo: logo.to_string(),
    }
}

#[test]
fn test_add_merchant() {
    let mut store = Store::new();
    let id = oid_value(&mongodb::bson::oid::ObjectId::new());
    let res = new_merchant(&mut store, merchant(id, "test_merchant", "", ""));
    assert_eq!(res, Status::Success);
}

#[test]
fn test_get_non_existing_merchant() {
    let store = Store::new();
    let merchant_id = mongodb::bson::oid::ObjectId::new().to_string();
    let res = get_merchant(&store, &merchant_id);
    assert!(matches!(res, Err(Status::NotImplemented)));
}

#[test]
fn test_get_existing_merchant() {
    let mut store = Store::new();
    let oid = mongodb::bson::oid::ObjectId::new();
    let m = merchant(oid_value(&oid), "Nahat Coffee", "Dizengoff Square 1, Tel Aviv-Yafo", "");
    let res = new_merchant(&mut store, m);
    assert_eq!(res, Status::Success);
    let res = get_merchant(&store, &oid.to_string());
    match res {
        Ok(found) => {
            assert_eq!(found.name, "Nahat Coffee");
            assert_eq!(found.address, "Dizengoff Square 1, Tel Aviv-Yafo");
            assert_eq!(found.logo, "");
            assert_eq!(found.id, oid_value(&oid));
        }
        Err(_) => panic!("registered merchant was not found"),
    }
}

#[test]
fn test_get_all_merchants() {
    let mut store = Store::new();
    assert_eq!(get_all_merchants(&store).len(), 0);
    assert_eq!(new_merchant(&mut store, merchant(1, "a", "", "")), Status::Success);
    assert_eq!(new_merchant(&mut store, merchant(2, "b", "", "")), Status::Success);
    assert_eq!(new_merchant(&mut store, merchant(3, "c", "", "")), Status::Success);
    let all = get_all_merchants(&store);
    assert_eq!(all.len(), 3);
}

#[test]
fn test_insert_merchant() {
    let mut store = Store::new();
    let m = merchant(7, "test", "", "");
    assert!(store.insert_merchant(m).is_ok());
    let got = store.get_merchant(7).expect("inserted merchant is found");
    assert_eq!(got.name, "test");
    assert_eq!(got.address, "");
    assert_eq!(got.logo, "");
    assert_eq!(got.id, 7);
}

#[test]
fn duplicate_merchant_id_is_a_write_error() {
    let mut store = Store::new();
    assert_eq!(new_merchant(&mut store, merchant(9, "x", "", "")), Status::Success);
    let res = new_merchant(&mut store, merchant(9, "y", "", ""));
    assert_eq!(res, Status::InternalServerError);
    assert_eq!(get_all_merchants(&store).len(), 1);
    // the first registration is the one kept
    let err = store.insert_merchant(merchant(9, "z", "", ""));
    assert_eq!(err, Err(loyalty_card::store::StoreError::DuplicateId));
}

#[test]
fn malformed_merchant_id_is_client_error() {
    let store = Store::new();
    assert!(matches!(get_merchant(&store, "xyz"), Err(Status::BadRequest)));
    // twenty-three digits: one short of an object id
    assert!(matches!(
        get_merchant(&store, "0123456789abcdef0123456"),
        Err(Status::BadRequest)
    ));
    // upper-case hexadecimal digits are accepted
    assert!(matches!(
        get_merchant(&store, "0123456789ABCDEF01234567"),
        Err(Status::NotImplemented)
    ));
}

fn oid_value(oid: &mongodb::bson::oid::ObjectId) -> u128 {
    let mut w = [0u8; 16];
    w[4..16].copy_from_slice(&oid.bytes());
    u128::from_be_bytes(w)
}
