use loyalty_card::api::{auth_user, new_user, Status};
use loyalty_card::store::Store;

#[test]
fn test_new_user_api() {
    let mut store = Store::new();
    let user_id = mongodb::bson::Uuid::new().to_string();
    let res = new_user(&mut store, &user_id);
    assert_eq!(res, Status::Success);
    assert_eq!(res.code(), 200);
}

#[test]
fn test_auth_user() {
    let mut store = Store::new();
    let user_id = mongodb::bson::Uuid::new().to_string();
    let res = new_user(&mut store, &user_id);
    assert_eq!(res, Status::Success);
    let res = auth_user(&store, &user_id);
    assert_eq!(res, Status::Success);
}

#[test]
fn create_then_auth_succeeds_and_unused_fails() {
    let mut store = Store::new();
    let used = "67e55044-10b1-426f-9247-bb680e5fe0c8";
    let unused = "00000000-0000-4000-8000-000000000001";
    assert_eq!(new_user(&mut store, used), Status::Success);
    assert_eq!(auth_user(&store, used), Status::Success);
    assert_eq!(auth_user(&store, unused), Status::InternalServerError);
    assert_eq!(auth_user(&store, unused).code(), 500);
}

#[test]
fn uuid_forms_name_the_same_user() {
    // the simple and the hyphenated form spell the same identifier
    let mut store = Store::new();
    let hyphenated = "67e55044-10b1-426f-9247-bb680e5fe0c8";
    let simple = "67e5504410b1426f9247bb680e5fe0c8";
    assert_eq!(new_user(&mut store, hyphenated), Status::Success);
    assert_eq!(auth_user(&store, simple), Status::Success);
    // registering the same identifier again hits the existing document
    assert_eq!(new_user(&mut store, simple), Status::InternalServerError);
}

#[test]
fn malformed_user_id_is_client_error_and_mutates_nothing() {
    let mut store = Store::new();
    assert_eq!(new_user(&mut store, "not-a-uuid"), Status::BadRequest);
    assert_eq!(new_user(&mut store, ""), Status::BadRequest);
    assert_eq!(auth_user(&store, "not-a-uuid"), Status::BadRequest);
    assert_eq!(auth_user(&store, "not-a-uuid").code(), 400);
    // nothing was stored under any identifier
    let valid = "67e55044-10b1-426f-9247-bb680e5fe0c8";
    assert_eq!(auth_user(&store, valid), Status::InternalServerError);
}
