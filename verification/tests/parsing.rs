//! Unit tests of the byte-level parsing helpers and the gateway.
use user_service::store::{
    create_user, delete_user, get_all_users, get_user, update_user, StoreError, UserStore,
};
use user_service::text::{get_id, parse_i32};
use user_service::user::User;

#[test]
fn parse_i32_accepts_plain_and_signed_numbers() {
    assert_eq!(parse_i32(b"123"), Some(123));
    assert_eq!(parse_i32(b"-45"), Some(-45));
    assert_eq!(parse_i32(b"+7"), Some(7));
    assert_eq!(parse_i32(b"0"), Some(0));
    assert_eq!(parse_i32(b"0012"), Some(12));
}

#[test]
fn parse_i32_rejects_junk_and_empty_input() {
    assert_eq!(parse_i32(b""), None);
    assert_eq!(parse_i32(b"-"), None);
    assert_eq!(parse_i32(b"+"), None);
    assert_eq!(parse_i32(b"12x"), None);
    assert_eq!(parse_i32(b" 12"), None);
    assert_eq!(parse_i32(b"1 2"), None);
}

#[test]
fn parse_i32_respects_the_range_bounds() {
    assert_eq!(parse_i32(b"2147483647"), Some(2147483647));
    assert_eq!(parse_i32(b"2147483648"), None);
    assert_eq!(parse_i32(b"-2147483648"), Some(-2147483648));
    assert_eq!(parse_i32(b"-2147483649"), None);
    assert_eq!(parse_i32(b"99999999999999999999"), None);
}

#[test]
fn get_id_takes_the_token_after_the_second_slash() {
    assert_eq!(get_id(b"GET /users/42 HTTP/1.1\r\n\r\n"), b"42".to_vec());
    assert_eq!(get_id(b"DELETE /users/7 HTTP/1.1\r\n\r\n"), b"7".to_vec());
    // with no id segment, the token after the second slash is part of the
    // protocol version; it fails integer parsing downstream
    assert_eq!(get_id(b"GET /users HTTP/1.1\r\n\r\n"), b"1.1".to_vec());
    assert_eq!(get_id(b"no slashes here"), b"".to_vec());
    // the token is cut at Unicode whitespace too: here a no-break space
    assert_eq!(get_id(b"GET /users/4\xc2\xa02 HTTP/1.1\r\n\r\n"), b"4".to_vec());
    assert_eq!(get_id(b"GET /users/\xc2\xa07 HTTP/1.1\r\n\r\n"), b"7".to_vec());
}

fn fresh(name: &str, email: &str) -> User {
    User { id: None, name: name.as_bytes().to_vec(), email: email.as_bytes().to_vec() }
}

#[test]
fn gateway_create_assigns_ascending_ids() {
    let mut store = UserStore::new();
    let a = create_user(&mut store, &fresh("Ann", "a@x.com")).unwrap();
    let b = create_user(&mut store, &fresh("Bob", "b@x.com")).unwrap();
    assert_eq!(a.id, Some(1));
    assert_eq!(b.id, Some(2));
    assert_eq!(a.name, b"Ann".to_vec());
    assert_eq!(b.email, b"b@x.com".to_vec());
}

#[test]
fn gateway_fetch_finds_only_existing_rows() {
    let mut store = UserStore::new();
    create_user(&mut store, &fresh("Ann", "a@x.com")).unwrap();
    let got = get_user(&store, 1).unwrap();
    assert_eq!(got.id, Some(1));
    assert_eq!(got.name, b"Ann".to_vec());
    assert!(matches!(get_user(&store, 2), Err(StoreError::NotFound)));
}

#[test]
fn gateway_update_rewrites_both_fields() {
    let mut store = UserStore::new();
    create_user(&mut store, &fresh("Ann", "a@x.com")).unwrap();
    let mut changed = fresh("Nan", "n@x.com");
    changed.id = Some(1);
    let echoed = update_user(&mut store, changed).unwrap();
    assert_eq!(echoed.id, Some(1));
    let got = get_user(&store, 1).unwrap();
    assert_eq!(got.name, b"Nan".to_vec());
    assert_eq!(got.email, b"n@x.com".to_vec());
}

#[test]
fn gateway_update_of_missing_row_is_not_found() {
    let mut store = UserStore::new();
    let mut u = fresh("Ann", "a@x.com");
    u.id = Some(3);
    assert!(matches!(update_user(&mut store, u), Err(StoreError::NotFound)));
}

#[test]
fn gateway_delete_removes_exactly_one_row() {
    let mut store = UserStore::new();
    create_user(&mut store, &fresh("Ann", "a@x.com")).unwrap();
    create_user(&mut store, &fresh("Bob", "b@x.com")).unwrap();
    assert!(delete_user(&mut store, 1).is_ok());
    assert!(matches!(delete_user(&mut store, 1), Err(StoreError::NotFound)));
    let rest = get_all_users(&store).unwrap();
    assert_eq!(rest.len(), 1);
    assert_eq!(rest[0].id, Some(2));
}

#[test]
fn gateway_list_is_ordered_by_id() {
    let mut store = UserStore::new();
    create_user(&mut store, &fresh("A", "a@x")).unwrap();
    create_user(&mut store, &fresh("B", "b@x")).unwrap();
    create_user(&mut store, &fresh("C", "c@x")).unwrap();
    delete_user(&mut store, 2).unwrap();
    create_user(&mut store, &fresh("D", "d@x")).unwrap();
    let all = get_all_users(&store).unwrap();
    let ids: Vec<Option<i32>> = all.iter().map(|u| u.id).collect();
    assert_eq!(ids, vec![Some(1), Some(3), Some(4)]);
}
