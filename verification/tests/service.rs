//! End-to-end tests of the dispatcher against the in-memory store.
use user_service::http::{handle_request, response_bytes, Response, StatusLine};
use user_service::store::UserStore;

fn send(store: &mut UserStore, req: &[u8]) -> Response {
    handle_request(store, req)
}

fn post_user(store: &mut UserStore, body: &str) -> Response {
    let mut req = b"POST /users HTTP/1.1\r\nContent-Type: application/json\r\n\r\n".to_vec();
    req.extend_from_slice(body.as_bytes());
    send(store, &req)
}

#[test]
fn post_then_get_returns_identical_record() {
    let mut store = UserStore::new();
    let created = post_user(&mut store, "{\"name\":\"Ann\",\"email\":\"a@x.com\"}");
    assert_eq!(created.status, StatusLine::OkJson);
    assert_eq!(
        created.body,
        b"{\"id\":1,\"name\":\"Ann\",\"email\":\"a@x.com\"}".to_vec()
    );
    let fetched = send(&mut store, b"GET /users/1 HTTP/1.1\r\n\r\n");
    assert_eq!(fetched.status, StatusLine::OkJson);
    assert_eq!(fetched.body, created.body);
}

#[test]
fn get_missing_user_is_not_found() {
    let mut store = UserStore::new();
    let r = send(&mut store, b"GET /users/999 HTTP/1.1\r\n\r\n");
    assert_eq!(r.status, StatusLine::NotFound);
    assert_eq!(r.body, b"User not found".to_vec());
}

#[test]
fn put_blank_name_is_unprocessable() {
    let mut store = UserStore::new();
    let r = send(
        &mut store,
        b"PUT /users/1 HTTP/1.1\r\n\r\n{\"name\":\"\",\"email\":\"a@x.com\"}",
    );
    assert_eq!(r.status, StatusLine::Unprocessable);
    assert_eq!(r.body, b"Name is required".to_vec());
}

#[test]
fn post_missing_name_is_name_required() {
    let mut store = UserStore::new();
    let r = post_user(&mut store, "{\"email\":\"a@x.com\"}");
    assert_eq!(r.status, StatusLine::Unprocessable);
    assert_eq!(r.body, b"Name is required".to_vec());
}

#[test]
fn post_missing_email_is_email_required() {
    let mut store = UserStore::new();
    let r = post_user(&mut store, "{\"name\":\"Ann\"}");
    assert_eq!(r.status, StatusLine::Unprocessable);
    assert_eq!(r.body, b"Email is required".to_vec());
}

#[test]
fn post_whitespace_email_is_email_required() {
    let mut store = UserStore::new();
    let r = post_user(&mut store, "{\"name\":\"Ann\",\"email\":\" \\t \"}");
    assert_eq!(r.status, StatusLine::Unprocessable);
    assert_eq!(r.body, b"Email is required".to_vec());
}

#[test]
fn post_no_break_space_name_is_name_required() {
    let mut store = UserStore::new();
    // a name of one U+00A0, which trimming Unicode whitespace empties
    let r = post_user(&mut store, "{\"name\":\"\\u00a0\",\"email\":\"a@x.com\"}");
    assert_eq!(r.status, StatusLine::Unprocessable);
    assert_eq!(r.body, b"Name is required".to_vec());
}

#[test]
fn post_ideographic_space_email_is_email_required() {
    let mut store = UserStore::new();
    let r = post_user(&mut store, "{\"name\":\"Ann\",\"email\":\"\\u3000\\u2028\"}");
    assert_eq!(r.status, StatusLine::Unprocessable);
    assert_eq!(r.body, b"Email is required".to_vec());
}

#[test]
fn post_name_padded_with_no_break_space_is_kept_as_sent() {
    let mut store = UserStore::new();
    let r = post_user(&mut store, "{\"name\":\"\\u00a0A\",\"email\":\"e@x\"}");
    assert_eq!(r.status, StatusLine::OkJson);
    assert_eq!(
        r.body,
        b"{\"id\":1,\"name\":\"\xc2\xa0A\",\"email\":\"e@x\"}".to_vec()
    );
}

#[test]
fn post_non_string_name_is_invalid_json() {
    let mut store = UserStore::new();
    let r = post_user(&mut store, "{\"name\":5,\"email\":\"a@x.com\"}");
    assert_eq!(r.status, StatusLine::Unprocessable);
    assert_eq!(r.body, b"Invalid JSON format".to_vec());
}

#[test]
fn post_null_email_is_invalid_json() {
    let mut store = UserStore::new();
    let r = post_user(&mut store, "{\"name\":\"Ann\",\"email\":null}");
    assert_eq!(r.status, StatusLine::Unprocessable);
    assert_eq!(r.body, b"Invalid JSON format".to_vec());
}

#[test]
fn post_non_object_body_is_invalid_json() {
    let mut store = UserStore::new();
    let r = post_user(&mut store, "[1,2]");
    assert_eq!(r.status, StatusLine::Unprocessable);
    assert_eq!(r.body, b"Invalid JSON format".to_vec());
}

#[test]
fn post_invalid_utf8_in_body_is_read_lossily() {
    let mut store = UserStore::new();
    // a raw 0xFF inside the name becomes U+FFFD when the buffer is read
    // as text, so the body still decodes
    let r = post_user(&mut store, "{\"name\":\"A\u{fffd}B\",\"email\":\"e@x\"}");
    assert_eq!(r.status, StatusLine::OkJson);
    let mut raw = b"POST /users HTTP/1.1\r\n\r\n{\"name\":\"C".to_vec();
    raw.push(0xFF);
    raw.extend_from_slice(b"D\",\"email\":\"e@x\"}");
    let r2 = send(&mut store, &raw);
    assert_eq!(r2.status, StatusLine::OkJson);
    assert_eq!(
        r2.body,
        b"{\"id\":2,\"name\":\"C\xef\xbf\xbdD\",\"email\":\"e@x\"}".to_vec()
    );
}

#[test]
fn control_characters_use_the_short_escapes() {
    let mut store = UserStore::new();
    let r = post_user(
        &mut store,
        "{\"name\":\"a\\tb\\nc\\rd\\fe\\bf\\u0001g\",\"email\":\"e@x\"}",
    );
    assert_eq!(r.status, StatusLine::OkJson);
    assert_eq!(
        r.body,
        b"{\"id\":1,\"name\":\"a\\tb\\nc\\rd\\fe\\bf\\u0001g\",\"email\":\"e@x\"}".to_vec()
    );
}

#[test]
fn post_invalid_json_is_rejected_first() {
    let mut store = UserStore::new();
    let r = post_user(&mut store, "this is not json");
    assert_eq!(r.status, StatusLine::Unprocessable);
    assert_eq!(r.body, b"Invalid JSON format".to_vec());
}

#[test]
fn post_without_blank_line_is_invalid_json() {
    let mut store = UserStore::new();
    let r = send(&mut store, b"POST /users HTTP/1.1");
    assert_eq!(r.status, StatusLine::Unprocessable);
    assert_eq!(r.body, b"Invalid JSON format".to_vec());
}

#[test]
fn body_starts_at_the_first_blank_line() {
    let mut store = UserStore::new();
    // everything after the first blank line is the body, even when a later
    // blank line follows; the tail here is not one valid JSON document
    let r = send(
        &mut store,
        b"POST /users HTTP/1.1\r\n\r\njunk\r\n\r\n{\"name\":\"Ann\",\"email\":\"a@x.com\"}",
    );
    assert_eq!(r.status, StatusLine::Unprocessable);
    assert_eq!(r.body, b"Invalid JSON format".to_vec());
}

#[test]
fn post_ignores_id_in_body() {
    let mut store = UserStore::new();
    let r = post_user(&mut store, "{\"id\":99,\"name\":\"Bo\",\"email\":\"b@x.com\"}");
    assert_eq!(r.status, StatusLine::OkJson);
    assert_eq!(
        r.body,
        b"{\"id\":1,\"name\":\"Bo\",\"email\":\"b@x.com\"}".to_vec()
    );
}

#[test]
fn put_overwrites_fields_and_ignores_body_id() {
    let mut store = UserStore::new();
    post_user(&mut store, "{\"name\":\"Ann\",\"email\":\"a@x.com\"}");
    let r = send(
        &mut store,
        b"PUT /users/1 HTTP/1.1\r\n\r\n{\"id\":7,\"name\":\"New\",\"email\":\"n@x.com\"}",
    );
    assert_eq!(r.status, StatusLine::OkJson);
    assert_eq!(
        r.body,
        b"{\"id\":1,\"name\":\"New\",\"email\":\"n@x.com\"}".to_vec()
    );
    let fetched = send(&mut store, b"GET /users/1 HTTP/1.1\r\n\r\n");
    assert_eq!(fetched.body, r.body);
}

#[test]
fn put_missing_user_fails() {
    let mut store = UserStore::new();
    let r = send(
        &mut store,
        b"PUT /users/5 HTTP/1.1\r\n\r\n{\"name\":\"New\",\"email\":\"n@x.com\"}",
    );
    assert_eq!(r.status, StatusLine::ServerError);
    assert_eq!(r.body, b"Failed to update user".to_vec());
}

#[test]
fn put_bad_id_is_invalid_user_id() {
    let mut store = UserStore::new();
    let r = send(
        &mut store,
        b"PUT /users/abc HTTP/1.1\r\n\r\n{\"name\":\"New\",\"email\":\"n@x.com\"}",
    );
    assert_eq!(r.status, StatusLine::ServerError);
    assert_eq!(r.body, b"Invalid user ID".to_vec());
}

#[test]
fn delete_twice_reports_failure_the_second_time() {
    let mut store = UserStore::new();
    post_user(&mut store, "{\"name\":\"Ann\",\"email\":\"a@x.com\"}");
    let first = send(&mut store, b"DELETE /users/1 HTTP/1.1\r\n\r\n");
    assert_eq!(first.status, StatusLine::NoContent);
    assert_eq!(first.body, b"User deleted".to_vec());
    let second = send(&mut store, b"DELETE /users/1 HTTP/1.1\r\n\r\n");
    assert_eq!(second.status, StatusLine::ServerError);
    assert_eq!(second.body, b"Error".to_vec());
}

#[test]
fn delete_bad_id_is_error() {
    let mut store = UserStore::new();
    let r = send(&mut store, b"DELETE /users/x HTTP/1.1\r\n\r\n");
    assert_eq!(r.status, StatusLine::ServerError);
    assert_eq!(r.body, b"Error".to_vec());
}

#[test]
fn fetch_bad_id_is_error() {
    let mut store = UserStore::new();
    let r = send(&mut store, b"GET /users/abc HTTP/1.1\r\n\r\n");
    assert_eq!(r.status, StatusLine::ServerError);
    assert_eq!(r.body, b"Error".to_vec());
}

#[test]
fn list_is_sorted_by_ascending_id() {
    let mut store = UserStore::new();
    post_user(&mut store, "{\"name\":\"A\",\"email\":\"a@x\"}");
    post_user(&mut store, "{\"name\":\"B\",\"email\":\"b@x\"}");
    post_user(&mut store, "{\"name\":\"C\",\"email\":\"c@x\"}");
    send(&mut store, b"DELETE /users/2 HTTP/1.1\r\n\r\n");
    post_user(&mut store, "{\"name\":\"D\",\"email\":\"d@x\"}");
    let r = send(&mut store, b"GET /users HTTP/1.1\r\n\r\n");
    assert_eq!(r.status, StatusLine::OkJson);
    let expected = "[{\"id\":1,\"name\":\"A\",\"email\":\"a@x\"},{\"id\":3,\"name\":\"C\",\"email\":\"c@x\"},{\"id\":4,\"name\":\"D\",\"email\":\"d@x\"}]";
    assert_eq!(r.body, expected.as_bytes().to_vec());
}

#[test]
fn list_of_empty_table_is_empty_array() {
    let mut store = UserStore::new();
    let r = send(&mut store, b"GET /users HTTP/1.1\r\n\r\n");
    assert_eq!(r.status, StatusLine::OkJson);
    assert_eq!(r.body, b"[]".to_vec());
}

#[test]
fn unknown_route_is_not_found() {
    let mut store = UserStore::new();
    let r = send(&mut store, b"PATCH /users/1 HTTP/1.1\r\n\r\n");
    assert_eq!(r.status, StatusLine::NotFound);
    assert_eq!(r.body, b"Not Found".to_vec());
}

#[test]
fn quotes_in_fields_are_escaped() {
    let mut store = UserStore::new();
    let r = post_user(&mut store, "{\"name\":\"A\\\"B\",\"email\":\"e@x\"}");
    assert_eq!(r.status, StatusLine::OkJson);
    assert_eq!(
        r.body,
        b"{\"id\":1,\"name\":\"A\\\"B\",\"email\":\"e@x\"}".to_vec()
    );
}

#[test]
fn response_bytes_concatenates_status_line_and_body() {
    let mut store = UserStore::new();
    let r = send(&mut store, b"GET /users/9 HTTP/1.1\r\n\r\n");
    let bytes = response_bytes(&r);
    assert_eq!(
        bytes,
        b"HTTP/1.1 404 NOT FOUND\r\n\r\nUser not found".to_vec()
    );
}

#[test]
fn ok_response_carries_json_content_type() {
    let mut store = UserStore::new();
    let r = post_user(&mut store, "{\"name\":\"Ann\",\"email\":\"a@x.com\"}");
    let bytes = response_bytes(&r);
    let expected =
        b"HTTP/1.1 200 OK\r\nContent-Type: application/json\r\n\r\n{\"id\":1,\"name\":\"Ann\",\"email\":\"a@x.com\"}";
    assert_eq!(bytes, expected.to_vec());
}
