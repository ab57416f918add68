//! The request dispatcher: classify a request buffer by method and path
//! prefix, run the matching handler against the store, and shape the
//! outcome into a complete HTTP response. Every step is specified by a
//! pure function of the request bytes and the table.
use crate::codec::{
    body_error_message, get_user_request_body, json_user, json_users, lit, lit_bytes,
    spec_decode_user, user_json, users_json, BodyError,
};
use crate::store::{
    contains_id, create_user, delete_user, find_id, get_all_users, get_user, lookup,
    update_user, views_of, StoreError, UserStore,
};
use crate::text::{begins_with, get_id, has_prefix, parse_i32, spec_body, spec_id_token,
    spec_parse_i32};
use crate::user::{User, UserView};
use vstd::prelude::*;

verus! {

/// The status line a response is sent under.
#[derive(Clone, Copy, Debug, PartialEq, Eq, Structural)]
pub enum StatusLine {
    OkJson,
    NoContent,
    NotFound,
    Unprocessable,
    ServerError,
}

/// Spec-level image of a response.
#[verifier::ext_equal]
pub ghost struct ResponseView {
    pub status: StatusLine,
    pub body: Seq<u8>,
}

/// A response: its status line and its body.
pub struct Response {
    pub status: StatusLine,
    pub body: Vec<u8>,
}

impl View for Response {
    type V = ResponseView;

    open spec fn view(&self) -> ResponseView {
        ResponseView { status: self.status, body: self.body@ }
    }
}

pub open spec fn resp(status: StatusLine, body: Seq<u8>) -> ResponseView {
    ResponseView { status, body }
}

/// The bytes of each status line, headers block included.
pub open spec fn status_line_bytes(s: StatusLine) -> Seq<u8> {
    match s {
        StatusLine::OkJson => lit_bytes(
            "HTTP/1.1 200 OK\r\nContent-Type: application/json\r\n\r\n"@,
        ),
        StatusLine::NoContent => lit_bytes("HTTP/1.1 204 NO CONTENT\r\n\r\n"@),
        StatusLine::NotFound => lit_bytes("HTTP/1.1 404 NOT FOUND\r\n\r\n"@),
        StatusLine::Unprocessable => lit_bytes("HTTP/1.1 422 UNPROCESSABLE ENTITY\r\n\r\n"@),
        StatusLine::ServerError => lit_bytes("HTTP/1.1 500 INTERNAL SERVER ERROR\r\n\r\n"@),
    }
}

/// What goes on the wire: the status line block, then the body.
pub fn response_bytes(r: &Response) -> (out: Vec<u8>)
    ensures
        out@ == status_line_bytes(r@.status) + r@.body,
{
    let mut out = match r.status {
        StatusLine::OkJson => {
            proof {
                reveal_strlit("HTTP/1.1 200 OK\r\nContent-Type: application/json\r\n\r\n");
            }
            lit("HTTP/1.1 200 OK\r\nContent-Type: application/json\r\n\r\n")
        },
        StatusLine::NoContent => {
            proof {
                reveal_strlit("HTTP/1.1 204 NO CONTENT\r\n\r\n");
            }
            lit("HTTP/1.1 204 NO CONTENT\r\n\r\n")
        },
        StatusLine::NotFound => {
            proof {
                reveal_strlit("HTTP/1.1 404 NOT FOUND\r\n\r\n");
            }
            lit("HTTP/1.1 404 NOT FOUND\r\n\r\n")
        },
        StatusLine::Unprocessable => {
            proof {
                reveal_strlit("HTTP/1.1 422 UNPROCESSABLE ENTITY\r\n\r\n");
            }
            lit("HTTP/1.1 422 UNPROCESSABLE ENTITY\r\n\r\n")
        },
        StatusLine::ServerError => {
            proof {
                reveal_strlit("HTTP/1.1 500 INTERNAL SERVER ERROR\r\n\r\n");
            }
            lit("HTTP/1.1 500 INTERNAL SERVER ERROR\r\n\r\n")
        },
    };
    let mut body = crate::user::copy_bytes(&r.body);
    out.append(&mut body);
    out
}

/// The generic failure body.
fn error_body() -> (r: Vec<u8>)
    ensures
        r@ == lit_bytes("Error"@),
{
    proof {
        reveal_strlit("Error");
    }
    lit("Error")
}

/// The generic 500 answer.
pub fn server_error_response() -> (r: Response)
    ensures
        r@ == resp(StatusLine::ServerError, lit_bytes("Error"@)),
{
    Response { status: StatusLine::ServerError, body: error_body() }
}

/// The 500 answer to an update whose path id is not an integer.
pub fn invalid_id_response() -> (r: Response)
    ensures
        r@ == resp(StatusLine::ServerError, lit_bytes("Invalid user ID"@)),
{
    proof {
        reveal_strlit("Invalid user ID");
    }
    Response { status: StatusLine::ServerError, body: lit("Invalid user ID") }
}

/// The 404 answer to a request no route matches.
pub fn not_found_response() -> (r: Response)
    ensures
        r@ == resp(StatusLine::NotFound, lit_bytes("Not Found"@)),
{
    proof {
        reveal_strlit("Not Found");
    }
    Response { status: StatusLine::NotFound, body: lit("Not Found") }
}

/// The 422 answer to a rejected body.
pub fn body_rejected_response(e: BodyError) -> (r: Response)
    ensures
        r@ == resp(StatusLine::Unprocessable, body_error_message(e)),
{
    Response { status: StatusLine::Unprocessable, body: e.message() }
}

/// Maps a create outcome: the persisted record as JSON, or the generic
/// failure.
pub fn create_outcome_response(outcome: Result<User, StoreError>) -> (r: Response)
    ensures
        r@ == (match outcome {
            Ok(u) => resp(StatusLine::OkJson, json_user(u@)),
            Err(_) => resp(StatusLine::ServerError, lit_bytes("Error"@)),
        }),
{
    match outcome {
        Ok(u) => Response { status: StatusLine::OkJson, body: user_json(&u) },
        Err(_) => Response { status: StatusLine::ServerError, body: error_body() },
    }
}

/// Maps a fetch outcome: the record as JSON, or a not-found answer for
/// any failure.
pub fn fetch_outcome_response(outcome: Result<User, StoreError>) -> (r: Response)
    ensures
        r@ == (match outcome {
            Ok(u) => resp(StatusLine::OkJson, json_user(u@)),
            Err(_) => resp(StatusLine::NotFound, lit_bytes("User not found"@)),
        }),
{
    match outcome {
        Ok(u) => Response { status: StatusLine::OkJson, body: user_json(&u) },
        Err(_) => {
            proof {
                reveal_strlit("User not found");
            }
            Response { status: StatusLine::NotFound, body: lit("User not found") }
        },
    }
}

/// Maps a list outcome: the records as a JSON array, or the generic
/// failure.
pub fn list_outcome_response(outcome: Result<Vec<User>, StoreError>) -> (r: Response)
    ensures
        r@ == (match outcome {
            Ok(us) => resp(StatusLine::OkJson, json_users(views_of(us@))),
            Err(_) => resp(StatusLine::ServerError, lit_bytes("Error"@)),
        }),
{
    match outcome {
        Ok(us) => Response { status: StatusLine::OkJson, body: users_json(&us) },
        Err(_) => Response { status: StatusLine::ServerError, body: error_body() },
    }
}

/// Maps an update outcome: the updated record as JSON, or the update
/// failure message.
pub fn update_outcome_response(outcome: Result<User, StoreError>) -> (r: Response)
    ensures
        r@ == (match outcome {
            Ok(u) => resp(StatusLine::OkJson, json_user(u@)),
            Err(_) => resp(StatusLine::ServerError, lit_bytes("Failed to update user"@)),
        }),
{
    match outcome {
        Ok(u) => Response { status: StatusLine::OkJson, body: user_json(&u) },
        Err(_) => {
            proof {
                reveal_strlit("Failed to update user");
            }
            Response { status: StatusLine::ServerError, body: lit("Failed to update user") }
        },
    }
}

/// Maps a delete outcome: a no-content answer, or the generic failure.
pub fn delete_outcome_response(outcome: Result<(), StoreError>) -> (r: Response)
    ensures
        r@ == (match outcome {
            Ok(_) => resp(StatusLine::NoContent, lit_bytes("User deleted"@)),
            Err(_) => resp(StatusLine::ServerError, lit_bytes("Error"@)),
        }),
{
    match outcome {
        Ok(_) => {
            proof {
                reveal_strlit("User deleted");
            }
            Response { status: StatusLine::NoContent, body: lit("User deleted") }
        },
        Err(_) => Response { status: StatusLine::ServerError, body: error_body() },
    }
}

/// What a POST does to the table and answers: a rejected body is a 422
/// with its message; otherwise the record is appended under the next id
/// and echoed, unless the id counter is exhausted.
pub open spec fn spec_handle_post(rows: Seq<UserView>, next: int, req: Seq<u8>) -> (
    Seq<UserView>,
    int,
    ResponseView,
) {
    match spec_decode_user(spec_body(req)) {
        Err(e) => (rows, next, resp(StatusLine::Unprocessable, body_error_message(e))),
        Ok(f) => if next < 2147483647 {
            let u = (UserView { id: Some(next), name: f.0, email: f.1 });
            (rows.push(u), next + 1, resp(StatusLine::OkJson, json_user(u)))
        } else {
            (rows, next, resp(StatusLine::ServerError, lit_bytes("Error"@)))
        },
    }
}

/// Serves `POST /users`, exactly as `spec_handle_post` says.
pub fn handle_post_request(store: &mut UserStore, request: &[u8]) -> (r: Response)
    requires
        old(store).wf(),
    ensures
        final(store).wf(),
        final(store).rows() == spec_handle_post(
            old(store).rows(),
            old(store).next(),
            request@,
        ).0,
        final(store).next() == spec_handle_post(old(store).rows(), old(store).next(), request@).1,
        r@ == spec_handle_post(old(store).rows(), old(store).next(), request@).2,
{
    match get_user_request_body(request) {
        Err(e) => body_rejected_response(e),
        Ok(user) => create_outcome_response(create_user(store, &user)),
    }
}

/// What a GET of one record answers: a malformed id is the generic
/// failure; a missing id is not found; otherwise the record as JSON.
pub open spec fn spec_handle_get(rows: Seq<UserView>, req: Seq<u8>) -> ResponseView {
    match spec_parse_i32(spec_id_token(req)) {
        None => resp(StatusLine::ServerError, lit_bytes("Error"@)),
        Some(id) => match lookup(rows, id) {
            Some(u) => resp(StatusLine::OkJson, json_user(u)),
            None => resp(StatusLine::NotFound, lit_bytes("User not found"@)),
        },
    }
}

/// Serves `GET /users/<id>`, exactly as `spec_handle_get` says.
pub fn handle_get_request(store: &UserStore, request: &[u8]) -> (r: Response)
    requires
        store.wf(),
    ensures
        r@ == spec_handle_get(store.rows(), request@),
{
    let token = get_id(request);
    match parse_i32(token.as_slice()) {
        Some(id) => fetch_outcome_response(get_user(store, id)),
        None => server_error_response(),
    }
}

/// What a GET of the whole table answers: every row, in table order.
pub open spec fn spec_handle_get_all(rows: Seq<UserView>) -> ResponseView {
    resp(StatusLine::OkJson, json_users(rows))
}

/// Serves `GET /users`, exactly as `spec_handle_get_all` says; the
/// request buffer plays no part.
pub fn handle_get_all_request(store: &UserStore, _request: &[u8]) -> (r: Response)
    requires
        store.wf(),
    ensures
        r@ == spec_handle_get_all(store.rows()),
{
    list_outcome_response(get_all_users(store))
}

/// What a PUT does and answers: a malformed path id is rejected first,
/// then the body; otherwise both text fields of the row at the path id
/// are overwritten — any id in the body is ignored — and the written
/// record is echoed; a missing row is the update failure.
pub open spec fn spec_handle_put(rows: Seq<UserView>, req: Seq<u8>) -> (Seq<UserView>, ResponseView) {
    match spec_parse_i32(spec_id_token(req)) {
        None => (rows, resp(StatusLine::ServerError, lit_bytes("Invalid user ID"@))),
        Some(id) => match spec_decode_user(spec_body(req)) {
            Err(e) => (rows, resp(StatusLine::Unprocessable, body_error_message(e))),
            Ok(f) => {
                let u = (UserView { id: Some(id), name: f.0, email: f.1 });
                if contains_id(rows, id) {
                    (rows.update(find_id(rows, id), u), resp(StatusLine::OkJson, json_user(u)))
                } else {
                    (rows, resp(StatusLine::ServerError, lit_bytes("Failed to update user"@)))
                }
            },
        },
    }
}

/// Serves `PUT /users/<id>`, exactly as `spec_handle_put` says.
pub fn handle_put_request(store: &mut UserStore, request: &[u8]) -> (r: Response)
    requires
        old(store).wf(),
    ensures
        final(store).wf(),
        final(store).next() == old(store).next(),
        final(store).rows() == spec_handle_put(old(store).rows(), request@).0,
        r@ == spec_handle_put(old(store).rows(), request@).1,
{
    let token = get_id(request);
    let id = match parse_i32(token.as_slice()) {
        Some(id) => id,
        None => {
            return invalid_id_response();
        },
    };
    let mut user = match get_user_request_body(request) {
        Ok(user) => user,
        Err(e) => {
            return body_rejected_response(e);
        },
    };
    user.id = Some(id);
    update_outcome_response(update_user(store, user))
}

/// What a DELETE does and answers: a malformed id or a missing row is
/// the generic failure; otherwise the row goes and the rest keep their
/// order.
pub open spec fn spec_handle_delete(rows: Seq<UserView>, req: Seq<u8>) -> (
    Seq<UserView>,
    ResponseView,
) {
    match spec_parse_i32(spec_id_token(req)) {
        None => (rows, resp(StatusLine::ServerError, lit_bytes("Error"@))),
        Some(id) => if contains_id(rows, id) {
            (rows.remove(find_id(rows, id)), resp(StatusLine::NoContent, lit_bytes("User deleted"@)))
        } else {
            (rows, resp(StatusLine::ServerError, lit_bytes("Error"@)))
        },
    }
}

/// Serves `DELETE /users/<id>`, exactly as `spec_handle_delete` says.
pub fn handle_delete_request(store: &mut UserStore, request: &[u8]) -> (r: Response)
    requires
        old(store).wf(),
    ensures
        final(store).wf(),
        final(store).next() == old(store).next(),
        final(store).rows() == spec_handle_delete(old(store).rows(), request@).0,
        r@ == spec_handle_delete(old(store).rows(), request@).1,
{
    let token = get_id(request);
    match parse_i32(token.as_slice()) {
        Some(id) => delete_outcome_response(delete_user(store, id)),
        None => server_error_response(),
    }
}

/// How a request buffer is classified, by method and path prefix, in
/// the dispatcher's fixed order.
#[derive(Clone, Copy, Debug, PartialEq, Eq, Structural)]
pub enum RouteKind {
    CreateUser,
    FetchUser,
    ListUsers,
    UpdateUser,
    DeleteUser,
    Unknown,
}

pub open spec fn spec_route(req: Seq<u8>) -> RouteKind {
    if begins_with(req, lit_bytes("POST /users"@)) {
        RouteKind::CreateUser
    } else if begins_with(req, lit_bytes("GET /users/"@)) {
        RouteKind::FetchUser
    } else if begins_with(req, lit_bytes("GET /users"@)) {
        RouteKind::ListUsers
    } else if begins_with(req, lit_bytes("PUT /users"@)) {
        RouteKind::UpdateUser
    } else if begins_with(req, lit_bytes("DELETE /users"@)) {
        RouteKind::DeleteUser
    } else {
        RouteKind::Unknown
    }
}

/// Classifies a request buffer, exactly as `spec_route` says.
pub fn route_request(request: &[u8]) -> (k: RouteKind)
    ensures
        k == spec_route(request@),
{
    proof {
        reveal_strlit("POST /users");
        reveal_strlit("GET /users/");
        reveal_strlit("GET /users");
        reveal_strlit("PUT /users");
        reveal_strlit("DELETE /users");
    }
    let p = lit("POST /users");
    if has_prefix(request, p.as_slice()) {
        return RouteKind::CreateUser;
    }
    let p = lit("GET /users/");
    if has_prefix(request, p.as_slice()) {
        return RouteKind::FetchUser;
    }
    let p = lit("GET /users");
    if has_prefix(request, p.as_slice()) {
        return RouteKind::ListUsers;
    }
    let p = lit("PUT /users");
    if has_prefix(request, p.as_slice()) {
        return RouteKind::UpdateUser;
    }
    let p = lit("DELETE /users");
    if has_prefix(request, p.as_slice()) {
        return RouteKind::DeleteUser;
    }
    RouteKind::Unknown
}

/// One whole request against the table: classify, handle, answer. An
/// unroutable request is a 404.
pub open spec fn spec_handle(rows: Seq<UserView>, next: int, req: Seq<u8>) -> (
    Seq<UserView>,
    int,
    ResponseView,
) {
    match spec_route(req) {
        RouteKind::CreateUser => spec_handle_post(rows, next, req),
        RouteKind::FetchUser => (rows, next, spec_handle_get(rows, req)),
        RouteKind::ListUsers => (rows, next, spec_handle_get_all(rows)),
        RouteKind::UpdateUser => {
            let p = spec_handle_put(rows, req);
            (p.0, next, p.1)
        },
        RouteKind::DeleteUser => {
            let p = spec_handle_delete(rows, req);
            (p.0, next, p.1)
        },
        RouteKind::Unknown => (rows, next, resp(StatusLine::NotFound, lit_bytes("Not Found"@))),
    }
}

/// Serves one request buffer end to end, exactly as `spec_handle` says.
pub fn handle_request(store: &mut UserStore, request: &[u8]) -> (r: Response)
    requires
        old(store).wf(),
    ensures
        final(store).wf(),
        final(store).rows() == spec_handle(old(store).rows(), old(store).next(), request@).0,
        final(store).next() == spec_handle(old(store).rows(), old(store).next(), request@).1,
        r@ == spec_handle(old(store).rows(), old(store).next(), request@).2,
{
    match route_request(request) {
        RouteKind::CreateUser => handle_post_request(store, request),
        RouteKind::FetchUser => handle_get_request(store, request),
        RouteKind::ListUsers => handle_get_all_request(store, request),
        RouteKind::UpdateUser => handle_put_request(store, request),
        RouteKind::DeleteUser => handle_delete_request(store, request),
        RouteKind::Unknown => not_found_response(),
    }
}

} // verus!
