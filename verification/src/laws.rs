//! Properties of the dispatcher as a whole, proved over the same spec
//! functions the handlers' contracts use.
use crate::codec::{json_text_fields, json_user, json_users, lit_bytes, non_text,
    spec_decode_user, text_of, usable_text, BodyError};
use crate::http::{
    resp, spec_handle, spec_handle_delete, spec_handle_get, spec_handle_get_all, spec_handle_put,
    spec_route, RouteKind, StatusLine,
};
use crate::store::{
    contains_id, find_id, id_of, lemma_find_id, lemma_find_id_absent, lemma_find_id_unique,
    lookup, row_ok, rows_wf,
};
use crate::text::{spec_body, spec_id_token, spec_parse_i32};
use crate::user::UserView;
use vstd::prelude::*;

verus! {

/// Appending a fresh row under the next id keeps the table well formed,
/// and the new id then looks up exactly the new row.
pub proof fn lemma_push_wf(rows: Seq<UserView>, next: int, name: Seq<u8>, email: Seq<u8>)
    requires
        rows_wf(rows, next),
    ensures
        ({
            let u = (UserView { id: Some(next), name, email });
            rows_wf(rows.push(u), next + 1) && lookup(rows.push(u), next) == Some(u)
        }),
{
    let u = (UserView { id: Some(next), name, email });
    let rows1 = rows.push(u);
    assert forall|i: int| 0 <= i < rows1.len() implies row_ok(#[trigger] rows1[i], next + 1) by {
        if i < rows.len() {
            assert(row_ok(rows[i], next));
        }
    }
    assert forall|a: int, b: int|
        #![trigger rows1[a], rows1[b]]
        0 <= a < b < rows1.len() implies id_of(rows1[a]) < id_of(rows1[b]) by {
        if b < rows.len() {
            assert(id_of(rows[a]) < id_of(rows[b]));
        } else {
            assert(row_ok(rows[a], next));
        }
    }
    lemma_find_id_unique(rows1, next + 1, next, rows.len() as int);
}

/// A well-formed body, posted and then fetched under the id the store
/// assigned, comes back as the identical record: the POST's 200 body and
/// the GET's 200 body are the JSON of one and the same row.
pub proof fn lemma_created_record_is_fetched(
    rows: Seq<UserView>,
    next: int,
    post_req: Seq<u8>,
    get_req: Seq<u8>,
)
    requires
        rows_wf(rows, next),
        next < 2147483647,
        spec_route(post_req) == RouteKind::CreateUser,
        spec_decode_user(spec_body(post_req)) is Ok,
        spec_route(get_req) == RouteKind::FetchUser,
        spec_parse_i32(spec_id_token(get_req)) == Some(next),
    ensures
        ({
            let f = spec_decode_user(spec_body(post_req))->Ok_0;
            let u = (UserView { id: Some(next), name: f.0, email: f.1 });
            let step1 = spec_handle(rows, next, post_req);
            let step2 = spec_handle(step1.0, step1.1, get_req);
            &&& step1.2 == resp(StatusLine::OkJson, json_user(u))
            &&& step2.2 == resp(StatusLine::OkJson, json_user(u))
            &&& step2.0 == step1.0
        }),
{
    let f = spec_decode_user(spec_body(post_req))->Ok_0;
    lemma_push_wf(rows, next, f.0, f.1);
}

/// An id no row holds answers with that verb's failure: the GET is a 404,
/// the DELETE a 500, and a PUT with a well-formed body a 500, none of
/// them touching the table.
pub proof fn lemma_missing_id_not_found(rows: Seq<UserView>, next: int, req: Seq<u8>, id: int)
    requires
        rows_wf(rows, next),
        spec_parse_i32(spec_id_token(req)) == Some(id),
        !contains_id(rows, id),
    ensures
        spec_handle_get(rows, req) == resp(StatusLine::NotFound, lit_bytes("User not found"@)),
        spec_handle_delete(rows, req) == (rows, resp(StatusLine::ServerError, lit_bytes("Error"@))),
        spec_decode_user(spec_body(req)) is Ok ==> spec_handle_put(rows, req) == (
            rows,
            resp(StatusLine::ServerError, lit_bytes("Failed to update user"@)),
        ),
{
}

/// A PUT overwrites both text fields of the row at the path id and keeps
/// that id; whatever id the body carried plays no part — the written row
/// is built from the path id and the body's fields alone.
pub proof fn lemma_put_uses_path_id_only(rows: Seq<UserView>, next: int, req: Seq<u8>, id: int)
    requires
        rows_wf(rows, next),
        spec_parse_i32(spec_id_token(req)) == Some(id),
        spec_decode_user(spec_body(req)) is Ok,
        contains_id(rows, id),
    ensures
        ({
            let f = spec_decode_user(spec_body(req))->Ok_0;
            let u = (UserView { id: Some(id), name: f.0, email: f.1 });
            let k = find_id(rows, id);
            let after = spec_handle_put(rows, req);
            &&& after.0 == rows.update(k, u)
            &&& after.1 == resp(StatusLine::OkJson, json_user(u))
            &&& rows_wf(after.0, next)
            &&& lookup(after.0, id) == Some(u)
        }),
{
    let f = spec_decode_user(spec_body(req))->Ok_0;
    let u = (UserView { id: Some(id), name: f.0, email: f.1 });
    let k = find_id(rows, id);
    lemma_find_id(rows, id);
    let rows1 = rows.update(k, u);
    assert forall|i: int| 0 <= i < rows1.len() implies row_ok(#[trigger] rows1[i], next) by {
        assert(row_ok(rows[i], next));
    }
    assert forall|a: int, b: int|
        #![trigger rows1[a], rows1[b]]
        0 <= a < b < rows1.len() implies id_of(rows1[a]) < id_of(rows1[b]) by {
        assert(id_of(rows[a]) < id_of(rows[b]));
    }
    lemma_find_id_unique(rows1, next, id, k);
}

/// Deleting is idempotent in effect: the first DELETE of an id removes
/// its row and answers 204; the identical DELETE again finds nothing,
/// answers the failure, and leaves the table as it is.
pub proof fn lemma_delete_idempotent(rows: Seq<UserView>, next: int, req: Seq<u8>, id: int)
    requires
        rows_wf(rows, next),
        spec_parse_i32(spec_id_token(req)) == Some(id),
        contains_id(rows, id),
    ensures
        ({
            let once = spec_handle_delete(rows, req);
            let twice = spec_handle_delete(once.0, req);
            &&& once.1 == resp(StatusLine::NoContent, lit_bytes("User deleted"@))
            &&& twice.1 == resp(StatusLine::ServerError, lit_bytes("Error"@))
            &&& twice.0 == once.0
        }),
{
    let k = find_id(rows, id);
    lemma_find_id(rows, id);
    let rows1 = rows.remove(k);
    assert forall|j: int| 0 <= j < rows1.len() implies id_of(#[trigger] rows1[j]) != id by {
        let j0 = if j < k {
            j
        } else {
            j + 1
        };
        assert(rows1[j] == rows[j0]);
        if j0 > k {
            assert(id_of(rows[k]) < id_of(rows[j0]));
        }
    }
    lemma_find_id_absent(rows1, id);
}

/// The list answer serializes the table as it stands, and a well-formed
/// table is sorted by strictly ascending id — so the listing is sorted,
/// whatever order the rows were created in.
pub proof fn lemma_listing_sorted(rows: Seq<UserView>, next: int)
    requires
        rows_wf(rows, next),
    ensures
        spec_handle_get_all(rows) == resp(StatusLine::OkJson, json_users(rows)),
        forall|a: int, b: int|
            #![trigger rows[a], rows[b]]
            0 <= a < b < rows.len() ==> id_of(rows[a]) < id_of(rows[b]),
{
}

/// How a body is rejected, in the dispatcher's fixed order: a structural
/// failure first — unparseable text, a document that is no object, or a
/// name or email member that is no string — then a missing or blank
/// name, then a missing or blank email; only a body that clears all
/// three decodes.
pub proof fn lemma_body_rejection_order(body: Seq<u8>)
    ensures
        json_text_fields(body) is None ==> spec_decode_user(body) == Err::<
            (Seq<u8>, Seq<u8>),
            BodyError,
        >(BodyError::InvalidJson),
        json_text_fields(body) matches Some(f) && (!f.0 || non_text(f.1) || non_text(f.2))
            ==> spec_decode_user(body) == Err::<(Seq<u8>, Seq<u8>), BodyError>(
            BodyError::InvalidJson,
        ),
        json_text_fields(body) matches Some(f) && f.0 && !non_text(f.1) && !non_text(f.2)
            && !usable_text(f.1) ==> spec_decode_user(body) == Err::<(Seq<u8>, Seq<u8>), BodyError>(
            BodyError::NameRequired,
        ),
        json_text_fields(body) matches Some(f) && f.0 && !non_text(f.2) && usable_text(f.1)
            && !usable_text(f.2) ==> spec_decode_user(body) == Err::<
            (Seq<u8>, Seq<u8>),
            BodyError,
        >(BodyError::EmailRequired),
        json_text_fields(body) matches Some(f) && f.0 && usable_text(f.1) && usable_text(f.2)
            ==> spec_decode_user(body) == Ok::<(Seq<u8>, Seq<u8>), BodyError>(
            (
                text_of(json_text_fields(body)->Some_0.1),
                text_of(json_text_fields(body)->Some_0.2),
            ),
        ),
{
}

} // verus!
