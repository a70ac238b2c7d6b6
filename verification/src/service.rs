//! The handler layer: every outcome of routing and data access mapped
//! to a status code and exact body bytes.
//!
//! Every data-layer failure collapses to one uniform `500` response
//! with a fixed opaque body; the mapping lives here and nowhere else,
//! so no internal detail can reach a client.

use vstd::prelude::*;
use crate::json::{encode_lists, encode_todos, lists_json, todos_json};
use crate::model::{DataAccessError, HttpResponse, List, Todo};
use crate::router::Route;
use crate::store::{get_lists, get_todos, sorted_lists, todos_for};

verus! {

/// A response as the contracts see it: the status and the body bytes.
pub struct RespView {
    pub status: int,
    pub body: Seq<u8>,
}

impl View for HttpResponse {
    type V = RespView;

    open spec fn view(&self) -> RespView {
        RespView { status: self.status as int, body: self.body@ }
    }
}

/// The one body of every data-layer failure:
/// `{"error":"Something went wrong"}`.
pub open spec fn error_body() -> Seq<u8> {
    seq![
        0x7bu8,
        0x22u8,
        0x65u8,
        0x72u8,
        0x72u8,
        0x6fu8,
        0x72u8,
        0x22u8,
        0x3au8,
        0x22u8,
        0x53u8,
        0x6fu8,
        0x6du8,
        0x65u8,
        0x74u8,
        0x68u8,
        0x69u8,
        0x6eu8,
        0x67u8,
        0x20u8,
        0x77u8,
        0x65u8,
        0x6eu8,
        0x74u8,
        0x20u8,
        0x77u8,
        0x72u8,
        0x6fu8,
        0x6eu8,
        0x67u8,
        0x22u8,
        0x7du8,
    ]
}

/// The uniform failure view: `500` and the fixed body.
pub open spec fn failure_view() -> RespView {
    RespView { status: 500, body: error_body() }
}

/// The reply to a malformed id segment: `400`, nothing of our own in
/// the body.
pub open spec fn bad_request_view() -> RespView {
    RespView { status: 400, body: Seq::empty() }
}

/// The reply to a path that matches no route: `404`, empty body.
pub open spec fn not_found_view() -> RespView {
    RespView { status: 404, body: Seq::empty() }
}

/// The success view of `GET /lists` over the stored rows.
pub open spec fn lists_ok_view(rows: Seq<List>) -> RespView {
    RespView { status: 200, body: lists_json(sorted_lists(rows)) }
}

/// The success view of `GET /lists/{id}/todos` over the stored rows.
pub open spec fn todos_ok_view(rows: Seq<Todo>, list_id: i64) -> RespView {
    RespView { status: 200, body: todos_json(todos_for(rows, list_id)) }
}

/// Builds the uniform failure response. Whatever detail the error
/// carries, the body is the fixed constant: nothing of the underlying
/// failure is exposed.
pub fn error_response(err: &DataAccessError) -> (r: HttpResponse)
    ensures
        r@ == failure_view(),
{
    let mut body: Vec<u8> = Vec::new();
    body.push(0x7b);
    body.push(0x22);
    body.push(0x65);
    body.push(0x72);
    body.push(0x72);
    body.push(0x6f);
    body.push(0x72);
    body.push(0x22);
    body.push(0x3a);
    body.push(0x22);
    body.push(0x53);
    body.push(0x6f);
    body.push(0x6d);
    body.push(0x65);
    body.push(0x74);
    body.push(0x68);
    body.push(0x69);
    body.push(0x6e);
    body.push(0x67);
    body.push(0x20);
    body.push(0x77);
    body.push(0x65);
    body.push(0x6e);
    body.push(0x74);
    body.push(0x20);
    body.push(0x77);
    body.push(0x72);
    body.push(0x6f);
    body.push(0x6e);
    body.push(0x67);
    body.push(0x22);
    body.push(0x7d);
    proof {
        assert(body@ =~= error_body());
    }
    HttpResponse { status: 500, body }
}

/// Builds the `400` reply to a malformed id segment.
pub fn bad_request_response() -> (r: HttpResponse)
    ensures
        r@ == bad_request_view(),
{
    let body: Vec<u8> = Vec::new();
    proof {
        assert(body@ =~= Seq::<u8>::empty());
    }
    HttpResponse { status: 400, body }
}

/// Builds the `404` reply to an unmatched path.
pub fn not_found_response() -> (r: HttpResponse)
    ensures
        r@ == not_found_view(),
{
    let body: Vec<u8> = Vec::new();
    proof {
        assert(body@ =~= Seq::<u8>::empty());
    }
    HttpResponse { status: 404, body }
}

/// The `GET /lists` handler: a fetched table becomes `200` with the
/// rows as a JSON array in ascending id order, an empty table becomes
/// `200` with `[]`, and any data-access failure becomes the uniform
/// `500`.
pub fn handle_get_lists(fetch: Result<Vec<List>, DataAccessError>) -> (r: HttpResponse)
    ensures
        (match fetch {
            Ok(rows) => r@ == lists_ok_view(rows@),
            Err(_) => r@ == failure_view(),
        }),
{
    match fetch {
        Ok(rows) => {
            let ordered = get_lists(rows);
            let body = encode_lists(&ordered);
            HttpResponse { status: 200, body }
        },
        Err(e) => error_response(&e),
    }
}

/// The `GET /lists/{id}/todos` handler: the matching rows become `200`
/// with a JSON array in ascending id order — empty when nothing
/// matches, whether or not the list exists — and any data-access
/// failure becomes the uniform `500`.
pub fn handle_get_todos(fetch: Result<Vec<Todo>, DataAccessError>, list_id: i64) -> (r:
    HttpResponse)
    ensures
        (match fetch {
            Ok(rows) => r@ == todos_ok_view(rows@, list_id),
            Err(_) => r@ == failure_view(),
        }),
{
    match fetch {
        Ok(rows) => {
            let matching = get_todos(rows, list_id);
            let body = encode_todos(&matching);
            HttpResponse { status: 200, body }
        },
        Err(e) => error_response(&e),
    }
}

/// The store as the service model sees it: the rows of the two tables,
/// and whether the database answers at all.
pub struct StoreView {
    pub lists: Seq<List>,
    pub todos: Seq<Todo>,
    pub healthy: bool,
}

/// The complete observable behaviour of the service on a GET request:
/// status and body as a function of the path and the store alone.
pub open spec fn service_response(path: Seq<u8>, store: StoreView) -> RespView {
    match crate::router::route_spec(path) {
        Route::Lists => if store.healthy {
            lists_ok_view(store.lists)
        } else {
            failure_view()
        },
        Route::Todos(id) => if store.healthy {
            todos_ok_view(store.todos, id)
        } else {
            failure_view()
        },
        Route::BadTodoId => bad_request_view(),
        Route::NotFound => not_found_view(),
    }
}

/// The service produces no status of its own beyond these four: `200`
/// on success, `400` on a malformed id, `404` on an unmatched path,
/// `500` on a data-access failure.
pub proof fn lemma_only_documented_statuses(path: Seq<u8>, store: StoreView)
    ensures
        ({
            let st = service_response(path, store).status;
            st == 200 || st == 400 || st == 404 || st == 500
        }),
{
}

/// Idempotence of reads: the service's answer is a function of the
/// path and the store alone, so two runs of the same GET request with
/// no intervening change of the store return the same status and
/// byte-identical bodies.
pub proof fn lemma_get_idempotent(path: Seq<u8>, store: StoreView, r1: RespView, r2: RespView)
    requires
        r1 == service_response(path, store),
        r2 == service_response(path, store),
    ensures
        r1.status == r2.status,
        r1.body == r2.body,
{
}

} // verus!
