use vstd::prelude::*;
use vstd::string::StringExecFns;

use crate::entry::{entries_view, TodoEntry};
use crate::form::{
    add_request_of, delete_request_of, form_fields_of, parse_add_form, parse_delete_form,
    ClientInputError,
};
use crate::page::{page_html, render_index};
use crate::store::{after_delete, after_insert, can_insert, store_wf, StoreError, StoreView, TodoStore};

verus! {

pub const STATUS_OK: u16 = 200;

pub const STATUS_SEE_OTHER: u16 = 303;

pub const STATUS_BAD_REQUEST: u16 = 400;

pub const STATUS_UNSUPPORTED_MEDIA_TYPE: u16 = 415;

pub const STATUS_INTERNAL_SERVER_ERROR: u16 = 500;

/// Where the list page is served, and where writes redirect to.
pub const LIST_PATH: &'static str = "/";

pub const NOT_A_FORM_TEXT: &'static str = "Unsupported Media Type: expected a form-encoded body";

pub const MISSING_FIELD_TEXT: &'static str = "Bad Request: a required field is missing";

pub const DUPLICATE_FIELD_TEXT: &'static str = "Bad Request: a field is given more than once";

pub const INVALID_ID_TEXT: &'static str = "Bad Request: the id is not a valid number";

pub const SERVER_ERROR_TEXT: &'static str = "Internal Server Error";

/// What a handler answers: a status, an optional `Location` header, whether
/// the body is an HTML page, and the body.
pub struct Response {
    pub status: u16,
    pub location: Option<String>,
    pub html: bool,
    pub body: String,
}

/// The body that explains a client error.
pub open spec fn client_error_text(e: ClientInputError) -> Seq<char> {
    match e {
        ClientInputError::NotAForm => NOT_A_FORM_TEXT@,
        ClientInputError::MissingField => MISSING_FIELD_TEXT@,
        ClientInputError::DuplicateField => DUPLICATE_FIELD_TEXT@,
        ClientInputError::InvalidId => INVALID_ID_TEXT@,
    }
}

/// A 200 response carrying `page` as HTML.
pub open spec fn is_page(r: Response, page: Seq<char>) -> bool {
    &&& r.status == STATUS_OK
    &&& r.location is None
    &&& r.html
    &&& r.body@ == page
}

/// A 303 response that sends the client back to the list, with no body.
pub open spec fn is_redirect_to_list(r: Response) -> bool {
    &&& r.status == STATUS_SEE_OTHER
    &&& r.location matches Some(l) && l@ == LIST_PATH@
    &&& !r.html
    &&& r.body@.len() == 0
}

/// The status that answers a client error: 415 for a body that is not
/// declared as a form, 400 for a form with wrong fields.
pub open spec fn client_error_status(e: ClientInputError) -> u16 {
    if e == ClientInputError::NotAForm {
        STATUS_UNSUPPORTED_MEDIA_TYPE
    } else {
        STATUS_BAD_REQUEST
    }
}

/// A 4xx response that explains `e`.
pub open spec fn is_client_error(r: Response, e: ClientInputError) -> bool {
    &&& r.status == client_error_status(e)
    &&& r.location is None
    &&& !r.html
    &&& r.body@ == client_error_text(e)
}

/// A 500 response.
pub open spec fn is_server_error(r: Response) -> bool {
    &&& r.status == STATUS_INTERNAL_SERVER_ERROR
    &&& r.location is None
    &&& !r.html
    &&& r.body@ == SERVER_ERROR_TEXT@
}

fn plain_response(status: u16, text: &str) -> (r: Response)
    ensures
        r.status == status,
        r.location is None,
        !r.html,
        r.body@ == text@,
{
    Response { status, location: None, html: false, body: String::from_str(text) }
}

/// The answer to a request the client got wrong.
pub fn client_error_response(e: ClientInputError) -> (r: Response)
    ensures
        is_client_error(r, e),
{
    let text = match e {
        ClientInputError::NotAForm => NOT_A_FORM_TEXT,
        ClientInputError::MissingField => MISSING_FIELD_TEXT,
        ClientInputError::DuplicateField => DUPLICATE_FIELD_TEXT,
        ClientInputError::InvalidId => INVALID_ID_TEXT,
    };
    let status = match e {
        ClientInputError::NotAForm => STATUS_UNSUPPORTED_MEDIA_TYPE,
        _ => STATUS_BAD_REQUEST,
    };
    plain_response(status, text)
}

/// The answer to a request the store could not serve.
pub fn server_error_response() -> (r: Response)
    ensures
        is_server_error(r),
{
    plain_response(STATUS_INTERNAL_SERVER_ERROR, SERVER_ERROR_TEXT)
}

/// The answer to a request for the list, given what the store listed.
pub fn list_response(listed: Result<Vec<TodoEntry>, StoreError>) -> (r: Response)
    ensures
        match listed {
            Ok(es) => is_page(r, page_html(entries_view(es@))),
            Err(_) => is_server_error(r),
        },
{
    match listed {
        Ok(es) => {
            let body = render_index(&es);
            Response { status: STATUS_OK, location: None, html: true, body }
        },
        Err(_) => server_error_response(),
    }
}

/// The answer to an add or a delete, given whether the store did it.
pub fn write_response(written: Result<(), StoreError>) -> (r: Response)
    ensures
        written is Ok ==> is_redirect_to_list(r),
        written is Err ==> is_server_error(r),
{
    match written {
        Ok(()) => Response {
            status: STATUS_SEE_OTHER,
            location: Some(String::from_str(LIST_PATH)),
            html: false,
            body: String::new(),
        },
        Err(_) => server_error_response(),
    }
}

/// A request to the service: show the list, or add or delete with a
/// form-encoded body.
pub enum Request {
    Index,
    Add(Vec<u8>),
    Delete(Vec<u8>),
}

/// What answering an add request with this body does to a store: the text
/// is stored, unless the form is wrong or the store has no id left.
pub open spec fn add_outcome(before: StoreView, body: Seq<u8>, r: Response, after: StoreView) -> bool {
    match add_request_of(form_fields_of(body)) {
        Err(e) => is_client_error(r, e) && after == before,
        Ok(t) => if can_insert(before) {
            is_redirect_to_list(r) && after == after_insert(before, t)
        } else {
            is_server_error(r) && after == before
        },
    }
}

/// What answering a delete request with this body does to a store: the id
/// is removed (an id that no entry has changes nothing), unless the form is
/// wrong.
pub open spec fn delete_outcome(before: StoreView, body: Seq<u8>, r: Response, after: StoreView) -> bool {
    match delete_request_of(form_fields_of(body)) {
        Err(e) => is_client_error(r, e) && after == before,
        Ok(id) => is_redirect_to_list(r) && after == after_delete(before, id),
    }
}

/// The service's behaviour, modelled over an in-memory store: one request
/// is served with one store command at most, and none for a client error.
/// The server makes the same calls (`parse_add_form`, `parse_delete_form`,
/// `list_response`, `write_response`) with the database in place of the
/// store; this function is what tests run.
pub fn handle(store: &mut TodoStore, req: &Request) -> (r: Response)
    requires
        old(store).wf(),
    ensures
        final(store).wf(),
        store_wf(final(store)@),
        400 <= r.status < 500 ==> final(store)@ == old(store)@,
        req is Index ==> is_page(r, page_html(old(store)@.entries)) && final(store)@ == old(store)@,
        req matches Request::Add(body) ==> add_outcome(old(store)@, body@, r, final(store)@),
        req matches Request::Delete(body) ==> delete_outcome(old(store)@, body@, r, final(store)@),
        req matches Request::Delete(body) && delete_request_of(form_fields_of(body@)) is Err
            ==> 400 <= r.status < 500 && final(store)@ == old(store)@,
{
    let r = match req {
        Request::Index => list_response(Ok(store.list_entries())),
        Request::Add(body) => match parse_add_form(body.as_slice()) {
            Ok(params) => write_response(store.insert_entry(params.text)),
            Err(e) => client_error_response(e),
        },
        Request::Delete(body) => match parse_delete_form(body.as_slice()) {
            Ok(params) => write_response(store.delete_entry(params.id)),
            Err(e) => client_error_response(e),
        },
    };
    proof {
        store.lemma_wf_view();
    }
    r
}

} // verus!
