//! The answers to the requests on strings.
//!
//! Each function decides one request on plain values: it takes the store
//! and what the request carried, and gives the answer with its status. The
//! transport around it reads the request and sends the answer.

use vstd::prelude::*;
use crate::models::string::{
    FilteredResponse, Filters, InterpretedQuery, NaturalLanguageResponse, RecordModel,
    StoredString, StringInput, Timestamp, models_of,
};
use crate::services::analyzer::{analysis, analyze_string};
use crate::services::nlp_parser::{
    interpretation, parse_natural_language, InterpretError, InterpretFailure,
};
use crate::services::storage;
use crate::services::storage::{holds, lookup, selected, without, RecordStore};
use crate::utils::digest::content_hash;
use crate::utils::filters::{parse_filters, parse_outcome, ParseFailure, QueryParams};
use crate::utils::response::{error_response, refusal, success_response, ErrorResponse, Reply, Status};

verus! {

/// A free-text query.
#[derive(Debug)]
pub struct NLQuery {
    pub query: String,
}

/// The record that is made of the text `value` at the time `created_at`.
pub open spec fn new_record(value: Seq<char>, created_at: Timestamp) -> RecordModel {
    RecordModel {
        id: content_hash(value),
        value,
        properties: analysis(value),
        created_at,
    }
}

/// Why a request to store a string is refused, if it is: the body could not
/// be read, the text is empty, or the text is stored already.
pub open spec fn create_refusal(store: Seq<RecordModel>, body: Option<Seq<char>>) -> Option<
    (Status, Seq<char>),
> {
    match body {
        None => Some((Status::BadRequest, "Invalid request body or missing value field"@)),
        Some(value) => if value.len() == 0 {
            Some((Status::BadRequest, "value field cannot be empty"@))
        } else if holds(store, content_hash(value)) {
            Some((Status::Conflict, "String already exists"@))
        } else {
            None
        },
    }
}

/// The text of the body of a request to store a string.
pub open spec fn body_text(body: Option<StringInput>) -> Option<Seq<char>> {
    match body {
        Some(input) => Some(input.value@),
        None => None,
    }
}

/// The status with which a phrase that gave no filter set is refused.
pub open spec fn interpret_status(failure: InterpretFailure) -> Status {
    match failure {
        InterpretFailure::ConflictingFilters => Status::UnprocessableEntity,
        _ => Status::BadRequest,
    }
}

/// Analyses the text of the request and stores it. `body` is `None` where
/// the request carried no readable text.
pub fn create_string(store: &mut RecordStore, body: Option<StringInput>, created_at: Timestamp) -> (outcome:
    Result<Reply<StoredString>, Reply<ErrorResponse>>)
    ensures
        match outcome {
            Ok(reply) => {
                &&& create_refusal(old(store)@, body_text(body)) is None
                &&& reply.status == Status::Created
                &&& reply.body@ == new_record(body->0.value@, created_at)
                &&& final(store)@ == old(store)@.push(reply.body@)
            },
            Err(reply) => {
                &&& create_refusal(old(store)@, body_text(body)) == Some(refusal(reply))
                &&& final(store)@ == old(store)@
            },
        },
{
    let body = match body {
        Some(b) => b,
        None => {
            return Err(
                error_response("Invalid request body or missing value field", Status::BadRequest),
            );
        },
    };
    let value = &body.value;
    if value.as_str().unicode_len() == 0 {
        return Err(error_response("value field cannot be empty", Status::BadRequest));
    }
    let properties = analyze_string(value.as_str());
    let hash = properties.sha256_hash.clone();
    if storage::string_exists(store, hash.as_str()) {
        return Err(error_response("String already exists", Status::Conflict));
    }
    let stored = StoredString { id: hash, value: value.clone(), properties, created_at };
    let copy = stored.clone();
    match storage::save_string(store, stored) {
        Ok(_) => Ok(success_response(copy, Status::Created)),
        Err(e) => {
            let message = e.message();
            Err(error_response(message.as_str(), Status::InternalServerError))
        },
    }
}

/// The record of the text `value`.
pub fn get_string(store: &RecordStore, value: &str) -> (outcome: Result<
    Reply<StoredString>,
    Reply<ErrorResponse>,
>)
    ensures
        match outcome {
            Ok(reply) => reply.status == Status::Success && lookup(store@, content_hash(value@))
                == Some(reply.body@),
            Err(reply) => !holds(store@, content_hash(value@)) && refusal(reply) == (
                Status::NotFound,
                "String not found"@,
            ),
        },
{
    match storage::get_string_by_value(store, value) {
        Some(stored) => Ok(success_response(stored, Status::Success)),
        None => Err(error_response("String not found", Status::NotFound)),
    }
}

/// The records that a structured query selects.
pub fn get_all_strings(store: &RecordStore, query: QueryParams) -> (outcome: Result<
    Reply<FilteredResponse>,
    Reply<ErrorResponse>,
>)
    ensures
        match outcome {
            Ok(reply) => {
                &&& parse_outcome(query@) == Ok::<Filters, ParseFailure>(reply.body.filters_applied)
                &&& reply.status == Status::Success
                &&& models_of(reply.body.data@) == selected(store@, reply.body.filters_applied)
                &&& reply.body.count == reply.body.data@.len()
            },
            Err(reply) => parse_outcome(query@) matches Err(e) && refusal(reply) == (
                Status::BadRequest,
                e.message(),
            ),
        },
{
    let filters = match parse_filters(query) {
        Ok(f) => f,
        Err(e) => {
            let message = e.message();
            return Err(error_response(message.as_str(), Status::BadRequest));
        },
    };
    let data = storage::get_all_strings(store, filters);
    let count = data.len();
    let response = FilteredResponse { data, count, filters_applied: filters };
    Ok(success_response(response, Status::Success))
}

/// The records that a free-text query selects.
pub fn filter_by_natural_language(store: &RecordStore, query: &NLQuery) -> (outcome: Result<
    Reply<NaturalLanguageResponse>,
    Reply<ErrorResponse>,
>)
    ensures
        match outcome {
            Ok(reply) => {
                let read = reply.body.interpreted_query;
                &&& interpretation(query.query@) == Ok::<Filters, InterpretFailure>(
                    read.parsed_filters,
                )
                &&& read.original@ == query.query@
                &&& reply.status == Status::Success
                &&& models_of(reply.body.data@) == selected(store@, read.parsed_filters)
                &&& reply.body.count == reply.body.data@.len()
            },
            Err(reply) => interpretation(query.query@) matches Err(e) && refusal(reply) == (
                interpret_status(e),
                e.message(),
            ),
        },
{
    let (filters, original) = match parse_natural_language(query.query.as_str()) {
        Ok(result) => result,
        Err(e) => {
            let message = e.message();
            let status = match e {
                InterpretError::ConflictingFilters => Status::UnprocessableEntity,
                _ => Status::BadRequest,
            };
            return Err(error_response(message.as_str(), status));
        },
    };
    let data = storage::get_all_strings(store, filters);
    let count = data.len();
    let response = NaturalLanguageResponse {
        data,
        count,
        interpreted_query: InterpretedQuery { original, parsed_filters: filters },
    };
    Ok(success_response(response, Status::Success))
}

/// Removes the record of the text `value`.
pub fn delete_string(store: &mut RecordStore, value: &str) -> (outcome: Result<
    Reply<()>,
    Reply<ErrorResponse>,
>)
    ensures
        final(store)@ == without(old(store)@, content_hash(value@)),
        match outcome {
            Ok(reply) => holds(old(store)@, content_hash(value@)) && reply.status
                == Status::NoContent,
            Err(reply) => !holds(old(store)@, content_hash(value@)) && refusal(reply) == (
                Status::NotFound,
                "String not found"@,
            ) && final(store)@ == old(store)@,
        },
{
    match storage::delete_string(store, value) {
        Ok(_) => Ok(success_response((), Status::NoContent)),
        Err(_) => Err(error_response("String not found", Status::NotFound)),
    }
}

} // verus!
