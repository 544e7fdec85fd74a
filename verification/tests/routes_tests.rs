use string_analyzer_service::config::Config;
use string_analyzer_service::models::string::{Filters, StringInput, Timestamp};
use string_analyzer_service::routes::string_routes::{
    create_string, delete_string, filter_by_natural_language, get_all_strings, get_string,
    NLQuery,
};
use string_analyzer_service::services::storage::RecordStore;
use string_analyzer_service::utils::filters::QueryParams;
use string_analyzer_service::utils::response::{error_response, success_response, Status};

fn now() -> Timestamp {
    Timestamp { secs: 1_761_609_600, nanos: 0 }
}

fn input(value: &str) -> Option<StringInput> {
    Some(StringInput { value: value.to_string() })
}

fn query() -> QueryParams {
    QueryParams {
        is_palindrome: None,
        min_length: None,
        max_length: None,
        word_count: None,
        contains_character: None,
    }
}

fn phrase(text: &str) -> NLQuery {
    NLQuery { query: text.to_string() }
}

#[test]
fn test_create_string_success() {
    let mut store = RecordStore::new();
    let reply = create_string(&mut store, input("test string"), now()).unwrap();
    assert_eq!(reply.status.code(), 201);
    assert_eq!(reply.body.value, "test string");
    assert_eq!(reply.body.id, reply.body.properties.sha256_hash);
    assert_eq!(reply.body.properties.word_count, 2);
    assert_eq!(reply.body.created_at, now());
    assert_eq!(store.len(), 1);
}

#[test]
fn test_create_string_duplicate() {
    let mut store = RecordStore::new();
    assert!(create_string(&mut store, input("duplicate test"), now()).is_ok());
    let reply = create_string(&mut store, input("duplicate test"), now()).unwrap_err();
    assert_eq!(reply.status.code(), 409);
    assert_eq!(reply.body.error, "String already exists");
    assert_eq!(store.len(), 1);
}

#[test]
fn test_get_string_not_found() {
    let store = RecordStore::new();
    let reply = get_string(&store, "nonexistent").unwrap_err();
    assert_eq!(reply.status.code(), 404);
    assert_eq!(reply.body.error, "String not found");
}

#[test]
fn test_delete_string_success() {
    let mut store = RecordStore::new();
    assert!(create_string(&mut store, input("to delete"), now()).is_ok());
    let reply = delete_string(&mut store, "to delete").unwrap();
    assert_eq!(reply.status.code(), 204);
    assert_eq!(store.len(), 0);
    let reply = delete_string(&mut store, "to delete").unwrap_err();
    assert_eq!(reply.status.code(), 404);
    assert_eq!(reply.body.error, "String not found");
}

#[test]
fn test_filter_palindromes() {
    let mut store = RecordStore::new();
    for value in ["level", "hello", "Noon"] {
        assert!(create_string(&mut store, input(value), now()).is_ok());
    }
    let reply =
        get_all_strings(&store, QueryParams { is_palindrome: Some("true".to_string()), ..query() })
            .unwrap();
    assert_eq!(reply.status.code(), 200);
    assert_eq!(reply.body.count, 2);
    assert_eq!(reply.body.data[0].value, "level");
    assert_eq!(reply.body.data[1].value, "Noon");
    assert_eq!(
        reply.body.filters_applied,
        Filters { is_palindrome: Some(true), ..Filters::default() }
    );
}

#[test]
fn test_natural_language_query() {
    let mut store = RecordStore::new();
    for value in ["level", "hello", "never odd or even"] {
        assert!(create_string(&mut store, input(value), now()).is_ok());
    }
    let reply =
        filter_by_natural_language(&store, &phrase("all single word palindromic strings")).unwrap();
    assert_eq!(reply.status.code(), 200);
    assert_eq!(reply.body.count, 1);
    assert_eq!(reply.body.data[0].value, "level");
    assert_eq!(reply.body.interpreted_query.original, "all single word palindromic strings");
    assert_eq!(
        reply.body.interpreted_query.parsed_filters,
        Filters { is_palindrome: Some(true), word_count: Some(1), ..Filters::default() }
    );
}

#[test]
fn a_request_without_text_is_refused() {
    let mut store = RecordStore::new();
    let reply = create_string(&mut store, None, now()).unwrap_err();
    assert_eq!(reply.status.code(), 400);
    assert_eq!(reply.body.error, "Invalid request body or missing value field");
    let reply = create_string(&mut store, input(""), now()).unwrap_err();
    assert_eq!(reply.status.code(), 400);
    assert_eq!(reply.body.error, "value field cannot be empty");
    assert_eq!(store.len(), 0);
}

#[test]
fn a_stored_string_is_served() {
    let mut store = RecordStore::new();
    assert!(create_string(&mut store, input("served"), now()).is_ok());
    let reply = get_string(&store, "served").unwrap();
    assert_eq!(reply.status.code(), 200);
    assert_eq!(reply.body.value, "served");
}

#[test]
fn a_malformed_query_is_a_bad_request() {
    let store = RecordStore::new();
    let reply = get_all_strings(
        &store,
        QueryParams {
            min_length: Some("10".to_string()),
            max_length: Some("5".to_string()),
            ..query()
        },
    )
    .unwrap_err();
    assert_eq!(reply.status.code(), 400);
    assert_eq!(reply.body.error, "min_length cannot be greater than max_length");
    let reply =
        get_all_strings(&store, QueryParams { word_count: Some("two".to_string()), ..query() })
            .unwrap_err();
    assert_eq!(reply.status.code(), 400);
    assert_eq!(reply.body.error, "Invalid integer value: two");
}

#[test]
fn a_conflicting_phrase_is_unprocessable() {
    let store = RecordStore::new();
    let reply =
        filter_by_natural_language(&store, &phrase("longer than 9 shorter than 3")).unwrap_err();
    assert_eq!(reply.status.code(), 422);
    assert_eq!(reply.body.error, "Conflicting filters: min_length > max_length");
    let reply = filter_by_natural_language(&store, &phrase("whatever")).unwrap_err();
    assert_eq!(reply.status.code(), 400);
    assert_eq!(reply.body.error, "Unable to parse natural language query");
    let reply = filter_by_natural_language(&store, &phrase("shorter than 0")).unwrap_err();
    assert_eq!(reply.status.code(), 400);
    assert_eq!(reply.body.error, "Invalid value for max_length: 0");
}

#[test]
fn statuses_have_their_codes() {
    assert_eq!(Status::Success.code(), 200);
    assert_eq!(Status::Created.code(), 201);
    assert_eq!(Status::NoContent.code(), 204);
    assert_eq!(Status::BadRequest.code(), 400);
    assert_eq!(Status::NotFound.code(), 404);
    assert_eq!(Status::Conflict.code(), 409);
    assert_eq!(Status::UnprocessableEntity.code(), 422);
    assert_eq!(Status::InternalServerError.code(), 500);
    let reply = error_response("no", Status::NotFound);
    assert_eq!(reply.status, Status::NotFound);
    assert_eq!(reply.body.error, "no");
    let reply = success_response(7, Status::Created);
    assert_eq!(reply.status, Status::Created);
    assert_eq!(reply.body, 7);
}

#[test]
fn the_port_is_read_from_its_setting() {
    assert_eq!(Config::from_env(None), Some(Config { port: 8080 }));
    assert_eq!(Config::from_env(Some("3000")), Some(Config { port: 3000 }));
    assert_eq!(Config::from_env(Some("+80")), Some(Config { port: 80 }));
    assert_eq!(Config::from_env(Some("65535")), Some(Config { port: 65535 }));
    assert_eq!(Config::from_env(Some("65536")), None);
    assert_eq!(Config::from_env(Some("")), None);
    assert_eq!(Config::from_env(Some("http")), None);
}
