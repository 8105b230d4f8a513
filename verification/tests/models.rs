use docdb_models::models::{
    CollectionQuery, CollectionsResponse, DeleteRequest, DeleteResponse, FindManyRequest,
    FindOneRequest, InsertManyRequest, InsertManyResponse, InsertOneResponse, NamespacePayload,
    UpdateRequest, UpdateResponse, resolve_filter,
};
use mongodb::bson::{Bson, Document};

fn namespace(db: &str, coll: &str) -> NamespacePayload {
    NamespacePayload { database: db.to_string(), collection: coll.to_string() }
}

#[test]
fn insert_many_ids_follow_submission_order() {
    let pairs = vec![
        (2usize, Bson::Int32(30)),
        (0usize, Bson::Int32(10)),
        (1usize, Bson::Int32(20)),
    ];
    let response = InsertManyResponse::from_index_pairs(pairs);
    assert_eq!(
        response.inserted_ids,
        vec![Bson::Int32(10), Bson::Int32(20), Bson::Int32(30)]
    );
}

#[test]
fn insert_many_empty_submission() {
    let response = InsertManyResponse::from_index_pairs(Vec::new());
    assert_eq!(response.inserted_ids.len(), 0);
}

#[test]
fn insert_many_reversed_report_order() {
    let forward = vec![(0usize, Bson::Int64(7)), (1usize, Bson::Int64(8))];
    let backward = vec![(1usize, Bson::Int64(8)), (0usize, Bson::Int64(7))];
    let from_forward = InsertManyResponse::from_index_pairs(forward);
    let from_backward = InsertManyResponse::from_index_pairs(backward);
    assert_eq!(from_forward.inserted_ids, from_backward.inserted_ids);
    assert_eq!(from_forward.inserted_ids, vec![Bson::Int64(7), Bson::Int64(8)]);
}

#[test]
fn insert_many_equal_ids_distinct_indices() {
    let pairs = vec![(1usize, Bson::Int32(5)), (0usize, Bson::Int32(5))];
    let response = InsertManyResponse::from_index_pairs(pairs);
    assert_eq!(response.inserted_ids, vec![Bson::Int32(5), Bson::Int32(5)]);
}

#[test]
fn two_document_submission_scenario() {
    let mut first = Document::new();
    first.insert("a", 1i32);
    let mut second = Document::new();
    second.insert("a", 2i32);
    let request = InsertManyRequest {
        namespace: namespace("d", "c"),
        documents: vec![first, second],
        options: None,
    };
    assert_eq!(request.namespace.database, "d");
    assert_eq!(request.namespace.collection, "c");
    assert_eq!(request.documents.len(), 2);

    let first_id = Bson::Int64(101);
    let second_id = Bson::Int64(102);
    let reported = vec![(1usize, second_id.clone()), (0usize, first_id.clone())];
    let response = InsertManyResponse::from_index_pairs(reported);
    assert_eq!(response.inserted_ids.len(), 2);
    assert_eq!(response.inserted_ids, vec![first_id, second_id]);
}

#[test]
fn update_zero_matches_scenario() {
    let response = UpdateResponse::from_counts(0, 0, None);
    assert_eq!(response.matched_count, 0);
    assert_eq!(response.modified_count, 0);
    assert!(response.upserted_id.is_none());
}

#[test]
fn update_counts_copied_verbatim() {
    let response = UpdateResponse::from_counts(4, 3, None);
    assert_eq!(response.matched_count, 4);
    assert_eq!(response.modified_count, 3);
    assert!(response.upserted_id.is_none());
}

#[test]
fn update_upsert_keeps_generated_id() {
    let id = Bson::Int64(42);
    let response = UpdateResponse::from_counts(0, 0, Some(id.clone()));
    assert_eq!(response.upserted_id, Some(id));
}

#[test]
fn omitted_filter_resolves_to_empty_document() {
    let filter = resolve_filter(None);
    assert!(filter.is_empty());
    assert_eq!(filter, Document::new());
}

#[test]
fn given_filter_resolves_to_itself() {
    let mut wanted = Document::new();
    wanted.insert("name", "x");
    let filter = resolve_filter(Some(wanted.clone()));
    assert_eq!(filter, wanted);
}

#[test]
fn find_many_omitted_filter_matches_explicit_empty() {
    let omitted = FindManyRequest::new(namespace("db", "coll"), None, None);
    let explicit = FindManyRequest::new(namespace("db", "coll"), Some(Document::new()), None);
    assert_eq!(omitted.filter, explicit.filter);
    assert!(omitted.filter.is_empty());
}

#[test]
fn find_one_keeps_explicit_filter() {
    let mut wanted = Document::new();
    wanted.insert("age", 30i32);
    let request = FindOneRequest::new(namespace("db", "people"), Some(wanted.clone()), None);
    assert_eq!(request.filter, wanted);
    assert_eq!(request.namespace.database, "db");
    assert_eq!(request.namespace.collection, "people");
}

#[test]
fn request_and_response_records_carry_fields() {
    let mut filter = Document::new();
    filter.insert("done", true);
    let update_request = UpdateRequest {
        namespace: namespace("db", "tasks"),
        filter: filter.clone(),
        update: Document::new(),
        options: None,
    };
    assert_eq!(update_request.filter, filter);

    let delete_request = DeleteRequest {
        namespace: namespace("db", "tasks"),
        filter,
        options: None,
    };
    assert_eq!(delete_request.namespace.collection, "tasks");

    let delete_response = DeleteResponse { deleted_count: 3 };
    assert_eq!(delete_response.deleted_count, 3);

    let inserted = InsertOneResponse { inserted_id: Bson::Int32(1) };
    assert_eq!(inserted.inserted_id, Bson::Int32(1));

    let query = CollectionQuery { database: "db".to_string() };
    assert_eq!(query.database, "db");

    let collections = CollectionsResponse {
        collections: vec!["tasks".to_string(), "people".to_string()],
    };
    assert_eq!(collections.collections.len(), 2);
}
