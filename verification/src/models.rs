//! The request and response records of the HTTP boundary, and the
//! conversions from the driver's result types into response records.

use vstd::prelude::*;
use mongodb::bson::{Bson, Document};
use mongodb::options::{
    DeleteOptions, FindOneOptions, FindOptions, InsertManyOptions, InsertOneOptions,
    ReplaceOptions, UpdateOptions,
};
use mongodb::results::{InsertManyResult, UpdateResult};
use crate::driver::{doc_keys, hash_map_to_pairs, new_document};
use crate::order::{
    complete_indices, id_at_from, ids_drawn_from, lemma_distinct_indices_transfer,
    lemma_same_pairs_membership, lemma_sorted_complete_positional, orders_by_index, sort_by_index,
};

verus! {

/// Names the database and collection a request is aimed at.
#[derive(Debug)]
pub struct NamespacePayload {
    pub database: String,
    pub collection: String,
}

/// The keys of the filter a request will carry: those of the given filter,
/// or none when the filter is omitted — the empty filter matches every
/// document.
pub open spec fn filter_keys(filter: Option<Document>) -> Seq<Seq<char>> {
    match filter {
        Option::Some(d) => doc_keys(d),
        Option::None => Seq::empty(),
    }
}

/// Turns an optional filter into the one a request carries: the filter
/// itself when given, the empty, match-all filter when omitted.
pub fn resolve_filter(filter: Option<Document>) -> (f: Document)
    ensures
        filter is Some ==> f == filter->0,
        doc_keys(f) == filter_keys(filter),
{
    match filter {
        Option::Some(d) => d,
        Option::None => new_document(),
    }
}

/// A request that omits its filter carries the same filter keys as one made
/// with an explicitly empty filter: none at all, so both match every
/// document.
pub proof fn lemma_omitted_filter_is_empty_filter(empty: Document)
    requires
        doc_keys(empty).len() == 0,
    ensures
        filter_keys(Option::None) == filter_keys(Option::Some(empty)),
{
    assert(filter_keys(Option::None) =~= filter_keys(Option::Some(empty)));
}

#[derive(Debug)]
pub struct InsertOneRequest {
    pub namespace: NamespacePayload,
    pub document: Document,
    pub options: Option<InsertOneOptions>,
}

#[derive(Debug)]
pub struct InsertOneResponse {
    pub inserted_id: Bson,
}

#[derive(Debug)]
pub struct InsertManyRequest {
    pub namespace: NamespacePayload,
    pub documents: Vec<Document>,
    pub options: Option<InsertManyOptions>,
}

#[derive(Debug)]
pub struct InsertManyResponse {
    pub inserted_ids: Vec<Bson>,
}

#[derive(Debug)]
pub struct FindOneRequest {
    pub namespace: NamespacePayload,
    pub filter: Document,
    pub options: Option<FindOneOptions>,
}

#[derive(Debug)]
pub struct FindOneResponse {
    pub document: Document,
}

#[derive(Debug)]
pub struct FindManyRequest {
    pub namespace: NamespacePayload,
    pub filter: Document,
    pub options: Option<FindOptions>,
}

#[derive(Debug)]
pub struct FindManyResponse {
    pub documents: Vec<Document>,
}

#[derive(Debug)]
pub struct UpdateRequest {
    pub namespace: NamespacePayload,
    pub filter: Document,
    pub update: Document,
    pub options: Option<UpdateOptions>,
}

#[derive(Debug)]
pub struct UpdateResponse {
    pub matched_count: u64,
    pub modified_count: u64,
    pub upserted_id: Option<Bson>,
}

#[derive(Debug)]
pub struct ReplaceOneRequest {
    pub namespace: NamespacePayload,
    pub filter: Document,
    pub replacement: Document,
    pub options: Option<ReplaceOptions>,
}

#[derive(Debug)]
pub struct DeleteRequest {
    pub namespace: NamespacePayload,
    pub filter: Document,
    pub options: Option<DeleteOptions>,
}

#[derive(Debug)]
pub struct DeleteResponse {
    pub deleted_count: u64,
}

#[derive(Debug)]
pub struct CollectionQuery {
    pub database: String,
}

#[derive(Debug)]
pub struct CollectionsResponse {
    pub collections: Vec<String>,
}

impl FindOneRequest {
    /// Builds the request; an omitted filter becomes the empty, match-all
    /// filter.
    pub fn new(
        namespace: NamespacePayload,
        filter: Option<Document>,
        options: Option<FindOneOptions>,
    ) -> (r: Self)
        ensures
            r.namespace == namespace,
            filter is Some ==> r.filter == filter->0,
            doc_keys(r.filter) == filter_keys(filter),
            r.options == options,
    {
        FindOneRequest { namespace, filter: resolve_filter(filter), options }
    }
}

impl FindManyRequest {
    /// Builds the request; an omitted filter becomes the empty, match-all
    /// filter.
    pub fn new(
        namespace: NamespacePayload,
        filter: Option<Document>,
        options: Option<FindOptions>,
    ) -> (r: Self)
        ensures
            r.namespace == namespace,
            filter is Some ==> r.filter == filter->0,
            doc_keys(r.filter) == filter_keys(filter),
            r.options == options,
    {
        FindManyRequest { namespace, filter: resolve_filter(filter), options }
    }
}

impl UpdateResponse {
    /// The response a driver update result maps to: the counts copied
    /// verbatim, the upserted identifier kept exactly when one was
    /// generated.
    pub open spec fn of_update_result(result: UpdateResult) -> UpdateResponse {
        UpdateResponse {
            matched_count: result.matched_count,
            modified_count: result.modified_count,
            upserted_id: result.upserted_id,
        }
    }

    /// Builds the response from the three fields a driver update result
    /// carries.
    pub fn from_counts(matched_count: u64, modified_count: u64, upserted_id: Option<Bson>) -> (r:
        Self)
        ensures
            r.matched_count == matched_count,
            r.modified_count == modified_count,
            r.upserted_id == upserted_id,
    {
        UpdateResponse { matched_count, modified_count, upserted_id }
    }

    /// Converts a driver update result into the response.
    pub fn from_update_result(result: UpdateResult) -> (r: Self)
        ensures
            r == Self::of_update_result(result),
    {
        Self::from_counts(result.matched_count, result.modified_count, result.upserted_id)
    }

    /// An update that performed no upsert yields a response without an
    /// upserted identifier; one that did carries exactly the generated
    /// identifier.
    pub proof fn lemma_upserted_id_mirrors_result(result: UpdateResult)
        ensures
            Self::of_update_result(result).upserted_id is Some <==> result.upserted_id is Some,
            Self::of_update_result(result).upserted_id == result.upserted_id,
    {
    }
}

/// The driver reported one identifier for each submission index below `n`
/// and for no other index.
pub open spec fn indexes_up_to(m: Map<usize, Bson>, n: int) -> bool {
    forall|k: usize| m.dom().contains(k) <==> (k as int) < n
}

impl InsertManyResponse {
    /// Builds the response from index-identifier pairs, in whatever order
    /// they come: the identifiers are listed by ascending submission index.
    pub fn from_index_pairs(pairs: Vec<(usize, Bson)>) -> (r: Self)
        ensures
            r.inserted_ids@.len() == pairs@.len(),
            orders_by_index(pairs@, r.inserted_ids@),
            ids_drawn_from(pairs@, r.inserted_ids@),
    {
        let ghost orig = pairs@;
        let sorted = sort_by_index(pairs);
        let ghost sorted0 = sorted@;
        let mut rest = sorted;
        let mut ids: Vec<Bson> = Vec::new();
        while rest.len() > 0
            invariant
                ids@.len() + rest@.len() == sorted0.len(),
                forall|i: int| 0 <= i < ids@.len() ==> #[trigger] ids@[i] == sorted0[i].1,
                rest@ == sorted0.subrange(ids@.len() as int, sorted0.len() as int),
            decreases rest@.len(),
        {
            let ghost prev_rest = rest@;
            let x = rest.remove(0);
            proof {
                assert(x == sorted0[ids@.len() as int]);
                assert(rest@ =~= sorted0.subrange(ids@.len() as int + 1, sorted0.len() as int));
            }
            ids.push(x.1);
        }
        proof {
            broadcast use vstd::seq_lib::group_to_multiset_ensures;
            broadcast use vstd::multiset::group_multiset_axioms;

            assert forall|i: int| 0 <= i < ids@.len() implies #[trigger] id_at_from(
                orig,
                ids@,
                i,
            ) by {
                lemma_same_pairs_membership(orig, sorted0, i);
                let j = choose|j: int| 0 <= j < orig.len() && orig[j] == sorted0[i];
                assert(orig[j].1 == ids@[i]);
            }
            if complete_indices(orig, orig.len() as int) {
                let n = orig.len() as int;
                lemma_distinct_indices_transfer(orig, sorted0);
                assert forall|i: int| 0 <= i < sorted0.len() implies (#[trigger] sorted0[i]).0
                    < n by {
                    lemma_same_pairs_membership(orig, sorted0, i);
                    let j = choose|j: int| 0 <= j < orig.len() && orig[j] == sorted0[i];
                    assert(orig[j].0 < n);
                }
                assert(complete_indices(sorted0, n));
                lemma_sorted_complete_positional(sorted0, n);
                assert forall|i: int| 0 <= i < orig.len() implies orig.contains(
                    (i as usize, #[trigger] ids@[i]),
                ) by {
                    assert(sorted0[i].0 == i);
                    assert(sorted0[i] == (i as usize, ids@[i]));
                    lemma_same_pairs_membership(orig, sorted0, i);
                }
            }
        }
        InsertManyResponse { inserted_ids: ids }
    }

    /// Converts a driver insert-many result into the response. The driver
    /// keys each generated identifier by the submission index of its
    /// document, in a map with no promised order; the response lists the
    /// identifiers by ascending submission index.
    pub fn from_result(result: InsertManyResult) -> (r: Self)
        ensures
            r.inserted_ids@.len() == result.inserted_ids@.len(),
            indexes_up_to(result.inserted_ids@, result.inserted_ids@.len() as int)
                ==> forall|i: int|
                0 <= i < r.inserted_ids@.len() ==> #[trigger] r.inserted_ids@[i]
                    == result.inserted_ids@[i as usize],
    {
        let ghost m = result.inserted_ids@;
        let pairs = hash_map_to_pairs(result.inserted_ids);
        let ghost ps = pairs@;
        let r = Self::from_index_pairs(pairs);
        proof {
            if indexes_up_to(m, m.len() as int) {
                let n = ps.len() as int;
                assert forall|i: int| 0 <= i < ps.len() implies (#[trigger] ps[i]).0 < n by {
                    assert(m.dom().contains(ps[i].0));
                }
                assert(complete_indices(ps, n));
                assert forall|i: int|
                    0 <= i < r.inserted_ids@.len() implies #[trigger] r.inserted_ids@[i] == m[
                    i as usize] by {
                    assert(ps.contains((i as usize, r.inserted_ids@[i])));
                    let j = choose|j: int|
                        0 <= j < ps.len() && ps[j] == (i as usize, r.inserted_ids@[i]);
                    assert(m.dom().contains(ps[j].0) && m[ps[j].0] == ps[j].1);
                }
            }
        }
        r
    }
}

} // verus!
