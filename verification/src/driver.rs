//! The trusted boundary to the document-database driver.
//!
//! Everything in this module is believed, not proved: the type declarations
//! make the driver's types visible to verification, and each wrapper's
//! contract states only what the driver's own source shows.

use vstd::prelude::*;

verus! {

#[verifier::external_type_specification]
#[verifier::external_body]
pub struct ExBson(mongodb::bson::Bson);

#[verifier::external_type_specification]
#[verifier::external_body]
pub struct ExDocument(mongodb::bson::Document);

#[verifier::external_type_specification]
#[verifier::external_body]
pub struct ExInsertOneOptions(mongodb::options::InsertOneOptions);

#[verifier::external_type_specification]
#[verifier::external_body]
pub struct ExInsertManyOptions(mongodb::options::InsertManyOptions);

#[verifier::external_type_specification]
#[verifier::external_body]
pub struct ExFindOneOptions(mongodb::options::FindOneOptions);

#[verifier::external_type_specification]
#[verifier::external_body]
pub struct ExFindOptions(mongodb::options::FindOptions);

#[verifier::external_type_specification]
#[verifier::external_body]
pub struct ExUpdateOptions(mongodb::options::UpdateOptions);

#[verifier::external_type_specification]
#[verifier::external_body]
pub struct ExReplaceOptions(mongodb::options::ReplaceOptions);

#[verifier::external_type_specification]
#[verifier::external_body]
pub struct ExDeleteOptions(mongodb::options::DeleteOptions);

#[verifier::external_type_specification]
pub struct ExUpdateResult(mongodb::results::UpdateResult);

#[verifier::external_type_specification]
pub struct ExInsertManyResult(mongodb::results::InsertManyResult);

/// The keys of a document, in the document's own entry order. A document is
/// the driver's ordered string-keyed map, opaque to verification; this name
/// stands for what it holds.
pub uninterp spec fn doc_keys(d: mongodb::bson::Document) -> Seq<Seq<char>>;

/// Relies on bson's `Document::new`: it returns a document with no entries.
#[verifier::external_body]
pub(crate) fn new_document() -> (d: mongodb::bson::Document)
    ensures
        doc_keys(d) == Seq::<Seq<char>>::empty(),
{
    mongodb::bson::Document::new()
}

/// Relies on std's `HashMap` iteration: draining the map yields each of its
/// key-value pairs exactly once, in no promised order.
#[verifier::external_body]
pub(crate) fn hash_map_to_pairs(m: std::collections::HashMap<usize, mongodb::bson::Bson>) -> (pairs: Vec<
    (usize, mongodb::bson::Bson),
>)
    ensures
        pairs@.len() == m@.len(),
        forall|i: int|
            0 <= i < pairs@.len() ==> m@.dom().contains(#[trigger] pairs@[i].0) && m@[pairs@[i].0]
                == pairs@[i].1,
        forall|i: int, j: int| 0 <= i < j < pairs@.len() ==> pairs@[i].0 != pairs@[j].0,
        forall|k: usize|
            m@.dom().contains(k) ==> exists|i: int|
                0 <= i < pairs@.len() && #[trigger] pairs@[i].0 == k,
{
    m.into_iter().collect()
}

} // verus!
