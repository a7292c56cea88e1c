use crate::error::{ClientError, Shape};
use crate::json::Json;
use vstd::prelude::*;

verus! {

/// A record that is read from a document of a known shape. Members that
/// the record does not hold are passed over.
pub trait Decode: Sized {
    /// The shape that the record has in a document.
    spec fn spec_shape() -> Shape;

    /// Whether the document has the members that the record needs, each of
    /// the kind that the record needs.
    spec fn readable(json: Json) -> bool;

    /// Whether the record holds what the document's members hold.
    spec fn describes(json: Json, record: Self) -> bool;

    /// The shape that the record has in a document.
    fn shape() -> (shape: Shape)
        ensures
            shape == Self::spec_shape(),
    ;

    /// Reads the record from a document, where the document has its shape.
    fn decode(json: &Json) -> (res: Option<Self>)
        ensures
            match res {
                Some(record) => Self::readable(*json) && Self::describes(*json, record),
                None => !Self::readable(*json),
            },
    ;
}

/// Whether every item has the shape of a `T`.
pub open spec fn all_readable<T: Decode>(items: Seq<Json>) -> bool {
    forall|i: int| 0 <= i < items.len() ==> T::readable(#[trigger] items[i])
}

/// Whether the records hold, one by one and in order, what the items hold.
pub open spec fn all_described<T: Decode>(items: Seq<Json>, records: Seq<T>) -> bool {
    items.len() == records.len() && forall|i: int|
        0 <= i < items.len() ==> T::describes(#[trigger] items[i], records[i])
}

/// Reads one record from each item, in order; none where an item lacks the
/// shape.
pub fn decode_all<T: Decode>(items: &Vec<Json>) -> (res: Option<Vec<T>>)
    ensures
        match res {
            Some(records) => all_readable::<T>(items@) && all_described::<T>(items@, records@),
            None => !all_readable::<T>(items@),
        },
{
    let mut records: Vec<T> = Vec::new();
    let mut i: usize = 0;
    while i < items.len()
        invariant
            i <= items.len(),
            records.len() == i,
            forall|k: int| 0 <= k < i ==> T::readable(#[trigger] items@[k]),
            forall|k: int| 0 <= k < i ==> T::describes(#[trigger] items@[k], records@[k]),
        decreases items.len() - i,
    {
        match T::decode(&items[i]) {
            Some(record) => {
                records.push(record);
            },
            None => {
                return None;
            },
        }
        i += 1;
    }
    Some(records)
}


/// Whether `res` is what reading a record from `document` yields: the
/// record that the document describes, or `DecodeError` with the record's
/// shape where there is no document or it lacks the shape.
pub open spec fn decoded<T: Decode>(document: Option<Json>, res: Result<T, ClientError>) -> bool {
    match res {
        Ok(record) => document matches Some(json) && T::readable(json) && T::describes(
            json,
            record,
        ),
        Err(e) => e == ClientError::DecodeError(T::spec_shape()) && !(document matches Some(json)
            && T::readable(json)),
    }
}

/// Reads a record from what a response body held.
///
/// Fails with `DecodeError` where the body held no document, or one that
/// lacks the record's shape.
pub fn decode_document<T: Decode>(document: Option<Json>) -> (res: Result<T, ClientError>)
    ensures
        decoded::<T>(document, res),
{
    match document {
        Some(json) => match T::decode(&json) {
            Some(record) => Ok(record),
            None => Err(ClientError::DecodeError(T::shape())),
        },
        None => Err(ClientError::DecodeError(T::shape())),
    }
}

} // verus!
