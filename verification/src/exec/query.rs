//! The documents of a request: a filter, a sort, a projection.
//!
//! The query language reads a document once it is one, and what it refuses of a
//! document is handed in beside it.

use vstd::prelude::*;

use super::write::document_of;
use crate::error::{core_refusal, ApiError, ApiErrorView, CoreError};
use crate::json::{bson_members, json_to_document, valid, Document, Json};

verus! {

/// Whether a part of a request is a JSON value that a document can be read from.
pub open spec fn valid_part(part: Option<Json>) -> bool {
    part matches Some(value) ==> valid(value@)
}

/// Why a part of a request is refused, where it is: it is no document, or the
/// query language refuses it.
pub open spec fn part_refused(part: Option<Json>, refused: Option<CoreError>) -> Option<
    ApiErrorView,
> {
    match part {
        None => None,
        Some(value) => match document_of(value@) {
            Err(e) => Some(e),
            Ok(_) => match refused {
                Some(why) => Some(core_refusal(why)),
                None => None,
            },
        },
    }
}

/// Whether `doc` is the document of a part of a request.
pub open spec fn is_part(doc: Option<Document>, part: Option<Json>) -> bool {
    match (doc, part) {
        (None, None) => true,
        (Some(d), Some(value)) => document_of(value@) == Ok::<_, ApiErrorView>(bson_members(d@)),
        _ => false,
    }
}

/// The document of a part of a request, or why it is refused. A part that was
/// not asked for is no document, and nothing is refused of it.
pub fn read_part(part: &Option<Json>, refused: Option<CoreError>) -> (doc: Result<
    Option<Document>,
    ApiError,
>)
    requires
        valid_part(*part),
    ensures
        match doc {
            Ok(doc) => part_refused(*part, refused) is None && is_part(doc, *part),
            Err(e) => part_refused(*part, refused) == Some(e@),
        },
{
    match part {
        None => Ok(None),
        Some(value) => match json_to_document(value) {
            Err(e) => Err(e),
            Ok(doc) => match refused {
                Some(why) => Err(ApiError::from_core(why)),
                None => Ok(Some(doc)),
            },
        },
    }
}

} // verus!
