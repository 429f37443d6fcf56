//! The answers of the service's methods: what each replies, or which error
//! status it fails with.
use vstd::prelude::*;

use crate::object_id::{hex_decode, hex_lower, is_object_id_hex, ObjectId};
use crate::shorty::{Counter, Shorty};
use crate::shorty_mongo::{ShortyDocument, VisitIncrement};

verus! {

/// The gRPC status codes that the service answers with.
#[derive(Clone, Copy, Debug, PartialEq, Eq)]
pub enum Code {
    Internal,
    NotFound,
}

/// A failed call: a status code and a message.
#[derive(Clone, Debug, PartialEq, Eq)]
pub struct Status {
    pub code: Code,
    pub message: String,
}

/// The answer to `Shorten`: the link, or `Internal` when none could be made.
pub fn shorten_reply(outcome: Option<Shorty>) -> (r: Result<Shorty, Status>)
    ensures
        match outcome {
            Some(s) => r == Ok::<Shorty, Status>(s),
            None => r matches Err(st) && st.code == Code::Internal && st.message@
                == "Unable to shorten URL"@,
        },
{
    match outcome {
        Some(s) => Ok(s),
        None => Err(
            Status { code: Code::Internal, message: String::from_str("Unable to shorten URL") },
        ),
    }
}

/// The answer to `GetUrl`: the id of the document found and the URL with
/// its campaign parameters, or `NotFound`.
pub fn get_url_reply(found: Option<ShortyDocument>) -> (r: Result<Shorty, Status>)
    ensures
        match found {
            Some(doc) => r matches Ok(s) && s.id@ == hex_lower(doc.id.bytes@) && s.url@
                == doc.constructed@,
            None => r matches Err(st) && st.code == Code::NotFound && st.message@
                == "Error getting shorty URL (1)"@,
        },
{
    match found {
        Some(doc) => Ok(Shorty { id: doc.id.to_hex(), url: doc.constructed }),
        None => Err(
            Status {
                code: Code::NotFound,
                message: String::from_str("Error getting shorty URL (1)"),
            },
        ),
    }
}

/// The visit update that `AddCounter` makes at time `accessed`: one more
/// visit of the document whose hex id the request names, accessed then;
/// `None` when the id is not 24 hex digits.
pub fn add_counter_update(request: &Counter, accessed: i64) -> (u: Option<VisitIncrement>)
    ensures
        u is Some <==> is_object_id_hex(request.id@),
        u matches Some(inc) ==> inc.id.bytes@ == hex_decode(request.id@) && inc.amount == 1
            && inc.accessed == accessed,
{
    match ObjectId::with_string(request.id.as_str()) {
        Some(id) => Some(ShortyDocument::add_counter(id, 1, accessed)),
        None => None,
    }
}

} // verus!
