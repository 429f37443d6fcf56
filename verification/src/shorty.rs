//! The service's messages and the mapping of request paths to its methods.
use vstd::prelude::*;

use crate::text::str_eq;

verus! {

/// A reply that carries nothing.
#[derive(Clone, Debug, PartialEq, Eq, Default)]
pub struct Empty {}

/// A request to count visits of a stored link.
#[derive(Clone, Debug, PartialEq, Eq, Default)]
pub struct Counter {
    pub id: String,
    pub value: u32,
}

/// A request to shorten `url`, with optional Google Analytics parameters.
#[derive(Clone, Debug, PartialEq, Eq, Default)]
pub struct ShortenRequest {
    pub url: String,
    pub campaign: Option<GoogleAnalyticsCampaign>,
}

/// A stored link: the hex id of its document and a URL.
#[derive(Clone, Debug, PartialEq, Eq, Default)]
pub struct Shorty {
    pub id: String,
    pub url: String,
}

/// Google Analytics `utm_` parameters; an empty string means "absent".
#[derive(Clone, Debug, PartialEq, Eq, Default)]
pub struct GoogleAnalyticsCampaign {
    pub utm_source: String,
    pub utm_medium: String,
    pub utm_campaign: String,
    pub utm_term: String,
    pub utm_content: String,
}

/// The methods of the service, and the answer to any other path.
#[derive(Clone, Copy, Debug, PartialEq, Eq)]
pub enum ShortyMethod {
    Shorten,
    AddCounter,
    GetUrl,
    Unimplemented,
}

/// The method that a request path names.
pub open spec fn method_of_path(path: Seq<char>) -> ShortyMethod {
    if path == "/shorty.ShortyService/Shorten"@ {
        ShortyMethod::Shorten
    } else if path == "/shorty.ShortyService/AddCounter"@ {
        ShortyMethod::AddCounter
    } else if path == "/shorty.ShortyService/GetUrl"@ {
        ShortyMethod::GetUrl
    } else {
        ShortyMethod::Unimplemented
    }
}

/// Picks the method for a request path: the three method paths of
/// `shorty.ShortyService`, or `Unimplemented` for anything else.
pub fn route_path(path: &str) -> (m: ShortyMethod)
    ensures
        m == method_of_path(path@),
{
    if str_eq(path, "/shorty.ShortyService/Shorten") {
        ShortyMethod::Shorten
    } else if str_eq(path, "/shorty.ShortyService/AddCounter") {
        ShortyMethod::AddCounter
    } else if str_eq(path, "/shorty.ShortyService/GetUrl") {
        ShortyMethod::GetUrl
    } else {
        ShortyMethod::Unimplemented
    }
}

} // verus!
