//! Shortened links for a URL shortening service: the short-segment encoding,
//! the URL with campaign parameters, the documents and queries of the link
//! store, the steps of shortening a URL, and the service's replies.
pub mod object_id;
pub mod shorty;
pub mod shorty_mongo;
pub mod shorty_server;
pub mod text;
