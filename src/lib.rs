//! Rule-driven rewriting of HTTP response headers and JSON response bodies.
//!
//! A configuration lists, for each of five actions (remove, rename, replace,
//! add, append), rules for headers and rules for top-level JSON fields.
//! [`rules::Config::from`] resolves it into a header rule set and a JSON rule
//! set; [`rules::Headers::transform_headers`] and
//! [`rules::Json::transform_body`] apply them in that fixed stage order, and
//! [`response`] decides what a response's header and body events call for.
pub mod body;
pub mod headers;
pub mod json;
pub mod laws;
pub mod media;
pub mod object;
pub mod pipeline;
pub mod response;
pub mod rules;
pub mod text;
