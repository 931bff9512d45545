//! What to do with a response's headers and body, given the configuration.
use vstd::prelude::*;
use crate::body::apply_json;
use crate::headers::{apply_headers, drop_header, first_value, HeaderList, HeaderSet};
use crate::json::JsonValue;
use crate::media::{is_json_media, is_json_mime_type, media_type_of};
use crate::object::{fields_from, fields_of, JsonMap};
use crate::rules::{Config, Json};

verus! {

pub const CONTENT_LENGTH: &'static str = "content-length";

pub const CONTENT_TYPE: &'static str = "content-type";

pub open spec fn content_length() -> Seq<char> {
    seq!['c', 'o', 'n', 't', 'e', 'n', 't', '-', 'l', 'e', 'n', 'g', 't', 'h']
}

pub open spec fn content_type() -> Seq<char> {
    seq!['c', 'o', 'n', 't', 'e', 'n', 't', '-', 't', 'y', 'p', 'e']
}

/// Whether the headers give a content type that denotes JSON.
pub open spec fn is_json_headers(h: HeaderList) -> bool {
    match first_value(h, content_type()) {
        Some(ct) => is_json_media(media_type_of(ct)),
        None => false,
    }
}

/// Whether the response's content type denotes JSON.
pub fn is_json_response(headers: &HeaderSet) -> (r: bool)
    ensures
        r == is_json_headers(headers@),
{
    proof {
        reveal_strlit("content-type");
        assert(CONTENT_TYPE@ =~= content_type());
    }
    match headers.get(CONTENT_TYPE) {
        Some(ct) => is_json_mime_type(ct.as_str()),
        None => false,
    }
}

/// The headers after the header event: a JSON response that JSON rules may
/// rewrite loses its stale length, then the header rules run.
pub open spec fn headers_after(config: Config, h: HeaderList) -> HeaderList {
    let h1 = if config.json is Some && is_json_headers(h) {
        drop_header(h, content_length())
    } else {
        h
    };
    match config.headers {
        Some(tx) => apply_headers(tx@, h1),
        None => h1,
    }
}

/// Handles the arrival of the response headers.
pub fn on_response_headers(config: &Config, headers: &mut HeaderSet)
    ensures
        final(headers)@ == headers_after(*config, old(headers)@),
{
    proof {
        reveal_strlit("content-length");
        assert(CONTENT_LENGTH@ =~= content_length());
    }
    if config.json.is_some() && is_json_response(headers) {
        headers.remove(CONTENT_LENGTH);
    }
    if let Some(tx) = &config.headers {
        tx.transform_headers(headers);
    }
}

/// What the body event calls for.
#[derive(Debug, Clone, Copy, PartialEq, Eq, Structural)]
pub enum BodyAction {
    /// Forward the body as it is.
    Continue,
    /// Hold the body back until its last chunk has come.
    Pause,
    /// The whole body is here: transform it.
    Transform,
}

/// Decides the body event: only a complete JSON body under JSON rules is
/// transformed.
pub fn on_response_body(config: &Config, is_json: bool, end_of_stream: bool) -> (r: BodyAction)
    ensures
        r == (if config.json is None || !is_json {
            BodyAction::Continue
        } else if !end_of_stream {
            BodyAction::Pause
        } else {
            BodyAction::Transform
        }),
{
    if config.json.is_none() || !is_json {
        BodyAction::Continue
    } else if !end_of_stream {
        BodyAction::Pause
    } else {
        BodyAction::Transform
    }
}

/// Transforms a parsed body. `None` means: forward the original bytes, for
/// a body that is not an object or that the rules leave unchanged.
pub fn transform_body(tx: &Json, parsed: Option<JsonValue>) -> (r: Option<JsonMap>)
    ensures
        match parsed {
            Some(JsonValue::Object(fs)) => {
                let (f, changed) = apply_json(tx@, fields_from(fields_of(fs@)));
                if changed {
                    r matches Some(m) && m.wf() && m@ == f
                } else {
                    r is None
                }
            },
            _ => r is None,
        },
{
    match parsed {
        Some(JsonValue::Object(fs)) => {
            let mut body = JsonMap::from_fields(fs);
            if tx.transform_body(&mut body) {
                Some(body)
            } else {
                None
            }
        },
        _ => None,
    }
}

} // verus!
