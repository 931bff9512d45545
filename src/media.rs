//! Deciding whether a content type denotes JSON.
use vstd::prelude::*;
use crate::text::{eq_ignore_case, text_eq_ignore_case};

verus! {

/// A parsed media type: `type/subtype[+suffix]`, parameters left out.
#[derive(Debug, PartialEq, Eq)]
pub struct MediaType {
    pub type_: String,
    pub subtype: String,
    pub suffix: Option<String>,
}

pub open spec fn opt_view(o: Option<String>) -> Option<Seq<char>> {
    match o {
        Some(s) => Some(s@),
        None => None,
    }
}

/// What the `mime` crate reads `s` as: type, subtype and suffix, or nothing
/// where `s` is not a well-formed media type.
pub uninterp spec fn media_type_of(s: Seq<char>) -> Option<(Seq<char>, Seq<char>, Option<Seq<char>>)>;

/// Relies on `mime::Mime`'s `FromStr` to parse `s`, and on its `type_`,
/// `subtype` and `suffix` accessors for the parts.
#[verifier::external_body]
fn parse_media_type(s: &str) -> (r: Option<MediaType>)
    ensures
        match r {
            Some(m) => media_type_of(s@) == Some((m.type_@, m.subtype@, opt_view(m.suffix))),
            None => media_type_of(s@) is None,
        },
{
    let mt = match s.parse::<mime::Mime>() {
        Ok(mt) => mt,
        Err(_) => return None,
    };
    let suffix = match mt.suffix() {
        Some(n) => Some(n.as_str().to_string()),
        None => None,
    };
    Some(MediaType {
        type_: mt.type_().as_str().to_string(),
        subtype: mt.subtype().as_str().to_string(),
        suffix,
    })
}

pub open spec fn application() -> Seq<char> {
    seq!['a', 'p', 'p', 'l', 'i', 'c', 'a', 't', 'i', 'o', 'n']
}

pub open spec fn json_word() -> Seq<char> {
    seq!['j', 's', 'o', 'n']
}

/// `application/json`, or `application/<anything>+json`, in any case.
pub open spec fn is_json_parts(t: Seq<char>, sub: Seq<char>, suffix: Option<Seq<char>>) -> bool {
    eq_ignore_case(t, application()) && (eq_ignore_case(sub, json_word()) || match suffix {
        Some(x) => eq_ignore_case(x, json_word()),
        None => false,
    })
}

pub open spec fn is_json_media(m: Option<(Seq<char>, Seq<char>, Option<Seq<char>>)>) -> bool {
    match m {
        Some((t, sub, suffix)) => is_json_parts(t, sub, suffix),
        None => false,
    }
}

impl MediaType {
    /// Whether this media type denotes JSON.
    pub fn is_json(&self) -> (r: bool)
        ensures
            r == is_json_parts(self.type_@, self.subtype@, opt_view(self.suffix)),
    {
        proof {
            reveal_strlit("application");
            reveal_strlit("json");
            assert("application"@ =~= application());
            assert("json"@ =~= json_word());
        }
        if !text_eq_ignore_case(self.type_.as_str(), "application") {
            return false;
        }
        if text_eq_ignore_case(self.subtype.as_str(), "json") {
            return true;
        }
        match &self.suffix {
            Some(x) => text_eq_ignore_case(x.as_str(), "json"),
            None => false,
        }
    }
}

/// Whether a content-type value denotes JSON; a malformed one does not.
pub fn is_json_mime_type(ct: &str) -> (r: bool)
    ensures
        r == is_json_media(media_type_of(ct@)),
{
    match parse_media_type(ct) {
        Some(m) => m.is_json(),
        None => false,
    }
}

} // verus!
