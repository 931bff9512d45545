//! The rule model: `key:value` entries, value casts, and resolved rule sets.
use vstd::prelude::*;
use crate::json::{JsonData, JsonValue};
use crate::text::{find_char, is_first, text_eq};

verus! {

/// What `"key:value"` splits into: the text before the first `:` and the
/// text after it, both non-empty.
pub open spec fn split_spec(s: Seq<char>) -> Option<(Seq<char>, Seq<char>)> {
    if exists|i: int| is_first(s, ':', i) {
        let i = choose|i: int| is_first(s, ':', i);
        if 0 < i && i + 1 < s.len() {
            Some((s.take(i), s.skip(i + 1)))
        } else {
            None
        }
    } else {
        None
    }
}

pub proof fn lemma_first_unique(s: Seq<char>, c: char, i: int, j: int)
    requires
        is_first(s, c, i),
        is_first(s, c, j),
    ensures
        i == j,
{
    if i < j {
        assert(s[i] != c);
    } else if j < i {
        assert(s[j] != c);
    }
}

/// A malformed `key:value` entry, holding the text as it was given.
#[derive(Debug, Clone, PartialEq, Eq)]
pub struct InvalidKeyValue(pub String);

/// Splits `input` at its first `:`; both halves must be non-empty.
pub fn split_str(input: &str) -> (r: Result<(&str, &str), InvalidKeyValue>)
    ensures
        match r {
            Ok((k, v)) => split_spec(input@) == Some((k@, v@)),
            Err(e) => split_spec(input@) is None && e.0@ == input@,
        },
{
    let n = input.unicode_len();
    match find_char(input, ':') {
        Some(i) => {
            proof {
                let c = choose|j: int| is_first(input@, ':', j);
                lemma_first_unique(input@, ':', i as int, c);
            }
            if i > 0 && i + 1 < n {
                let k = input.substring_char(0, i);
                let v = input.substring_char(i + 1, n);
                assert(k@ =~= input@.take(i as int));
                assert(v@ =~= input@.skip(i + 1));
                Ok((k, v))
            } else {
                Err(InvalidKeyValue(input.to_string()))
            }
        },
        None => {
            Err(InvalidKeyValue(input.to_string()))
        },
    }
}

/// A validated pair of non-empty texts.
#[derive(Debug, Clone, PartialEq, Eq)]
pub struct KeyValue(pub String, pub String);

impl KeyValue {
    /// Parses `"key:value"`, splitting at the first `:`.
    pub fn try_from(input: &str) -> (r: Result<KeyValue, InvalidKeyValue>)
        ensures
            match r {
                Ok(kv) => split_spec(input@) == Some((kv.0@, kv.1@)),
                Err(e) => split_spec(input@) is None && e.0@ == input@,
            },
    {
        match split_str(input) {
            Ok((k, v)) => Ok(KeyValue::from((k, v))),
            Err(e) => Err(e),
        }
    }

    pub fn from(value: (&str, &str)) -> (r: KeyValue)
        ensures
            r.0@ == value.0@,
            r.1@ == value.1@,
    {
        KeyValue(value.0.to_string(), value.1.to_string())
    }
}

/// How a raw configured text becomes a JSON value.
#[derive(Debug, Clone, Copy, PartialEq, Eq, Structural)]
pub enum Cast {
    /// The text as a JSON string.
    String,
    /// A JSON number; text that does not read as one stays a JSON string.
    Number,
    /// `true` or `false`; any other text stays a JSON string.
    Boolean,
}

/// The canonical text of the JSON number that `s` reads as, if it reads as one.
pub uninterp spec fn number_text_of(s: Seq<char>) -> Option<Seq<char>>;

/// Relies on serde_json's `FromStr for Number` to read `s` as a JSON number,
/// and on `Number`'s `Display` for its canonical text.
#[verifier::external_body]
fn parse_number(s: &str) -> (r: Option<String>)
    ensures
        match r {
            Some(t) => number_text_of(s@) == Some(t@),
            None => number_text_of(s@) is None,
        },
{
    match s.parse::<serde_json::Number>() {
        Ok(n) => Some(n.to_string()),
        Err(_) => None,
    }
}

/// The JSON value that a number cast gives, from what reading `raw` as a
/// number gave.
pub open spec fn number_or_text_data(parsed: Option<Seq<char>>, raw: Seq<char>) -> JsonData {
    match parsed {
        Some(t) => JsonData::Number(t),
        None => JsonData::Text(raw),
    }
}

/// A number when `parsed` holds one, else `raw` as a JSON string.
pub fn number_or_text(parsed: Option<String>, raw: String) -> (r: JsonValue)
    ensures
        r.data() == number_or_text_data(
            match parsed {
                Some(t) => Some(t@),
                None => None,
            },
            raw@,
        ),
{
    match parsed {
        Some(t) => JsonValue::Number(t),
        None => JsonValue::String(raw),
    }
}

pub open spec fn cast_data(kind: Cast, s: Seq<char>) -> JsonData {
    match kind {
        Cast::String => JsonData::Text(s),
        Cast::Number => number_or_text_data(number_text_of(s), s),
        Cast::Boolean => if s == seq!['t', 'r', 'u', 'e'] {
            JsonData::Bool(true)
        } else if s == seq!['f', 'a', 'l', 's', 'e'] {
            JsonData::Bool(false)
        } else {
            JsonData::Text(s)
        },
    }
}

impl Cast {
    pub fn convert(&self, value: String) -> (r: JsonValue)
        ensures
            r.data() == cast_data(*self, value@),
    {
        match *self {
            Cast::String => {
                JsonValue::String(value)
            },
            Cast::Number => {
                let parsed = parse_number(value.as_str());
                number_or_text(parsed, value)
            },
            Cast::Boolean => {
                proof {
                    reveal_strlit("true");
                    reveal_strlit("false");
                    assert("true"@ =~= seq!['t', 'r', 'u', 'e']);
                    assert("false"@ =~= seq!['f', 'a', 'l', 's', 'e']);
                }
                if text_eq(value.as_str(), "true") {
                    JsonValue::Bool(true)
                } else if text_eq(value.as_str(), "false") {
                    JsonValue::Bool(false)
                } else {
                    JsonValue::String(value)
                }
            },
        }
    }
}

/// The cast for the JSON entry at `i`: the one configured there, else a string cast.
pub open spec fn cast_at(types: Seq<Cast>, i: int) -> Cast {
    if 0 <= i < types.len() {
        types[i]
    } else {
        Cast::String
    }
}

/// JSON entries with their values cast.
pub open spec fn cast_entries(json: Seq<KeyValue>, types: Seq<Cast>) -> Seq<(Seq<char>, JsonData)> {
    Seq::new(json.len(), |i: int| (json[i].0@, cast_data(cast_at(types, i), json[i].1@)))
}

/// One action's rule entries: for headers, for JSON fields, and the casts of
/// the JSON entries, by position.
#[derive(Debug, PartialEq, Eq)]
pub struct TransformationsConfig<T> {
    pub headers: Vec<T>,
    pub json: Vec<T>,
    pub json_types: Vec<Cast>,
}

impl<T> Default for TransformationsConfig<T> {
    fn default() -> (r: Self)
        ensures
            r.headers@.len() == 0,
            r.json@.len() == 0,
            r.json_types@.len() == 0,
    {
        TransformationsConfig { headers: Vec::new(), json: Vec::new(), json_types: Vec::new() }
    }
}

impl TransformationsConfig<KeyValue> {
    /// The JSON entries, each value cast by the kind at its position.
    pub fn cast_json(self) -> (r: Vec<(String, JsonValue)>)
        ensures
            entries_data(r@) == cast_entries(self.json@, self.json_types@),
    {
        let TransformationsConfig { headers: _, json, json_types } = self;
        let mut json = json;
        let ghost all = json@;
        let mut out: Vec<(String, JsonValue)> = Vec::new();
        let mut i: usize = 0;
        let n = json.len();
        while i < n
            invariant
                n == all.len(),
                i <= n,
                json@ == all.skip(i as int),
                out@.len() == i,
                entries_data(out@) == cast_entries(all, json_types@).take(i as int),
            decreases n - i,
        {
            let ghost before = out@;
            assert(json@[0] == all[i as int]);
            let kv = json.remove(0);
            assert(json@ =~= all.skip(i + 1));
            let KeyValue(name, raw) = kv;
            let value = if i < json_types.len() {
                json_types[i].convert(raw)
            } else {
                Cast::String.convert(raw)
            };
            assert(value.data() == cast_data(cast_at(json_types@, i as int), all[i as int].1@));
            out.push((name, value));
            assert forall|j: int| 0 <= j < i implies entries_data(out@)[j] == entries_data(before)[j] by {
                assert(out@[j] == before[j]);
            }
            assert(entries_data(out@) =~= cast_entries(all, json_types@).take(i + 1));
            i += 1;
        }
        assert(cast_entries(all, json_types@).take(n as int) =~= cast_entries(all, json_types@));
        out
    }
}

/// The model of field entries with JSON values.
pub open spec fn entries_data(e: Seq<(String, JsonValue)>) -> Seq<(Seq<char>, JsonData)> {
    Seq::new(e.len(), |i: int| (e[i].0@, e[i].1.data()))
}

/// The raw configuration: five action buckets. `remove` holds bare names.
#[derive(Debug, PartialEq, Eq)]
pub struct ConfigInput {
    pub remove: TransformationsConfig<String>,
    pub rename: TransformationsConfig<KeyValue>,
    pub replace: TransformationsConfig<KeyValue>,
    pub add: TransformationsConfig<KeyValue>,
    pub append: TransformationsConfig<KeyValue>,
}

impl Default for ConfigInput {
    fn default() -> (r: Self)
        ensures
            r.remove.headers@.len() == 0 && r.remove.json@.len() == 0,
            r.rename.headers@.len() == 0 && r.rename.json@.len() == 0,
            r.replace.headers@.len() == 0 && r.replace.json@.len() == 0,
            r.add.headers@.len() == 0 && r.add.json@.len() == 0,
            r.append.headers@.len() == 0 && r.append.json@.len() == 0,
    {
        ConfigInput {
            remove: TransformationsConfig::default(),
            rename: TransformationsConfig::default(),
            replace: TransformationsConfig::default(),
            add: TransformationsConfig::default(),
            append: TransformationsConfig::default(),
        }
    }
}

/// Header rules, one ordered list per action.
#[derive(Debug, PartialEq, Eq)]
pub struct Headers {
    pub remove: Vec<String>,
    pub rename: Vec<KeyValue>,
    pub replace: Vec<KeyValue>,
    pub add: Vec<KeyValue>,
    pub append: Vec<KeyValue>,
}

/// JSON field rules, one ordered list per action, values already cast.
#[derive(Debug, PartialEq, Eq)]
pub struct Json {
    pub remove: Vec<String>,
    pub rename: Vec<KeyValue>,
    pub replace: Vec<(String, JsonValue)>,
    pub add: Vec<(String, JsonValue)>,
    pub append: Vec<(String, JsonValue)>,
}

impl Default for Json {
    fn default() -> (r: Self)
        ensures
            r.remove@.len() == 0,
            r.rename@.len() == 0,
            r.replace@.len() == 0,
            r.add@.len() == 0,
            r.append@.len() == 0,
    {
        Json {
            remove: Vec::new(),
            rename: Vec::new(),
            replace: Vec::new(),
            add: Vec::new(),
            append: Vec::new(),
        }
    }
}

/// The resolved configuration: each axis is present only when it has a rule.
#[derive(Debug, PartialEq, Eq)]
pub struct Config {
    pub headers: Option<Headers>,
    pub json: Option<Json>,
}

impl Config {
    /// Resolves the raw configuration into the two rule sets.
    pub fn from(val: ConfigInput) -> (r: Config)
        ensures
            r.headers is Some <==> (val.remove.headers@.len() > 0 || val.rename.headers@.len() > 0
                || val.replace.headers@.len() > 0 || val.add.headers@.len() > 0
                || val.append.headers@.len() > 0),
            r.headers matches Some(h) ==> (h.remove == val.remove.headers && h.rename
                == val.rename.headers && h.replace == val.replace.headers && h.add
                == val.add.headers && h.append == val.append.headers),
            r.json is Some <==> (val.remove.json@.len() > 0 || val.rename.json@.len() > 0
                || val.replace.json@.len() > 0 || val.add.json@.len() > 0
                || val.append.json@.len() > 0),
            r.json matches Some(j) ==> (j.remove == val.remove.json && j.rename
                == val.rename.json && entries_data(j.replace@) == cast_entries(
                val.replace.json@,
                val.replace.json_types@,
            ) && entries_data(j.add@) == cast_entries(val.add.json@, val.add.json_types@)
                && entries_data(j.append@) == cast_entries(
                val.append.json@,
                val.append.json_types@,
            )),
    {
        let ConfigInput { remove, rename, replace, add, append } = val;
        let TransformationsConfig { headers: remove_headers, json: remove_json, json_types: _ } =
            remove;
        let TransformationsConfig { headers: rename_headers, json: rename_json, json_types: _ } =
            rename;
        let TransformationsConfig { headers: replace_headers, json: replace_json, json_types: replace_types } =
            replace;
        let TransformationsConfig { headers: add_headers, json: add_json, json_types: add_types } =
            add;
        let TransformationsConfig { headers: append_headers, json: append_json, json_types: append_types } =
            append;

        let any_headers = !remove_headers.is_empty() || !rename_headers.is_empty()
            || !replace_headers.is_empty() || !add_headers.is_empty()
            || !append_headers.is_empty();
        let any_json = !remove_json.is_empty() || !rename_json.is_empty()
            || !replace_json.is_empty() || !add_json.is_empty() || !append_json.is_empty();

        let headers = if any_headers {
            Some(
                Headers {
                    remove: remove_headers,
                    rename: rename_headers,
                    replace: replace_headers,
                    add: add_headers,
                    append: append_headers,
                },
            )
        } else {
            None
        };
        let json = if any_json {
            let replace = TransformationsConfig {
                headers: Vec::new(),
                json: replace_json,
                json_types: replace_types,
            };
            let add = TransformationsConfig { headers: Vec::new(), json: add_json, json_types: add_types };
            let append = TransformationsConfig {
                headers: Vec::new(),
                json: append_json,
                json_types: append_types,
            };
            Some(
                Json {
                    remove: remove_json,
                    rename: rename_json,
                    replace: replace.cast_json(),
                    add: add.cast_json(),
                    append: append.cast_json(),
                },
            )
        } else {
            None
        };
        Config { headers, json }
    }
}

} // verus!
