//! An in-memory JSON value and its mathematical model.
use vstd::prelude::*;

verus! {

broadcast use {vstd::std_specs::vec::axiom_vec_decreases_to_view, vstd::seq::axiom_seq_index_decreases};

/// The model of a JSON value. Numbers are kept as their canonical text.
pub enum JsonData {
    Null,
    Bool(bool),
    Number(Seq<char>),
    Text(Seq<char>),
    Array(Seq<JsonData>),
    Object(Seq<(Seq<char>, JsonData)>),
}

/// A JSON value. A number holds its canonical decimal text.
#[derive(Debug, PartialEq, Eq)]
pub enum JsonValue {
    Null,
    Bool(bool),
    Number(String),
    String(String),
    Array(Vec<JsonValue>),
    Object(Vec<(String, JsonValue)>),
}

impl JsonValue {
    pub open spec fn data(self) -> JsonData
        decreases self,
    {
        match self {
            JsonValue::Null => JsonData::Null,
            JsonValue::Bool(b) => JsonData::Bool(b),
            JsonValue::Number(n) => JsonData::Number(n@),
            JsonValue::String(s) => JsonData::Text(s@),
            JsonValue::Array(items) => JsonData::Array(
                Seq::new(items@.len(), |i: int|
                    if 0 <= i < items@.len() { items@[i].data() } else { JsonData::Null }),
            ),
            JsonValue::Object(fields) => JsonData::Object(
                Seq::new(fields@.len(), |i: int|
                    if 0 <= i < fields@.len() {
                        (fields@[i].0@, fields@[i].1.data())
                    } else {
                        (Seq::empty(), JsonData::Null)
                    }),
            ),
        }
    }
}

impl JsonValue {
    /// A deep copy of the value.
    pub fn copy(&self) -> (r: JsonValue)
        ensures
            r.data() == self.data(),
        decreases self,
    {
        match self {
            JsonValue::Null => JsonValue::Null,
            JsonValue::Bool(b) => JsonValue::Bool(*b),
            JsonValue::Number(n) => JsonValue::Number(n.clone()),
            JsonValue::String(t) => JsonValue::String(t.clone()),
            JsonValue::Array(items) => {
                let mut out: Vec<JsonValue> = Vec::new();
                let mut i: usize = 0;
                while i < items.len()
                    invariant
                        *self == JsonValue::Array(*items),
                        i <= items@.len(),
                        out@.len() == i,
                        forall|j: int| 0 <= j < i ==> #[trigger] out@[j].data() == items@[j].data(),
                    decreases items@.len() - i,
                {
                    proof {
                        assert(decreases_to!(*self => self->Array_0));
                        assert(decreases_to!(*items => items@));
                        assert(decreases_to!(items@ => items@[i as int]));
                        assert(decreases_to!(*self => items@[i as int]));
                    }
                    out.push(items[i].copy());
                    i += 1;
                }
                let r = JsonValue::Array(out);
                assert(r.data() == self.data()) by {
                    if let JsonData::Array(a) = r.data() {
                        if let JsonData::Array(b) = self.data() {
                            assert forall|j: int| 0 <= j < a.len() implies a[j] == b[j] by {
                                assert(out@[j].data() == items@[j].data());
                            }
                            assert(a =~= b);
                        }
                    }
                }
                r
            },
            JsonValue::Object(fields) => {
                let mut out: Vec<(String, JsonValue)> = Vec::new();
                let mut i: usize = 0;
                while i < fields.len()
                    invariant
                        *self == JsonValue::Object(*fields),
                        i <= fields@.len(),
                        out@.len() == i,
                        forall|j: int|
                            0 <= j < i ==> #[trigger] out@[j].0@ == fields@[j].0@ && out@[j].1.data()
                                == fields@[j].1.data(),
                    decreases fields@.len() - i,
                {
                    proof {
                        assert(decreases_to!(*self => self->Object_0));
                        assert(decreases_to!(*fields => fields@));
                        assert(decreases_to!(fields@ => fields@[i as int]));
                        assert(decreases_to!(fields@[i as int] => fields@[i as int].1));
                        assert(decreases_to!(*self => fields@[i as int].1));
                    }
                    let value = fields[i].1.copy();
                    out.push((fields[i].0.clone(), value));
                    i += 1;
                }
                let r = JsonValue::Object(out);
                assert(r.data() == self.data()) by {
                    if let JsonData::Object(a) = r.data() {
                        if let JsonData::Object(b) = self.data() {
                            assert forall|j: int| 0 <= j < a.len() implies a[j] == b[j] by {
                                assert(out@[j].0@ == fields@[j].0@);
                            }
                            assert(a =~= b);
                        }
                    }
                }
                r
            },
        }
    }
}

impl JsonValue {
    /// Whether two values are the same JSON value; object fields are compared in order.
    pub fn same_as(&self, other: &JsonValue) -> (r: bool)
        ensures
            r == (self.data() == other.data()),
        decreases self,
    {
        match (self, other) {
            (JsonValue::Null, JsonValue::Null) => true,
            (JsonValue::Bool(a), JsonValue::Bool(b)) => *a == *b,
            (JsonValue::Number(a), JsonValue::Number(b)) => *a == *b,
            (JsonValue::String(a), JsonValue::String(b)) => *a == *b,
            (JsonValue::Array(xs), JsonValue::Array(ys)) => {
                if xs.len() != ys.len() {
                    assert(self.data()->Array_0.len() != other.data()->Array_0.len());
                    return false;
                }
                let mut i: usize = 0;
                while i < xs.len()
                    invariant
                        *self == JsonValue::Array(*xs),
                        *other == JsonValue::Array(*ys),
                        xs@.len() == ys@.len(),
                        i <= xs@.len(),
                        forall|j: int| 0 <= j < i ==> #[trigger] xs@[j].data() == ys@[j].data(),
                    decreases xs@.len() - i,
                {
                    proof {
                        assert(decreases_to!(*self => self->Array_0));
                        assert(decreases_to!(*xs => xs@));
                        assert(decreases_to!(xs@ => xs@[i as int]));
                        assert(decreases_to!(*self => xs@[i as int]));
                    }
                    if !xs[i].same_as(&ys[i]) {
                        assert(self.data()->Array_0[i as int] != other.data()->Array_0[i as int]);
                        return false;
                    }
                    i += 1;
                }
                assert forall|j: int| 0 <= j < xs@.len() implies self.data()->Array_0[j]
                    == other.data()->Array_0[j] by {
                    assert(xs@[j].data() == ys@[j].data());
                }
                assert(self.data()->Array_0 =~= other.data()->Array_0);
                true
            },
            (JsonValue::Object(xs), JsonValue::Object(ys)) => {
                if xs.len() != ys.len() {
                    assert(self.data()->Object_0.len() != other.data()->Object_0.len());
                    return false;
                }
                let mut i: usize = 0;
                while i < xs.len()
                    invariant
                        *self == JsonValue::Object(*xs),
                        *other == JsonValue::Object(*ys),
                        xs@.len() == ys@.len(),
                        i <= xs@.len(),
                        forall|j: int| 0 <= j < i ==> (#[trigger] xs@[j]).0@ == ys@[j].0@,
                        forall|j: int| 0 <= j < i ==> (#[trigger] xs@[j]).1.data() == ys@[j].1.data(),
                    decreases xs@.len() - i,
                {
                    proof {
                        assert(decreases_to!(*self => self->Object_0));
                        assert(decreases_to!(*xs => xs@));
                        assert(decreases_to!(xs@ => xs@[i as int]));
                        assert(decreases_to!(xs@[i as int] => xs@[i as int].1));
                        assert(decreases_to!(*self => xs@[i as int].1));
                    }
                    if !(xs[i].0 == ys[i].0) {
                        assert(self.data()->Object_0[i as int].0 != other.data()->Object_0[i as int].0);
                        return false;
                    }
                    if !xs[i].1.same_as(&ys[i].1) {
                        assert(self.data()->Object_0[i as int].1 != other.data()->Object_0[i as int].1);
                        return false;
                    }
                    i += 1;
                }
                assert forall|j: int| 0 <= j < xs@.len() implies self.data()->Object_0[j]
                    == other.data()->Object_0[j] by {
                    assert(xs@[j].0@ == ys@[j].0@);
                }
                assert(self.data()->Object_0 =~= other.data()->Object_0);
                true
            },
            _ => false,
        }
    }
}

} // verus!
