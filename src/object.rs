//! A JSON object: an ordered list of fields with unique names.
use vstd::prelude::*;
use crate::json::{JsonData, JsonValue};
use crate::text::text_eq;

verus! {

/// The model of an object's fields, in order.
pub type Fields = Seq<(Seq<char>, JsonData)>;

pub open spec fn keys_unique(f: Fields) -> bool {
    forall|i: int, j: int|
        0 <= i < f.len() && 0 <= j < f.len() && i != j ==> (#[trigger] f[i]).0 != (#[trigger] f[j]).0
}

pub open spec fn has_field(f: Fields, k: Seq<char>) -> bool {
    exists|i: int| 0 <= i < f.len() && (#[trigger] f[i]).0 == k
}

/// Where the field named `k` stands, or -1.
pub open spec fn field_index(f: Fields, k: Seq<char>) -> int {
    if has_field(f, k) {
        choose|i: int| 0 <= i < f.len() && (#[trigger] f[i]).0 == k
    } else {
        -1
    }
}

pub open spec fn field_value(f: Fields, k: Seq<char>) -> Option<JsonData> {
    if has_field(f, k) {
        Some(f[field_index(f, k)].1)
    } else {
        None
    }
}

/// The fields without the one named `k`.
pub open spec fn without_field(f: Fields, k: Seq<char>) -> Fields {
    if has_field(f, k) {
        f.remove(field_index(f, k))
    } else {
        f
    }
}

/// The fields with `k` set to `v`: in place where `k` is present, else at the end.
pub open spec fn with_field(f: Fields, k: Seq<char>, v: JsonData) -> Fields {
    if has_field(f, k) {
        f.update(field_index(f, k), (k, v))
    } else {
        f.push((k, v))
    }
}

pub proof fn lemma_field_index(f: Fields, k: Seq<char>, i: int)
    requires
        keys_unique(f),
        0 <= i < f.len(),
        f[i].0 == k,
    ensures
        has_field(f, k),
        field_index(f, k) == i,
{
    assert(has_field(f, k));
}

pub proof fn lemma_without_unique(f: Fields, k: Seq<char>)
    requires
        keys_unique(f),
    ensures
        keys_unique(without_field(f, k)),
        !has_field(without_field(f, k), k),
{
    if has_field(f, k) {
        let i = field_index(f, k);
        let g = f.remove(i);
        assert forall|a: int, b: int| 0 <= a < g.len() && 0 <= b < g.len() && a != b implies (
        #[trigger] g[a]).0 != (#[trigger] g[b]).0 by {
            let fa = if a < i { a } else { a + 1 };
            let fb = if b < i { b } else { b + 1 };
            assert(g[a] == f[fa]);
            assert(g[b] == f[fb]);
        }
        if has_field(g, k) {
            let j = choose|j: int| 0 <= j < g.len() && (#[trigger] g[j]).0 == k;
            let fj = if j < i { j } else { j + 1 };
            assert(g[j] == f[fj]);
        }
    }
}

pub proof fn lemma_with_unique(f: Fields, k: Seq<char>, v: JsonData)
    requires
        keys_unique(f),
    ensures
        keys_unique(with_field(f, k, v)),
        field_value(with_field(f, k, v), k) == Some(v),
{
    let g = with_field(f, k, v);
    if has_field(f, k) {
        let i = field_index(f, k);
        assert forall|a: int, b: int| 0 <= a < g.len() && 0 <= b < g.len() && a != b implies (
        #[trigger] g[a]).0 != (#[trigger] g[b]).0 by {
            assert(g[a].0 == f[a].0);
            assert(g[b].0 == f[b].0);
        }
        lemma_field_index(g, k, i);
    } else {
        let n = f.len() as int;
        assert forall|a: int, b: int| 0 <= a < g.len() && 0 <= b < g.len() && a != b implies (
        #[trigger] g[a]).0 != (#[trigger] g[b]).0 by {
            if a < n && b < n {
                assert(g[a] == f[a]);
                assert(g[b] == f[b]);
            } else if a < n {
                assert(g[a] == f[a]);
            } else {
                assert(g[b] == f[b]);
            }
        }
        lemma_field_index(g, k, n);
    }
}

/// A JSON object with unique field names, in insertion order.
#[derive(Debug, PartialEq, Eq)]
pub struct JsonMap {
    entries: Vec<(String, JsonValue)>,
}

pub open spec fn fields_of(entries: Seq<(String, JsonValue)>) -> Fields {
    Seq::new(entries.len(), |i: int| (entries[i].0@, entries[i].1.data()))
}

impl View for JsonMap {
    type V = Fields;

    closed spec fn view(&self) -> Fields {
        fields_of(self.entries@)
    }
}

impl JsonMap {
    pub open spec fn wf(&self) -> bool {
        keys_unique(self@)
    }

    pub fn new() -> (r: JsonMap)
        ensures
            r.wf(),
            r@ == Seq::<(Seq<char>, JsonData)>::empty(),
    {
        let r = JsonMap { entries: Vec::new() };
        assert(r@ =~= Seq::<(Seq<char>, JsonData)>::empty());
        r
    }

    pub fn len(&self) -> (r: usize)
        ensures
            r == self@.len(),
    {
        self.entries.len()
    }

    /// Where the field named `key` stands.
    fn find(&self, key: &str) -> (r: Option<usize>)
        requires
            self.wf(),
        ensures
            r is None <==> !has_field(self@, key@),
            r matches Some(i) ==> i == field_index(self@, key@) && i < self@.len(),
    {
        let mut i: usize = 0;
        while i < self.entries.len()
            invariant
                self.wf(),
                i <= self.entries@.len(),
                forall|j: int| 0 <= j < i ==> (#[trigger] self@[j]).0 != key@,
            decreases self.entries@.len() - i,
        {
            if text_eq(self.entries[i].0.as_str(), key) {
                proof {
                    lemma_field_index(self@, key@, i as int);
                }
                return Some(i);
            }
            i += 1;
        }
        None
    }

    pub fn contains_key(&self, key: &str) -> (r: bool)
        requires
            self.wf(),
        ensures
            r == has_field(self@, key@),
    {
        self.find(key).is_some()
    }

    pub fn get(&self, key: &str) -> (r: Option<&JsonValue>)
        requires
            self.wf(),
        ensures
            match r {
                Some(v) => field_value(self@, key@) == Some(v.data()),
                None => field_value(self@, key@) is None,
            },
    {
        match self.find(key) {
            Some(i) => Some(&self.entries[i].1),
            None => None,
        }
    }

    /// Takes out the field named `key`, handing back its value.
    pub fn remove(&mut self, key: &str) -> (r: Option<JsonValue>)
        requires
            old(self).wf(),
        ensures
            final(self).wf(),
            final(self)@ == without_field(old(self)@, key@),
            match r {
                Some(v) => field_value(old(self)@, key@) == Some(v.data()),
                None => field_value(old(self)@, key@) is None,
            },
    {
        proof {
            lemma_without_unique(self@, key@);
        }
        match self.find(key) {
            Some(i) => {
                let ghost before = self.entries@;
                let (_, v) = self.entries.remove(i);
                assert(self@ =~= fields_of(before).remove(i as int));
                Some(v)
            },
            None => None,
        }
    }

    /// Sets the field named `key` to `value`, in place where it is present.
    pub fn insert(&mut self, key: String, value: JsonValue)
        requires
            old(self).wf(),
        ensures
            final(self).wf(),
            final(self)@ == with_field(old(self)@, key@, value.data()),
    {
        proof {
            lemma_with_unique(self@, key@, value.data());
        }
        let ghost before = self.entries@;
        let ghost d = value.data();
        match self.find(key.as_str()) {
            Some(i) => {
                self.entries.set(i, (key, value));
                assert(self@ =~= fields_of(before).update(i as int, (key@, d)));
            },
            None => {
                self.entries.push((key, value));
                assert(self@ =~= fields_of(before).push((key@, d)));
            },
        }
    }
}

/// The object that setting each entry in turn builds; a later entry wins.
pub open spec fn fields_from(e: Seq<(Seq<char>, JsonData)>) -> Fields
    decreases e.len(),
{
    if e.len() == 0 {
        Seq::empty()
    } else {
        let (k, v) = e.last();
        with_field(fields_from(e.drop_last()), k, v)
    }
}

impl JsonMap {
    /// Builds an object by setting each entry in turn.
    pub fn from_fields(fields: Vec<(String, JsonValue)>) -> (r: JsonMap)
        ensures
            r.wf(),
            r@ == fields_from(fields_of(fields@)),
    {
        let ghost all = fields_of(fields@);
        let mut fields = fields;
        let mut r = JsonMap::new();
        let n = fields.len();
        let mut i: usize = 0;
        assert(all.take(0) =~= Seq::<(Seq<char>, JsonData)>::empty());
        while i < n
            invariant
                n == all.len(),
                i <= n,
                fields_of(fields@) == all.skip(i as int),
                fields@.len() == n - i,
                r.wf(),
                r@ == fields_from(all.take(i as int)),
            decreases n - i,
        {
            assert(fields_of(fields@)[0] == all[i as int]);
            let ghost before = fields@;
            let (k, v) = fields.remove(0);
            assert(fields_of(fields@) =~= fields_of(before).drop_first());
            assert(all.skip(i as int).drop_first() =~= all.skip(i + 1));
            assert(all.take(i + 1).drop_last() =~= all.take(i as int));
            r.insert(k, v);
            i += 1;
        }
        assert(all.take(n as int) =~= all);
        r
    }

    /// The fields, in order.
    pub fn entries(&self) -> (r: &Vec<(String, JsonValue)>)
        ensures
            fields_of(r@) == self@,
    {
        &self.entries
    }

    /// The fields, in order.
    pub fn into_fields(self) -> (r: Vec<(String, JsonValue)>)
        ensures
            fields_of(r@) == self@,
    {
        self.entries
    }
}

} // verus!
