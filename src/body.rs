//! The JSON body transformation: remove, rename, replace, add, append.
use vstd::prelude::*;
use crate::json::{JsonData, JsonValue};
use crate::object::{field_value, has_field, with_field, without_field, Fields, JsonMap};
use crate::pipeline::run_steps;
use crate::rules::{entries_data, Json, KeyValue};

verus! {

/// The model of a JSON rule set.
pub struct JsonRules {
    pub remove: Seq<Seq<char>>,
    pub rename: Seq<(Seq<char>, Seq<char>)>,
    pub replace: Seq<(Seq<char>, JsonData)>,
    pub add: Seq<(Seq<char>, JsonData)>,
    pub append: Seq<(Seq<char>, JsonData)>,
}

pub open spec fn pairs_of(kvs: Seq<KeyValue>) -> Seq<(Seq<char>, Seq<char>)> {
    Seq::new(kvs.len(), |i: int| (kvs[i].0@, kvs[i].1@))
}

pub open spec fn names_of(names: Seq<String>) -> Seq<Seq<char>> {
    Seq::new(names.len(), |i: int| names[i]@)
}

impl View for Json {
    type V = JsonRules;

    open spec fn view(&self) -> JsonRules {
        JsonRules {
            remove: names_of(self.remove@),
            rename: pairs_of(self.rename@),
            replace: entries_data(self.replace@),
            add: entries_data(self.add@),
            append: entries_data(self.append@),
        }
    }
}

pub open spec fn remove_step(f: Fields, k: Seq<char>) -> (Fields, bool) {
    (without_field(f, k), has_field(f, k))
}

pub open spec fn rename_step(f: Fields, r: (Seq<char>, Seq<char>)) -> (Fields, bool) {
    if has_field(f, r.0) {
        (with_field(without_field(f, r.0), r.1, field_value(f, r.0)->0), true)
    } else {
        (f, false)
    }
}

pub open spec fn replace_step(f: Fields, r: (Seq<char>, JsonData)) -> (Fields, bool) {
    if has_field(f, r.0) && field_value(f, r.0) != Some(r.1) {
        (with_field(f, r.0, r.1), true)
    } else {
        (f, false)
    }
}

pub open spec fn add_step(f: Fields, r: (Seq<char>, JsonData)) -> (Fields, bool) {
    if !has_field(f, r.0) {
        (with_field(f, r.0, r.1), true)
    } else {
        (f, false)
    }
}

/// Appending to an absent field makes a one-element array; to an array,
/// pushes; to a string, makes a two-element array; any other value stays.
pub open spec fn append_step(f: Fields, r: (Seq<char>, JsonData)) -> (Fields, bool) {
    match field_value(f, r.0) {
        None => (with_field(f, r.0, JsonData::Array(seq![r.1])), true),
        Some(JsonData::Array(items)) => (with_field(f, r.0, JsonData::Array(items.push(r.1))), true),
        Some(JsonData::Text(t)) => (with_field(f, r.0, JsonData::Array(seq![JsonData::Text(t), r.1])), true),
        Some(_) => (f, false),
    }
}

pub open spec fn remove_stage(f: Fields, rules: Seq<Seq<char>>) -> (Fields, bool) {
    run_steps(f, rules, |f: Fields, k: Seq<char>| remove_step(f, k))
}

pub open spec fn rename_stage(f: Fields, rules: Seq<(Seq<char>, Seq<char>)>) -> (Fields, bool) {
    run_steps(f, rules, |f: Fields, r: (Seq<char>, Seq<char>)| rename_step(f, r))
}

pub open spec fn replace_stage(f: Fields, rules: Seq<(Seq<char>, JsonData)>) -> (Fields, bool) {
    run_steps(f, rules, |f: Fields, r: (Seq<char>, JsonData)| replace_step(f, r))
}

pub open spec fn add_stage(f: Fields, rules: Seq<(Seq<char>, JsonData)>) -> (Fields, bool) {
    run_steps(f, rules, |f: Fields, r: (Seq<char>, JsonData)| add_step(f, r))
}

pub open spec fn append_stage(f: Fields, rules: Seq<(Seq<char>, JsonData)>) -> (Fields, bool) {
    run_steps(f, rules, |f: Fields, r: (Seq<char>, JsonData)| append_step(f, r))
}

/// The five stages in order, and whether any of them changed the object.
pub open spec fn apply_json(rules: JsonRules, f: Fields) -> (Fields, bool) {
    let (f1, c1) = remove_stage(f, rules.remove);
    let (f2, c2) = rename_stage(f1, rules.rename);
    let (f3, c3) = replace_stage(f2, rules.replace);
    let (f4, c4) = add_stage(f3, rules.add);
    let (f5, c5) = append_stage(f4, rules.append);
    (f5, c1 || c2 || c3 || c4 || c5)
}

proof fn lemma_remove_next(f: Fields, rules: Seq<Seq<char>>, i: int)
    requires
        0 <= i < rules.len(),
    ensures
        remove_stage(f, rules.take(i + 1)) == ({
            let (g, c) = remove_stage(f, rules.take(i));
            let (h, d) = remove_step(g, rules[i]);
            (h, c || d)
        }),
{
    assert(rules.take(i + 1).drop_last() =~= rules.take(i));
}

proof fn lemma_rename_next(f: Fields, rules: Seq<(Seq<char>, Seq<char>)>, i: int)
    requires
        0 <= i < rules.len(),
    ensures
        rename_stage(f, rules.take(i + 1)) == ({
            let (g, c) = rename_stage(f, rules.take(i));
            let (h, d) = rename_step(g, rules[i]);
            (h, c || d)
        }),
{
    assert(rules.take(i + 1).drop_last() =~= rules.take(i));
}

proof fn lemma_replace_next(f: Fields, rules: Seq<(Seq<char>, JsonData)>, i: int)
    requires
        0 <= i < rules.len(),
    ensures
        replace_stage(f, rules.take(i + 1)) == ({
            let (g, c) = replace_stage(f, rules.take(i));
            let (h, d) = replace_step(g, rules[i]);
            (h, c || d)
        }),
{
    assert(rules.take(i + 1).drop_last() =~= rules.take(i));
}

proof fn lemma_add_next(f: Fields, rules: Seq<(Seq<char>, JsonData)>, i: int)
    requires
        0 <= i < rules.len(),
    ensures
        add_stage(f, rules.take(i + 1)) == ({
            let (g, c) = add_stage(f, rules.take(i));
            let (h, d) = add_step(g, rules[i]);
            (h, c || d)
        }),
{
    assert(rules.take(i + 1).drop_last() =~= rules.take(i));
}

proof fn lemma_append_next(f: Fields, rules: Seq<(Seq<char>, JsonData)>, i: int)
    requires
        0 <= i < rules.len(),
    ensures
        append_stage(f, rules.take(i + 1)) == ({
            let (g, c) = append_stage(f, rules.take(i));
            let (h, d) = append_step(g, rules[i]);
            (h, c || d)
        }),
{
    assert(rules.take(i + 1).drop_last() =~= rules.take(i));
}

fn remove_fields(names: &Vec<String>, body: &mut JsonMap) -> (changed: bool)
    requires
        old(body).wf(),
    ensures
        final(body).wf(),
        (final(body)@, changed) == remove_stage(old(body)@, names_of(names@)),
{
    let ghost f0 = body@;
    let ghost rules = names_of(names@);
    let mut changed = false;
    let mut i: usize = 0;
    assert(rules.take(0) =~= Seq::<Seq<char>>::empty());
    while i < names.len()
        invariant
            i <= names@.len(),
            rules == names_of(names@),
            body.wf(),
            (body@, changed) == remove_stage(f0, rules.take(i as int)),
        decreases names@.len() - i,
    {
        proof {
            lemma_remove_next(f0, rules, i as int);
        }
        if body.remove(names[i].as_str()).is_some() {
            changed = true;
        }
        i += 1;
    }
    assert(rules.take(i as int) =~= rules);
    changed
}

fn rename_fields(rules_in: &Vec<KeyValue>, body: &mut JsonMap) -> (changed: bool)
    requires
        old(body).wf(),
    ensures
        final(body).wf(),
        (final(body)@, changed) == rename_stage(old(body)@, pairs_of(rules_in@)),
{
    let ghost f0 = body@;
    let ghost rules = pairs_of(rules_in@);
    let mut changed = false;
    let mut i: usize = 0;
    assert(rules.take(0) =~= Seq::<(Seq<char>, Seq<char>)>::empty());
    while i < rules_in.len()
        invariant
            i <= rules_in@.len(),
            rules == pairs_of(rules_in@),
            body.wf(),
            (body@, changed) == rename_stage(f0, rules.take(i as int)),
        decreases rules_in@.len() - i,
    {
        proof {
            lemma_rename_next(f0, rules, i as int);
        }
        let KeyValue(from, to) = &rules_in[i];
        if let Some(v) = body.remove(from.as_str()) {
            body.insert(to.clone(), v);
            changed = true;
        }
        i += 1;
    }
    assert(rules.take(i as int) =~= rules);
    changed
}

fn replace_fields(rules_in: &Vec<(String, JsonValue)>, body: &mut JsonMap) -> (changed: bool)
    requires
        old(body).wf(),
    ensures
        final(body).wf(),
        (final(body)@, changed) == replace_stage(old(body)@, entries_data(rules_in@)),
{
    let ghost f0 = body@;
    let ghost rules = entries_data(rules_in@);
    let mut changed = false;
    let mut i: usize = 0;
    assert(rules.take(0) =~= Seq::<(Seq<char>, JsonData)>::empty());
    while i < rules_in.len()
        invariant
            i <= rules_in@.len(),
            rules == entries_data(rules_in@),
            body.wf(),
            (body@, changed) == replace_stage(f0, rules.take(i as int)),
        decreases rules_in@.len() - i,
    {
        proof {
            lemma_replace_next(f0, rules, i as int);
        }
        let (field, value) = &rules_in[i];
        let differs = match body.get(field.as_str()) {
            Some(found) => !found.same_as(value),
            None => false,
        };
        if differs {
            body.insert(field.clone(), value.copy());
            changed = true;
        }
        i += 1;
    }
    assert(rules.take(i as int) =~= rules);
    changed
}

fn add_fields(rules_in: &Vec<(String, JsonValue)>, body: &mut JsonMap) -> (changed: bool)
    requires
        old(body).wf(),
    ensures
        final(body).wf(),
        (final(body)@, changed) == add_stage(old(body)@, entries_data(rules_in@)),
{
    let ghost f0 = body@;
    let ghost rules = entries_data(rules_in@);
    let mut changed = false;
    let mut i: usize = 0;
    assert(rules.take(0) =~= Seq::<(Seq<char>, JsonData)>::empty());
    while i < rules_in.len()
        invariant
            i <= rules_in@.len(),
            rules == entries_data(rules_in@),
            body.wf(),
            (body@, changed) == add_stage(f0, rules.take(i as int)),
        decreases rules_in@.len() - i,
    {
        proof {
            lemma_add_next(f0, rules, i as int);
        }
        let (field, value) = &rules_in[i];
        if !body.contains_key(field.as_str()) {
            body.insert(field.clone(), value.copy());
            changed = true;
        }
        i += 1;
    }
    assert(rules.take(i as int) =~= rules);
    changed
}

/// The value after appending `value` to `current`, if `current` takes appends.
fn appended(current: Option<&JsonValue>, value: &JsonValue) -> (r: Option<JsonValue>)
    ensures
        match current {
            None => r matches Some(n) && n.data() == JsonData::Array(seq![value.data()]),
            Some(c) => match c.data() {
                JsonData::Array(items) => r matches Some(n) && n.data() == JsonData::Array(
                    items.push(value.data()),
                ),
                JsonData::Text(t) => r matches Some(n) && n.data() == JsonData::Array(
                    seq![JsonData::Text(t), value.data()],
                ),
                _ => r is None,
            },
        },
{
    match current {
        None => {
            let items = vec![value.copy()];
            let n = JsonValue::Array(items);
            assert(n.data()->Array_0 =~= seq![value.data()]);
            Some(n)
        },
        Some(c) => match c {
            JsonValue::Array(_) => {
                let copied = c.copy();
                match copied {
                    JsonValue::Array(items) => {
                        let mut items = items;
                        items.push(value.copy());
                        let n = JsonValue::Array(items);
                        assert(n.data()->Array_0 =~= copied.data()->Array_0.push(value.data()));
                        Some(n)
                    },
                    _ => None,
                }
            },
            JsonValue::String(t) => {
                let items = vec![JsonValue::String(t.clone()), value.copy()];
                let n = JsonValue::Array(items);
                assert(n.data()->Array_0 =~= seq![JsonData::Text(t@), value.data()]);
                Some(n)
            },
            _ => None,
        },
    }
}

fn append_fields(rules_in: &Vec<(String, JsonValue)>, body: &mut JsonMap) -> (changed: bool)
    requires
        old(body).wf(),
    ensures
        final(body).wf(),
        (final(body)@, changed) == append_stage(old(body)@, entries_data(rules_in@)),
{
    let ghost f0 = body@;
    let ghost rules = entries_data(rules_in@);
    let mut changed = false;
    let mut i: usize = 0;
    assert(rules.take(0) =~= Seq::<(Seq<char>, JsonData)>::empty());
    while i < rules_in.len()
        invariant
            i <= rules_in@.len(),
            rules == entries_data(rules_in@),
            body.wf(),
            (body@, changed) == append_stage(f0, rules.take(i as int)),
        decreases rules_in@.len() - i,
    {
        proof {
            lemma_append_next(f0, rules, i as int);
        }
        let (field, value) = &rules_in[i];
        let next = appended(body.get(field.as_str()), value);
        if let Some(n) = next {
            body.insert(field.clone(), n);
            changed = true;
        }
        i += 1;
    }
    assert(rules.take(i as int) =~= rules);
    changed
}

impl Json {
    /// Applies the five stages in order to `body`; reports whether any changed it.
    pub fn transform_body(&self, body: &mut JsonMap) -> (changed: bool)
        requires
            old(body).wf(),
        ensures
            final(body).wf(),
            (final(body)@, changed) == apply_json(self@, old(body)@),
    {
        let c1 = remove_fields(&self.remove, body);
        let c2 = rename_fields(&self.rename, body);
        let c3 = replace_fields(&self.replace, body);
        let c4 = add_fields(&self.add, body);
        let c5 = append_fields(&self.append, body);
        c1 || c2 || c3 || c4 || c5
    }
}

} // verus!
