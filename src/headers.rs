//! A response's header list and the header transformation.
use vstd::prelude::*;
use crate::body::{names_of, pairs_of};
use crate::pipeline::run_steps;
use crate::rules::{Headers, KeyValue};
use crate::text::{eq_ignore_case, text_eq_ignore_case};

verus! {

/// The model of a header list: names and values, in order; a name may repeat.
pub type HeaderList = Seq<(Seq<char>, Seq<char>)>;

/// The value of the first header named `n` (names match in any case).
pub open spec fn first_value(h: HeaderList, n: Seq<char>) -> Option<Seq<char>>
    decreases h.len(),
{
    if h.len() == 0 {
        None
    } else if eq_ignore_case(h[0].0, n) {
        Some(h[0].1)
    } else {
        first_value(h.drop_first(), n)
    }
}

/// The list without any header named `n`.
pub open spec fn drop_header(h: HeaderList, n: Seq<char>) -> HeaderList
    decreases h.len(),
{
    if h.len() == 0 {
        h
    } else {
        let r = drop_header(h.drop_last(), n);
        if eq_ignore_case(h.last().0, n) {
            r
        } else {
            r.push(h.last())
        }
    }
}

/// The list with `n` set to the single value `v`.
pub open spec fn set_header(h: HeaderList, n: Seq<char>, v: Seq<char>) -> HeaderList {
    drop_header(h, n).push((n, v))
}

/// A response's headers.
#[derive(Debug, PartialEq, Eq)]
pub struct HeaderSet {
    entries: Vec<(String, String)>,
}

pub open spec fn header_list_of(e: Seq<(String, String)>) -> HeaderList {
    Seq::new(e.len(), |i: int| (e[i].0@, e[i].1@))
}

impl View for HeaderSet {
    type V = HeaderList;

    closed spec fn view(&self) -> HeaderList {
        header_list_of(self.entries@)
    }
}

impl HeaderSet {
    pub fn from_entries(entries: Vec<(String, String)>) -> (r: HeaderSet)
        ensures
            r@ == header_list_of(entries@),
    {
        HeaderSet { entries }
    }

    pub fn into_entries(self) -> (r: Vec<(String, String)>)
        ensures
            header_list_of(r@) == self@,
    {
        self.entries
    }

    /// The value of the first header named `name`.
    pub fn get(&self, name: &str) -> (r: Option<String>)
        ensures
            match r {
                Some(v) => first_value(self@, name@) == Some(v@),
                None => first_value(self@, name@) is None,
            },
    {
        let ghost h = self@;
        let mut i: usize = 0;
        assert(h.skip(0) =~= h);
        while i < self.entries.len()
            invariant
                h == self@,
                i <= h.len(),
                first_value(h, name@) == first_value(h.skip(i as int), name@),
            decreases h.len() - i,
        {
            assert(h.skip(i as int)[0] == h[i as int]);
            assert(h.skip(i as int).drop_first() =~= h.skip(i + 1));
            if text_eq_ignore_case(self.entries[i].0.as_str(), name) {
                return Some(self.entries[i].1.clone());
            }
            i += 1;
        }
        None
    }

    /// Removes every header named `name`.
    pub fn remove(&mut self, name: &str)
        ensures
            final(self)@ == drop_header(old(self)@, name@),
    {
        let ghost h = self@;
        let mut out: Vec<(String, String)> = Vec::new();
        let mut i: usize = 0;
        assert(h.take(0) =~= HeaderList::empty());
        while i < self.entries.len()
            invariant
                h == self@,
                i <= h.len(),
                header_list_of(out@) == drop_header(h.take(i as int), name@),
            decreases h.len() - i,
        {
            assert(h.take(i + 1).drop_last() =~= h.take(i as int));
            let ghost before = out@;
            if !text_eq_ignore_case(self.entries[i].0.as_str(), name) {
                out.push((self.entries[i].0.clone(), self.entries[i].1.clone()));
                assert(header_list_of(out@) =~= header_list_of(before).push(h[i as int]));
            }
            i += 1;
        }
        assert(h.take(i as int) =~= h);
        self.entries = out;
    }

    /// Sets `name` to the single value `value`.
    pub fn set(&mut self, name: &str, value: &str)
        ensures
            final(self)@ == set_header(old(self)@, name@, value@),
    {
        self.remove(name);
        self.add(name, value);
    }

    /// Adds one more header `name` with `value`.
    pub fn add(&mut self, name: &str, value: &str)
        ensures
            final(self)@ == old(self)@.push((name@, value@)),
    {
        let ghost before = self@;
        self.entries.push((name.to_string(), value.to_string()));
        assert(self@ =~= before.push((name@, value@)));
    }
}

/// The model of a header rule set.
pub struct HeaderRules {
    pub remove: Seq<Seq<char>>,
    pub rename: Seq<(Seq<char>, Seq<char>)>,
    pub replace: Seq<(Seq<char>, Seq<char>)>,
    pub add: Seq<(Seq<char>, Seq<char>)>,
    pub append: Seq<(Seq<char>, Seq<char>)>,
}

impl View for Headers {
    type V = HeaderRules;

    open spec fn view(&self) -> HeaderRules {
        HeaderRules {
            remove: names_of(self.remove@),
            rename: pairs_of(self.rename@),
            replace: pairs_of(self.replace@),
            add: pairs_of(self.add@),
            append: pairs_of(self.append@),
        }
    }
}

pub open spec fn remove_header_step(h: HeaderList, n: Seq<char>) -> (HeaderList, bool) {
    if first_value(h, n) is Some {
        (drop_header(h, n), true)
    } else {
        (h, false)
    }
}

pub open spec fn rename_header_step(h: HeaderList, r: (Seq<char>, Seq<char>)) -> (HeaderList, bool) {
    match first_value(h, r.0) {
        Some(v) => (set_header(drop_header(h, r.0), r.1, v), true),
        None => (h, false),
    }
}

pub open spec fn replace_header_step(h: HeaderList, r: (Seq<char>, Seq<char>)) -> (HeaderList, bool) {
    if first_value(h, r.0) is Some {
        (set_header(h, r.0, r.1), true)
    } else {
        (h, false)
    }
}

pub open spec fn add_header_step(h: HeaderList, r: (Seq<char>, Seq<char>)) -> (HeaderList, bool) {
    if first_value(h, r.0) is None {
        (set_header(h, r.0, r.1), true)
    } else {
        (h, false)
    }
}

pub open spec fn append_header_step(h: HeaderList, r: (Seq<char>, Seq<char>)) -> (HeaderList, bool) {
    (h.push(r), true)
}

pub open spec fn remove_headers_stage(h: HeaderList, rules: Seq<Seq<char>>) -> (HeaderList, bool) {
    run_steps(h, rules, |h: HeaderList, n: Seq<char>| remove_header_step(h, n))
}

pub open spec fn rename_headers_stage(h: HeaderList, rules: Seq<(Seq<char>, Seq<char>)>) -> (HeaderList, bool) {
    run_steps(h, rules, |h: HeaderList, r: (Seq<char>, Seq<char>)| rename_header_step(h, r))
}

pub open spec fn replace_headers_stage(h: HeaderList, rules: Seq<(Seq<char>, Seq<char>)>) -> (HeaderList, bool) {
    run_steps(h, rules, |h: HeaderList, r: (Seq<char>, Seq<char>)| replace_header_step(h, r))
}

pub open spec fn add_headers_stage(h: HeaderList, rules: Seq<(Seq<char>, Seq<char>)>) -> (HeaderList, bool) {
    run_steps(h, rules, |h: HeaderList, r: (Seq<char>, Seq<char>)| add_header_step(h, r))
}

pub open spec fn append_headers_stage(h: HeaderList, rules: Seq<(Seq<char>, Seq<char>)>) -> (HeaderList, bool) {
    run_steps(h, rules, |h: HeaderList, r: (Seq<char>, Seq<char>)| append_header_step(h, r))
}

/// The five stages in order: remove, rename, replace, add, append.
pub open spec fn apply_headers(rules: HeaderRules, h: HeaderList) -> HeaderList {
    let h1 = remove_headers_stage(h, rules.remove).0;
    let h2 = rename_headers_stage(h1, rules.rename).0;
    let h3 = replace_headers_stage(h2, rules.replace).0;
    let h4 = add_headers_stage(h3, rules.add).0;
    append_headers_stage(h4, rules.append).0
}

proof fn lemma_remove_headers_next(h: HeaderList, rules: Seq<Seq<char>>, i: int)
    requires
        0 <= i < rules.len(),
    ensures
        remove_headers_stage(h, rules.take(i + 1)) == ({
            let (g, c) = remove_headers_stage(h, rules.take(i));
            let (k, d) = remove_header_step(g, rules[i]);
            (k, c || d)
        }),
{
    assert(rules.take(i + 1).drop_last() =~= rules.take(i));
}

proof fn lemma_rename_headers_next(h: HeaderList, rules: Seq<(Seq<char>, Seq<char>)>, i: int)
    requires
        0 <= i < rules.len(),
    ensures
        rename_headers_stage(h, rules.take(i + 1)) == ({
            let (g, c) = rename_headers_stage(h, rules.take(i));
            let (k, d) = rename_header_step(g, rules[i]);
            (k, c || d)
        }),
{
    assert(rules.take(i + 1).drop_last() =~= rules.take(i));
}

proof fn lemma_replace_headers_next(h: HeaderList, rules: Seq<(Seq<char>, Seq<char>)>, i: int)
    requires
        0 <= i < rules.len(),
    ensures
        replace_headers_stage(h, rules.take(i + 1)) == ({
            let (g, c) = replace_headers_stage(h, rules.take(i));
            let (k, d) = replace_header_step(g, rules[i]);
            (k, c || d)
        }),
{
    assert(rules.take(i + 1).drop_last() =~= rules.take(i));
}

proof fn lemma_add_headers_next(h: HeaderList, rules: Seq<(Seq<char>, Seq<char>)>, i: int)
    requires
        0 <= i < rules.len(),
    ensures
        add_headers_stage(h, rules.take(i + 1)) == ({
            let (g, c) = add_headers_stage(h, rules.take(i));
            let (k, d) = add_header_step(g, rules[i]);
            (k, c || d)
        }),
{
    assert(rules.take(i + 1).drop_last() =~= rules.take(i));
}

proof fn lemma_append_headers_next(h: HeaderList, rules: Seq<(Seq<char>, Seq<char>)>, i: int)
    requires
        0 <= i < rules.len(),
    ensures
        append_headers_stage(h, rules.take(i + 1)) == ({
            let (g, c) = append_headers_stage(h, rules.take(i));
            let (k, d) = append_header_step(g, rules[i]);
            (k, c || d)
        }),
{
    assert(rules.take(i + 1).drop_last() =~= rules.take(i));
}

fn remove_headers(tx: &Headers, headers: &mut HeaderSet)
    ensures
        final(headers)@ == remove_headers_stage(old(headers)@, names_of(tx.remove@)).0,
{
    let ghost h0 = headers@;
    let ghost rules = names_of(tx.remove@);
    let ghost mut changed = false;
    let mut i: usize = 0;
    assert(rules.take(0) =~= Seq::<Seq<char>>::empty());
    while i < tx.remove.len()
        invariant
            i <= tx.remove@.len(),
            rules == names_of(tx.remove@),
            (headers@, changed) == remove_headers_stage(h0, rules.take(i as int)),
        decreases tx.remove@.len() - i,
    {
        proof {
            lemma_remove_headers_next(h0, rules, i as int);
        }
        let name = tx.remove[i].as_str();
        if headers.get(name).is_some() {
            headers.remove(name);
            proof { changed = true; }
        }
        i += 1;
    }
    assert(rules.take(i as int) =~= rules);
}

fn rename_headers(tx: &Headers, headers: &mut HeaderSet)
    ensures
        final(headers)@ == rename_headers_stage(old(headers)@, pairs_of(tx.rename@)).0,
{
    let ghost h0 = headers@;
    let ghost rules = pairs_of(tx.rename@);
    let ghost mut changed = false;
    let mut i: usize = 0;
    assert(rules.take(0) =~= Seq::<(Seq<char>, Seq<char>)>::empty());
    while i < tx.rename.len()
        invariant
            i <= tx.rename@.len(),
            rules == pairs_of(tx.rename@),
            (headers@, changed) == rename_headers_stage(h0, rules.take(i as int)),
        decreases tx.rename@.len() - i,
    {
        proof {
            lemma_rename_headers_next(h0, rules, i as int);
        }
        let KeyValue(from, to) = &tx.rename[i];
        if let Some(value) = headers.get(from.as_str()) {
            headers.remove(from.as_str());
            headers.set(to.as_str(), value.as_str());
            proof { changed = true; }
        }
        i += 1;
    }
    assert(rules.take(i as int) =~= rules);
}

fn replace_headers(tx: &Headers, headers: &mut HeaderSet)
    ensures
        final(headers)@ == replace_headers_stage(old(headers)@, pairs_of(tx.replace@)).0,
{
    let ghost h0 = headers@;
    let ghost rules = pairs_of(tx.replace@);
    let ghost mut changed = false;
    let mut i: usize = 0;
    assert(rules.take(0) =~= Seq::<(Seq<char>, Seq<char>)>::empty());
    while i < tx.replace.len()
        invariant
            i <= tx.replace@.len(),
            rules == pairs_of(tx.replace@),
            (headers@, changed) == replace_headers_stage(h0, rules.take(i as int)),
        decreases tx.replace@.len() - i,
    {
        proof {
            lemma_replace_headers_next(h0, rules, i as int);
        }
        let KeyValue(name, value) = &tx.replace[i];
        if headers.get(name.as_str()).is_some() {
            headers.set(name.as_str(), value.as_str());
            proof { changed = true; }
        }
        i += 1;
    }
    assert(rules.take(i as int) =~= rules);
}

fn add_headers(tx: &Headers, headers: &mut HeaderSet)
    ensures
        final(headers)@ == add_headers_stage(old(headers)@, pairs_of(tx.add@)).0,
{
    let ghost h0 = headers@;
    let ghost rules = pairs_of(tx.add@);
    let ghost mut changed = false;
    let mut i: usize = 0;
    assert(rules.take(0) =~= Seq::<(Seq<char>, Seq<char>)>::empty());
    while i < tx.add.len()
        invariant
            i <= tx.add@.len(),
            rules == pairs_of(tx.add@),
            (headers@, changed) == add_headers_stage(h0, rules.take(i as int)),
        decreases tx.add@.len() - i,
    {
        proof {
            lemma_add_headers_next(h0, rules, i as int);
        }
        let KeyValue(name, value) = &tx.add[i];
        if headers.get(name.as_str()).is_none() {
            headers.set(name.as_str(), value.as_str());
            proof { changed = true; }
        }
        i += 1;
    }
    assert(rules.take(i as int) =~= rules);
}

fn append_headers(tx: &Headers, headers: &mut HeaderSet)
    ensures
        final(headers)@ == append_headers_stage(old(headers)@, pairs_of(tx.append@)).0,
{
    let ghost h0 = headers@;
    let ghost rules = pairs_of(tx.append@);
    let ghost mut changed = false;
    let mut i: usize = 0;
    assert(rules.take(0) =~= Seq::<(Seq<char>, Seq<char>)>::empty());
    while i < tx.append.len()
        invariant
            i <= tx.append@.len(),
            rules == pairs_of(tx.append@),
            (headers@, changed) == append_headers_stage(h0, rules.take(i as int)),
        decreases tx.append@.len() - i,
    {
        proof {
            lemma_append_headers_next(h0, rules, i as int);
        }
        let KeyValue(name, value) = &tx.append[i];
        headers.add(name.as_str(), value.as_str());
        proof { changed = true; }
        i += 1;
    }
    assert(rules.take(i as int) =~= rules);
}

impl Headers {
    /// Applies the five stages in order to `headers`, each stage seeing the
    /// headers as the stages before it left them.
    pub fn transform_headers(&self, headers: &mut HeaderSet)
        ensures
            final(headers)@ == apply_headers(self@, old(headers)@),
    {
        remove_headers(self, headers);
        rename_headers(self, headers);
        replace_headers(self, headers);
        add_headers(self, headers);
        append_headers(self, headers);
    }
}

} // verus!
