//! Laws that the rule engine obeys.
use vstd::prelude::*;
use crate::body::{
    add_stage, append_stage, append_step, apply_json, remove_stage, rename_stage, rename_step,
    replace_stage,
    JsonRules,
};
use crate::headers::{
    add_headers_stage, append_headers_stage, apply_headers, remove_headers_stage,
    rename_headers_stage, replace_headers_stage, HeaderList, HeaderRules,
};
use crate::json::JsonData;
use crate::object::{field_index, field_value, has_field, with_field, keys_unique, lemma_without_unique, without_field, Fields};
use crate::rules::{lemma_first_unique, split_spec};
use crate::text::is_first;

verus! {

/// A `key:value` entry parses exactly when its first `:` has text on both
/// sides; the key is the text before it and the value the text after it.
pub proof fn law_parse_iff_colon_inside(s: Seq<char>)
    ensures
        split_spec(s) is Some <==> exists|i: int| is_first(s, ':', i) && 0 < i && i + 1 < s.len(),
        split_spec(s) matches Some((k, v)) ==> exists|i: int|
            is_first(s, ':', i) && k == s.take(i) && v == s.skip(i + 1),
{
    if exists|i: int| is_first(s, ':', i) {
        let c = choose|i: int| is_first(s, ':', i);
        assert forall|i: int| is_first(s, ':', i) implies i == c by {
            lemma_first_unique(s, ':', i, c);
        }
    }
}

/// Appending to a field that holds neither a string nor an array leaves the
/// object as it is and reports no change.
pub proof fn law_append_keeps_other_values(f: Fields, k: Seq<char>, v: JsonData)
    requires
        field_value(f, k) matches Some(x) && !(x is Array) && !(x is Text),
    ensures
        append_step(f, (k, v)) == (f, false),
{
}

/// The header rules run as five stages, strictly in the order remove,
/// rename, replace, add, append, each on what the stage before it left.
pub proof fn law_header_stage_order(rules: HeaderRules, h: HeaderList)
    ensures
        apply_headers(rules, h) == append_headers_stage(
            add_headers_stage(
                replace_headers_stage(
                    rename_headers_stage(remove_headers_stage(h, rules.remove).0, rules.rename).0,
                    rules.replace,
                ).0,
                rules.add,
            ).0,
            rules.append,
        ).0,
{
}

proof fn lemma_remove_unchanged(f: Fields, rules: Seq<Seq<char>>)
    ensures
        !remove_stage(f, rules).1 ==> remove_stage(f, rules).0 == f,
    decreases rules.len(),
{
    if rules.len() > 0 {
        lemma_remove_unchanged(f, rules.drop_last());
    }
}

proof fn lemma_rename_unchanged(f: Fields, rules: Seq<(Seq<char>, Seq<char>)>)
    ensures
        !rename_stage(f, rules).1 ==> rename_stage(f, rules).0 == f,
    decreases rules.len(),
{
    if rules.len() > 0 {
        lemma_rename_unchanged(f, rules.drop_last());
    }
}

proof fn lemma_replace_unchanged(f: Fields, rules: Seq<(Seq<char>, JsonData)>)
    ensures
        !replace_stage(f, rules).1 ==> replace_stage(f, rules).0 == f,
    decreases rules.len(),
{
    if rules.len() > 0 {
        lemma_replace_unchanged(f, rules.drop_last());
    }
}

proof fn lemma_add_unchanged(f: Fields, rules: Seq<(Seq<char>, JsonData)>)
    ensures
        !add_stage(f, rules).1 ==> add_stage(f, rules).0 == f,
    decreases rules.len(),
{
    if rules.len() > 0 {
        lemma_add_unchanged(f, rules.drop_last());
    }
}

proof fn lemma_append_unchanged(f: Fields, rules: Seq<(Seq<char>, JsonData)>)
    ensures
        !append_stage(f, rules).1 ==> append_stage(f, rules).0 == f,
    decreases rules.len(),
{
    if rules.len() > 0 {
        lemma_append_unchanged(f, rules.drop_last());
    }
}

/// A JSON rule set that reports no change leaves the object exactly as it
/// was, so the original body can be forwarded untouched.
pub proof fn law_unchanged_body_is_kept(rules: JsonRules, f: Fields)
    ensures
        !apply_json(rules, f).1 ==> apply_json(rules, f).0 == f,
{
    let (f1, c1) = remove_stage(f, rules.remove);
    let (f2, c2) = rename_stage(f1, rules.rename);
    let (f3, c3) = replace_stage(f2, rules.replace);
    let (f4, c4) = add_stage(f3, rules.add);
    lemma_remove_unchanged(f, rules.remove);
    lemma_rename_unchanged(f1, rules.rename);
    lemma_replace_unchanged(f2, rules.replace);
    lemma_add_unchanged(f3, rules.add);
    lemma_append_unchanged(f4, rules.append);
}

proof fn lemma_without_has(f: Fields, k: Seq<char>, k2: Seq<char>)
    requires
        has_field(without_field(f, k), k2),
    ensures
        has_field(f, k2),
{
    if has_field(f, k) {
        let i = field_index(f, k);
        let g = f.remove(i);
        let j = choose|j: int| 0 <= j < g.len() && (#[trigger] g[j]).0 == k2;
        let fj = if j < i { j } else { j + 1 };
        assert(g[j] == f[fj]);
    }
}

proof fn lemma_remove_stage_absent(f: Fields, names: Seq<Seq<char>>)
    requires
        keys_unique(f),
    ensures
        keys_unique(remove_stage(f, names).0),
        forall|i: int| 0 <= i < names.len() ==> !has_field(remove_stage(f, names).0, #[trigger] names[i]),
    decreases names.len(),
{
    if names.len() > 0 {
        let front = names.drop_last();
        lemma_remove_stage_absent(f, front);
        let g = remove_stage(f, front).0;
        let k = names.last();
        lemma_without_unique(g, k);
        assert forall|i: int| 0 <= i < names.len() implies !has_field(
            remove_stage(f, names).0,
            #[trigger] names[i],
        ) by {
            if i < names.len() - 1 {
                assert(front[i] == names[i]);
                if has_field(without_field(g, k), names[i]) {
                    lemma_without_has(g, k, names[i]);
                }
            }
        }
    }
}

proof fn lemma_remove_stage_noop(g: Fields, names: Seq<Seq<char>>)
    requires
        forall|i: int| 0 <= i < names.len() ==> !has_field(g, #[trigger] names[i]),
    ensures
        remove_stage(g, names) == (g, false),
    decreases names.len(),
{
    if names.len() > 0 {
        let front = names.drop_last();
        assert forall|i: int| 0 <= i < front.len() implies !has_field(g, #[trigger] front[i]) by {
            assert(front[i] == names[i]);
        }
        lemma_remove_stage_noop(g, front);
        assert(!has_field(g, names[names.len() - 1]));
    }
}

/// Removing the same names a second time finds none of them and reports no
/// change.
pub proof fn law_remove_idempotent(f: Fields, names: Seq<Seq<char>>)
    requires
        keys_unique(f),
    ensures
        remove_stage(remove_stage(f, names).0, names) == (remove_stage(f, names).0, false),
{
    lemma_remove_stage_absent(f, names);
    lemma_remove_stage_noop(remove_stage(f, names).0, names);
}

proof fn lemma_with_has(f: Fields, k: Seq<char>, v: JsonData, k2: Seq<char>)
    requires
        has_field(with_field(f, k, v), k2),
        k2 != k,
    ensures
        has_field(f, k2),
{
    let g = with_field(f, k, v);
    let j = choose|j: int| 0 <= j < g.len() && (#[trigger] g[j]).0 == k2;
    if has_field(f, k) {
        assert(f[j].0 == k2);
    } else {
        assert(j < f.len());
        assert(f[j].0 == k2);
    }
}

/// Renaming a field to another name a second time finds nothing to rename.
pub proof fn law_rename_twice_is_no_change(f: Fields, from: Seq<char>, to: Seq<char>)
    requires
        keys_unique(f),
        from != to,
    ensures
        !rename_step(rename_step(f, (from, to)).0, (from, to)).1,
{
    if has_field(f, from) {
        lemma_without_unique(f, from);
        let g = without_field(f, from);
        let v = field_value(f, from)->0;
        if has_field(with_field(g, to, v), from) {
            lemma_with_has(g, to, v, from);
        }
    }
}

} // verus!
