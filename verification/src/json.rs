//! A JSON document as plain values, and the reading of model listings from it.

use vstd::prelude::*;
use crate::text::{chars_of, str_eq};

verus! {

/// A JSON value. Numbers are kept as `serde_json` numbers; an object
/// keeps its members in order.
pub enum JsonValue {
    Null,
    Bool(bool),
    Number(serde_json::Number),
    Str(String),
    Array(Vec<JsonValue>),
    Object(Vec<(String, JsonValue)>),
}

/// The value of the first member named `key` among `entries`.
pub open spec fn entries_get(entries: Seq<(String, JsonValue)>, key: Seq<char>) -> Option<JsonValue>
    decreases entries.len(),
{
    if entries.len() == 0 {
        None
    } else if entries[0].0@ == key {
        Some(entries[0].1)
    } else {
        entries_get(entries.drop_first(), key)
    }
}

/// Member lookup: `Some` only for an object that has the member.
pub open spec fn json_get(v: JsonValue, key: Seq<char>) -> Option<JsonValue> {
    match v {
        JsonValue::Object(entries) => entries_get(entries@, key),
        _ => None,
    }
}

/// The items of a model listing: the `data` array of an object when there is
/// one, else the document itself when it is an array, else nothing.
pub open spec fn listing_items(v: JsonValue) -> Seq<JsonValue> {
    match json_get(v, "data"@) {
        Some(JsonValue::Array(items)) => items@,
        _ => match v {
            JsonValue::Array(items) => items@,
            _ => Seq::empty(),
        },
    }
}

/// The model id that a listing item names: its `id` member when that is a
/// string, else the item itself when it is a string.
pub open spec fn item_id(item: JsonValue) -> Option<Seq<char>> {
    match json_get(item, "id"@) {
        Some(JsonValue::Str(s)) => Some(s@),
        _ => match item {
            JsonValue::Str(s) => Some(s@),
            _ => None,
        },
    }
}

/// The set of ids that the first `n` items name.
pub open spec fn ids_named(items: Seq<JsonValue>, n: int) -> Set<Seq<char>> {
    Set::new(|s: Seq<char>| exists|i: int| 0 <= i < n && #[trigger] item_id(items[i]) == Some(s))
}

/// Strict lexicographic order of strings by code point, which is the order
/// of `String` (UTF-8 preserves code point order).
pub open spec fn text_lt(a: Seq<char>, b: Seq<char>) -> bool
    decreases a.len(),
{
    if a.len() == 0 {
        b.len() > 0
    } else if b.len() == 0 {
        false
    } else if a[0] == b[0] {
        text_lt(a.drop_first(), b.drop_first())
    } else {
        (a[0] as u32) < (b[0] as u32)
    }
}

/// The character views of a list of strings.
pub open spec fn views(v: Seq<String>) -> Seq<Seq<char>> {
    v.map_values(|s: String| s@)
}

/// Strictly increasing, hence without repetition.
pub open spec fn strictly_sorted(s: Seq<Seq<char>>) -> bool {
    forall|i: int, j: int| 0 <= i < j < s.len() ==> text_lt(#[trigger] s[i], #[trigger] s[j])
}

pub proof fn lemma_text_lt_irreflexive(a: Seq<char>)
    ensures
        !text_lt(a, a),
    decreases a.len(),
{
    if a.len() > 0 {
        lemma_text_lt_irreflexive(a.drop_first());
    }
}

pub proof fn lemma_text_lt_transitive(a: Seq<char>, b: Seq<char>, c: Seq<char>)
    requires
        text_lt(a, b),
        text_lt(b, c),
    ensures
        text_lt(a, c),
    decreases a.len(),
{
    if a.len() > 0 && b.len() > 0 && c.len() > 0 && a[0] == b[0] && b[0] == c[0] {
        lemma_text_lt_transitive(a.drop_first(), b.drop_first(), c.drop_first());
    }
}

pub proof fn lemma_text_lt_total(a: Seq<char>, b: Seq<char>)
    ensures
        a == b || text_lt(a, b) || text_lt(b, a),
    decreases a.len(),
{
    if a.len() > 0 && b.len() > 0 {
        if a[0] == b[0] {
            lemma_text_lt_total(a.drop_first(), b.drop_first());
            if a.drop_first() == b.drop_first() {
                assert(a =~= seq![a[0]] + a.drop_first());
                assert(b =~= seq![b[0]] + b.drop_first());
            }
        } else {
            vstd::utf8::char_u32_cast(a[0], a[0] as u32);
            vstd::utf8::char_u32_cast(b[0], b[0] as u32);
        }
    } else if a.len() == 0 && b.len() == 0 {
        assert(a =~= b);
    }
}

/// Compares two character sequences in `text_lt` order.
fn text_less(a: &Vec<char>, b: &Vec<char>) -> (r: bool)
    ensures
        r == text_lt(a@, b@),
{
    let mut i: usize = 0;
    assert(a@.skip(0) =~= a@);
    assert(b@.skip(0) =~= b@);
    while i < a.len() && i < b.len() && a[i] == b[i]
        invariant
            i <= a@.len(),
            i <= b@.len(),
            text_lt(a@, b@) == text_lt(a@.skip(i as int), b@.skip(i as int)),
        decreases a@.len() - i,
    {
        assert(a@.skip(i as int).drop_first() =~= a@.skip(i + 1));
        assert(b@.skip(i as int).drop_first() =~= b@.skip(i + 1));
        i = i + 1;
    }
    if i == a.len() {
        i < b.len()
    } else if i == b.len() {
        false
    } else {
        assert(a@.skip(i as int)[0] == a@[i as int]);
        assert(b@.skip(i as int)[0] == b@[i as int]);
        let ca: u32 = a[i] as u32;
        let cb: u32 = b[i] as u32;
        ca < cb
    }
}

/// Member lookup on a JSON value.
pub fn get<'a>(v: &'a JsonValue, key: &str) -> (r: Option<&'a JsonValue>)
    ensures
        r matches Some(x) ==> json_get(*v, key@) == Some(*x),
        r is None ==> json_get(*v, key@) is None,
{
    match v {
        JsonValue::Object(entries) => {
            let mut i: usize = 0;
            assert(entries@.skip(0) =~= entries@);
            while i < entries.len()
                invariant
                    i <= entries@.len(),
                    json_get(*v, key@) == entries_get(entries@, key@),
                    entries_get(entries@, key@) == entries_get(entries@.skip(i as int), key@),
                decreases entries@.len() - i,
            {
                assert(entries@.skip(i as int)[0] == entries@[i as int]);
                assert(entries@.skip(i as int).drop_first() =~= entries@.skip(i + 1));
                if str_eq(entries[i].0.as_str(), key) {
                    assert(entries_get(entries@.skip(i as int), key@) == Some(entries@[i as int].1));
                    return Some(&entries[i].1);
                }
                i = i + 1;
            }
            None
        },
        _ => None,
    }
}

/// The id named by one listing item.
fn listing_item_id(item: &JsonValue) -> (r: Option<String>)
    ensures
        r matches Some(s) ==> item_id(*item) == Some(s@),
        r is None ==> item_id(*item) is None,
{
    match get(item, "id") {
        Some(JsonValue::Str(s)) => {
            return Some(s.clone());
        },
        _ => {},
    }
    match item {
        JsonValue::Str(s) => Some(s.clone()),
        _ => None,
    }
}

/// Inserts `x` into a strictly sorted list unless it is there already.
fn insert_sorted(out: &mut Vec<String>, x: String)
    requires
        strictly_sorted(views(old(out)@)),
    ensures
        strictly_sorted(views(final(out)@)),
        views(final(out)@).to_set() == views(old(out)@).to_set().insert(x@),
{
    let ghost old_v = views(out@);
    let xs = chars_of(x.as_str());
    let mut p: usize = 0;
    while p < out.len() && text_less(&chars_of(out[p].as_str()), &xs)
        invariant
            p <= out@.len(),
            views(out@) == old_v,
            xs@ == x@,
            forall|j: int| 0 <= j < p ==> text_lt(#[trigger] old_v[j], x@),
        decreases out@.len() - p,
    {
        p = p + 1;
    }
    if p < out.len() && str_eq(out[p].as_str(), x.as_str()) {
        assert(old_v.to_set() =~= old_v.to_set().insert(x@)) by {
            assert(old_v[p as int] == x@);
        }
        return;
    }
    proof {
        if p < old_v.len() {
            lemma_text_lt_total(old_v[p as int], x@);
            assert(text_lt(x@, old_v[p as int]));
        }
    }
    out.insert(p, x);
    let ghost nv = views(out@);
    assert(nv =~= old_v.subrange(0, p as int).push(x@) + old_v.subrange(p as int, old_v.len() as int));
    assert forall|i: int, j: int| 0 <= i < j < nv.len() implies text_lt(
        #[trigger] nv[i],
        #[trigger] nv[j],
    ) by {
        if j < p {
        } else if j == p {
        } else if i == p {
            assert(nv[j] == old_v[j - 1]);
            if j - 1 > p {
                lemma_text_lt_transitive(x@, old_v[p as int], old_v[j - 1]);
            }
        } else if i < p {
            assert(nv[j] == old_v[j - 1]);
            assert(nv[i] == old_v[i]);
            if j - 1 > p {
                lemma_text_lt_transitive(x@, old_v[p as int], old_v[j - 1]);
            }
            lemma_text_lt_transitive(old_v[i], x@, old_v[j - 1]);
        } else {
            assert(nv[i] == old_v[i - 1]);
            assert(nv[j] == old_v[j - 1]);
        }
    }
    assert(nv.to_set() =~= old_v.to_set().insert(x@)) by {
        assert forall|s: Seq<char>| nv.to_set().contains(s) implies old_v.to_set().insert(
            x@,
        ).contains(s) by {
            let k = choose|k: int| 0 <= k < nv.len() && nv[k] == s;
            if k < p {
                assert(old_v[k] == s);
            } else if k > p {
                assert(old_v[k - 1] == s);
            }
        }
        assert forall|s: Seq<char>| old_v.to_set().insert(x@).contains(s) implies nv.to_set().contains(
            s,
        ) by {
            if s == x@ {
                assert(nv[p as int] == s);
            } else {
                let k = choose|k: int| 0 <= k < old_v.len() && old_v[k] == s;
                if k < p {
                    assert(nv[k] == s);
                } else {
                    assert(nv[k + 1] == s);
                }
            }
        }
    }
}

/// The model ids that a model listing names, sorted, each once.
pub fn extract_model_ids(value: &JsonValue) -> (r: Vec<String>)
    ensures
        strictly_sorted(views(r@)),
        views(r@).to_set() == ids_named(listing_items(*value), listing_items(*value).len() as int),
{
    let empty: Vec<JsonValue> = Vec::new();
    let items: &Vec<JsonValue> = match get(value, "data") {
        Some(JsonValue::Array(items)) => items,
        _ => match value {
            JsonValue::Array(items) => items,
            _ => &empty,
        },
    };
    assert(items@ == listing_items(*value));
    let mut out: Vec<String> = Vec::new();
    let mut k: usize = 0;
    assert(views(out@).to_set() =~= ids_named(items@, 0));
    while k < items.len()
        invariant
            k <= items@.len(),
            strictly_sorted(views(out@)),
            views(out@).to_set() == ids_named(items@, k as int),
        decreases items@.len() - k,
    {
        let id = listing_item_id(&items[k]);
        match id {
            Some(s) => {
                insert_sorted(&mut out, s);
            },
            None => {},
        }
        assert(views(out@).to_set() =~= ids_named(items@, k + 1)) by {
            assert forall|s: Seq<char>| ids_named(items@, k + 1).contains(s) implies views(
                out@,
            ).to_set().contains(s) by {
                let i = choose|i: int| 0 <= i < k + 1 && #[trigger] item_id(items@[i]) == Some(s);
                if i < k {
                    assert(ids_named(items@, k as int).contains(s));
                }
            }
            assert forall|s: Seq<char>| views(out@).to_set().contains(s) implies ids_named(
                items@,
                k + 1,
            ).contains(s) by {
                if item_id(items@[k as int]) == Some(s) {
                } else {
                    assert(ids_named(items@, k as int).contains(s));
                    let i = choose|i: int| 0 <= i < k && #[trigger] item_id(items@[i]) == Some(s);
                    assert(item_id(items@[i]) == Some(s));
                }
            }
        }
        k = k + 1;
    }
    out
}

} // verus!
