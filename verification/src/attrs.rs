//! Telemetry attributes: the key-value pairs attached to every signal.
//!
//! Every log record, span, span event, and metric observation carries a list
//! of attributes. Metric aggregation groups observations by *attribute set*,
//! not by list order, so the model of an attribute list is the map from key
//! contents to value contents; `attrs_match` decides equality of that model
//! and is the grouping test the aggregators use.

use vstd::map::*;
use vstd::prelude::*;

verus! {

/// An attribute value: string contents or a 64-bit integer.
#[derive(Debug, PartialEq)]
pub enum AttrValue {
    Text(String),
    Int(i64),
}

/// The mathematical value an `AttrValue` denotes.
#[verifier::ext_equal]
pub enum ValueModel {
    Text(Seq<char>),
    Int(int),
}

/// What an attribute value denotes: its contents, not its allocation.
pub open spec fn value_model(v: AttrValue) -> ValueModel {
    match v {
        AttrValue::Text(s) => ValueModel::Text(s@),
        AttrValue::Int(i) => ValueModel::Int(i as int),
    }
}

/// One attribute: a key and its value.
#[derive(Debug, PartialEq)]
pub struct Attr {
    pub key: String,
    pub value: AttrValue,
}

/// No key occurs twice in the list.
pub open spec fn keys_unique(s: Seq<Attr>) -> bool {
    forall|i: int, j: int| 0 <= i < j < s.len() ==> (#[trigger] s[i].key)@ != (#[trigger] s[j].key)@
}

/// The attribute-set model of a list: key contents mapped to value contents.
/// A later entry would win over an earlier one with the same key, which is
/// irrelevant under `keys_unique`.
pub open spec fn attrs_map(s: Seq<Attr>) -> Map<Seq<char>, ValueModel>
    decreases s.len(),
{
    if s.len() == 0 {
        Map::<Seq<char>, ValueModel>::empty()
    } else {
        attrs_map(s.drop_last()).insert(s.last().key@, value_model(s.last().value))
    }
}

/// A key is in the model exactly when some entry of the list carries it.
pub proof fn lemma_attrs_map_dom(s: Seq<Attr>, k: Seq<char>)
    ensures
        attrs_map(s).dom().contains(k) <==> (exists|i: int|
            0 <= i < s.len() && (#[trigger] s[i].key)@ == k),
    decreases s.len(),
{
    if s.len() == 0 {
    } else {
        lemma_attrs_map_dom(s.drop_last(), k);
        if attrs_map(s).dom().contains(k) {
            if s.last().key@ == k {
                assert(s[s.len() - 1].key@ == k);
            } else {
                let i = choose|i: int|
                    0 <= i < s.drop_last().len() && (#[trigger] s.drop_last()[i].key)@ == k;
                assert(s[i].key@ == k);
            }
        }
        if exists|i: int| 0 <= i < s.len() && (#[trigger] s[i].key)@ == k {
            let i = choose|i: int| 0 <= i < s.len() && (#[trigger] s[i].key)@ == k;
            if i < s.len() - 1 {
                assert(s.drop_last()[i].key@ == k);
            }
        }
    }
}

/// Under unique keys, each entry of the list stands in the model unchanged.
pub proof fn lemma_attrs_map_pair(s: Seq<Attr>, i: int)
    requires
        keys_unique(s),
        0 <= i < s.len(),
    ensures
        attrs_map(s).contains_pair(s[i].key@, value_model(s[i].value)),
    decreases s.len(),
{
    if i == s.len() - 1 {
    } else {
        assert(keys_unique(s.drop_last())) by {
            assert forall|p: int, q: int|
                0 <= p < q < s.drop_last().len() implies (#[trigger] s.drop_last()[p].key)@
                != (#[trigger] s.drop_last()[q].key)@ by {
                assert(s[p].key@ != s[q].key@);
            }
        }
        lemma_attrs_map_pair(s.drop_last(), i);
        assert(s[i].key@ != s[s.len() - 1].key@);
    }
}

/// Exec equality of attribute values, decided by contents.
pub fn attr_value_eq(a: &AttrValue, b: &AttrValue) -> (r: bool)
    ensures
        r == (value_model(*a) == value_model(*b)),
{
    match (a, b) {
        (AttrValue::Text(x), AttrValue::Text(y)) => *x == *y,
        (AttrValue::Int(x), AttrValue::Int(y)) => *x == *y,
        (AttrValue::Text(_), AttrValue::Int(_)) => false,
        (AttrValue::Int(_), AttrValue::Text(_)) => false,
    }
}

/// Looks a key up in an attribute list by contents.
pub fn find_key(attrs: &Vec<Attr>, key: &String) -> (r: Option<usize>)
    ensures
        match r {
            Some(j) => j < attrs@.len() && attrs@[j as int].key@ == key@,
            None => forall|j: int| 0 <= j < attrs@.len() ==> (#[trigger] attrs@[j].key)@ != key@,
        },
{
    let mut j: usize = 0;
    while j < attrs.len()
        invariant
            j <= attrs@.len(),
            forall|t: int| 0 <= t < j ==> (#[trigger] attrs@[t].key)@ != key@,
        decreases attrs@.len() - j,
    {
        if attrs[j].key == *key {
            return Some(j);
        }
        j += 1;
    }
    None
}

/// Copies an attribute list, entry by entry.
pub fn copy_attrs(v: &Vec<Attr>) -> (r: Vec<Attr>)
    ensures
        r@ == v@,
{
    let mut r: Vec<Attr> = Vec::new();
    let mut i: usize = 0;
    while i < v.len()
        invariant
            i <= v@.len(),
            r@ == v@.take(i as int),
        decreases v@.len() - i,
    {
        let val = match &v[i].value {
            AttrValue::Text(s) => AttrValue::Text(s.clone()),
            AttrValue::Int(x) => AttrValue::Int(*x),
        };
        r.push(Attr { key: v[i].key.clone(), value: val });
        proof {
            assert(r@ =~= v@.take(i as int + 1));
        }
        i += 1;
    }
    proof {
        assert(v@.take(v@.len() as int) =~= v@);
    }
    r
}

/// Decides whether two attribute lists denote the same attribute set.
pub fn attrs_match(a: &Vec<Attr>, b: &Vec<Attr>) -> (r: bool)
    requires
        keys_unique(a@),
        keys_unique(b@),
    ensures
        r == (attrs_map(a@) == attrs_map(b@)),
{
    let mut i: usize = 0;
    while i < a.len()
        invariant
            keys_unique(a@),
            keys_unique(b@),
            i <= a@.len(),
            forall|t: int| 0 <= t < i ==> attrs_map(b@).contains_pair(
                (#[trigger] a@[t].key)@,
                value_model(a@[t].value),
            ),
        decreases a@.len() - i,
    {
        match find_key(b, &a[i].key) {
            None => {
                proof {
                    lemma_attrs_map_pair(a@, i as int);
                    lemma_attrs_map_dom(b@, a@[i as int].key@);
                }
                return false;
            },
            Some(j) => {
                if !attr_value_eq(&a[i].value, &b[j].value) {
                    proof {
                        lemma_attrs_map_pair(a@, i as int);
                        lemma_attrs_map_pair(b@, j as int);
                    }
                    return false;
                }
                proof {
                    lemma_attrs_map_pair(b@, j as int);
                }
            },
        }
        i += 1;
    }
    let mut j: usize = 0;
    while j < b.len()
        invariant
            keys_unique(a@),
            keys_unique(b@),
            j <= b@.len(),
            forall|t: int| 0 <= t < a@.len() ==> attrs_map(b@).contains_pair(
                (#[trigger] a@[t].key)@,
                value_model(a@[t].value),
            ),
            forall|t: int| 0 <= t < j ==> attrs_map(a@).dom().contains((#[trigger] b@[t].key)@),
        decreases b@.len() - j,
    {
        match find_key(a, &b[j].key) {
            None => {
                proof {
                    lemma_attrs_map_pair(b@, j as int);
                    lemma_attrs_map_dom(a@, b@[j as int].key@);
                }
                return false;
            },
            Some(t) => {
                proof {
                    lemma_attrs_map_dom(a@, b@[j as int].key@);
                    assert(a@[t as int].key@ == b@[j as int].key@);
                }
            },
        }
        j += 1;
    }
    proof {
        assert_maps_equal!(attrs_map(a@), attrs_map(b@), k => {
            if attrs_map(a@).dom().contains(k) {
                lemma_attrs_map_dom(a@, k);
                let t = choose|t: int| 0 <= t < a@.len() && (#[trigger] a@[t].key)@ == k;
                lemma_attrs_map_pair(a@, t);
                assert(attrs_map(b@).contains_pair(k, value_model(a@[t].value)));
            }
            if attrs_map(b@).dom().contains(k) {
                lemma_attrs_map_dom(b@, k);
                let t = choose|t: int| 0 <= t < b@.len() && (#[trigger] b@[t].key)@ == k;
                assert(attrs_map(a@).dom().contains(b@[t].key@));
            }
        });
    }
    true
}

} // verus!
