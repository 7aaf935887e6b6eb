use vstd::prelude::*;

verus! {

use crate::text::str_eq;

/// The finite map described by an association list of string keys; a later
/// pair with the same key shadows an earlier one.
pub open spec fn kv_map<V: DeepView>(pairs: Seq<(String, V)>) -> Map<Seq<char>, V::V>
    decreases pairs.len(),
{
    if pairs.len() == 0 {
        Map::empty()
    } else {
        kv_map(pairs.drop_last()).insert(pairs.last().0@, pairs.last().1.deep_view())
    }
}

/// No two pairs of the list share a key.
pub open spec fn kv_distinct<V: DeepView>(pairs: Seq<(String, V)>) -> bool {
    forall|i: int, j: int| 0 <= i < j < pairs.len() ==> pairs[i].0@ != pairs[j].0@
}

pub proof fn lemma_kv_map_domain<V: DeepView>(pairs: Seq<(String, V)>, key: Seq<char>)
    ensures
        kv_map(pairs).contains_key(key) <==> exists|i: int|
            0 <= i < pairs.len() && pairs[i].0@ == key,
    decreases pairs.len(),
{
    if pairs.len() > 0 {
        lemma_kv_map_domain(pairs.drop_last(), key);
        if pairs.last().0@ == key {
            assert(pairs[pairs.len() - 1].0@ == key);
        } else {
            if exists|i: int| 0 <= i < pairs.len() && pairs[i].0@ == key {
                let i = choose|i: int| 0 <= i < pairs.len() && pairs[i].0@ == key;
                assert(pairs.drop_last()[i] == pairs[i]);
            }
            if kv_map(pairs.drop_last()).contains_key(key) {
                let i = choose|i: int|
                    0 <= i < pairs.drop_last().len() && pairs.drop_last()[i].0@ == key;
                assert(pairs[i] == pairs.drop_last()[i]);
            }
        }
    }
}

/// The pair whose key has no later occurrence gives the map's value at that key.
pub proof fn lemma_kv_map_value<V: DeepView>(pairs: Seq<(String, V)>, i: int)
    requires
        0 <= i < pairs.len(),
        forall|j: int| i < j < pairs.len() ==> pairs[j].0@ != pairs[i].0@,
    ensures
        kv_map(pairs).contains_key(pairs[i].0@),
        kv_map(pairs)[pairs[i].0@] == pairs[i].1.deep_view(),
    decreases pairs.len(),
{
    if i == pairs.len() - 1 {
    } else {
        assert(pairs.drop_last()[i] == pairs[i]);
        lemma_kv_map_value(pairs.drop_last(), i);
        assert(pairs.last().0@ != pairs[i].0@);
    }
}

pub fn kv_contains_key<V: DeepView>(pairs: &Vec<(String, V)>, key: &str) -> (r: bool)
    ensures
        r == kv_map(pairs@).contains_key(key@),
{
    let mut i: usize = 0;
    while i < pairs.len()
        invariant
            i <= pairs@.len(),
            forall|j: int| 0 <= j < i ==> pairs@[j].0@ != key@,
        decreases pairs@.len() - i,
    {
        if str_eq(pairs[i].0.as_str(), key) {
            proof {
                lemma_kv_map_domain(pairs@, key@);
            }
            return true;
        }
        i += 1;
    }
    proof {
        lemma_kv_map_domain(pairs@, key@);
    }
    false
}

pub fn kv_get<'a, V: DeepView>(pairs: &'a Vec<(String, V)>, key: &str) -> (r: Option<&'a V>)
    requires
        kv_distinct(pairs@),
    ensures
        match r {
            Some(v) => kv_map(pairs@).contains_key(key@) && v.deep_view() == kv_map(pairs@)[key@],
            None => !kv_map(pairs@).contains_key(key@),
        },
{
    let mut i: usize = 0;
    while i < pairs.len()
        invariant
            kv_distinct(pairs@),
            i <= pairs@.len(),
            forall|j: int| 0 <= j < i ==> pairs@[j].0@ != key@,
        decreases pairs@.len() - i,
    {
        if str_eq(pairs[i].0.as_str(), key) {
            proof {
                lemma_kv_map_value(pairs@, i as int);
            }
            return Some(&pairs[i].1);
        }
        i += 1;
    }
    proof {
        lemma_kv_map_domain(pairs@, key@);
    }
    None
}

/// Appending a pair makes its key's entry the map's value at that key.
pub proof fn lemma_kv_map_push<V: DeepView>(pairs: Seq<(String, V)>, p: (String, V))
    ensures
        kv_map(pairs.push(p)) == kv_map(pairs).insert(p.0@, p.1.deep_view()),
{
    assert(pairs.push(p).drop_last() =~= pairs);
    assert(pairs.push(p).last() == p);
}

/// Adds the pair only where its key is not yet bound, the step of a
/// first-writer-wins fold.
pub fn kv_insert_if_absent<V: DeepView>(pairs: &mut Vec<(String, V)>, key: String, value: V)
    requires
        kv_distinct(old(pairs)@),
    ensures
        kv_distinct(final(pairs)@),
        kv_map(final(pairs)@) == if kv_map(old(pairs)@).contains_key(key@) {
            kv_map(old(pairs)@)
        } else {
            kv_map(old(pairs)@).insert(key@, value.deep_view())
        },
{
    if !kv_contains_key(pairs, key.as_str()) {
        proof {
            lemma_kv_map_domain(pairs@, key@);
            lemma_kv_map_push(pairs@, (key, value));
        }
        let ghost prior = pairs@;
        pairs.push((key, value));
        proof {
            assert forall|i: int, j: int|
                0 <= i < j < pairs@.len() implies pairs@[i].0@ != pairs@[j].0@ by {
                if j == pairs@.len() - 1 {
                    assert(prior[i].0@ != key@);
                }
            }
        }
    }
}

} // verus!
