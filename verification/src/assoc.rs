//! String-keyed association lists.  The stores of this crate (health entries,
//! rate buckets, overlays, metrics) are small maps; they are held as vectors
//! of pairs and specified through `assoc_find`, first match from the front.

use vstd::prelude::*;

verus! {

use vstd::string::StringExecFns;
use crate::text::str_eq;

/// The value under key `k`: the first pair whose key matches, if any.
pub open spec fn assoc_find<V>(s: Seq<(String, V)>, k: Seq<char>) -> Option<V>
    decreases s.len(),
{
    if s.len() == 0 {
        None
    } else if s.first().0@ == k {
        Some(s.first().1)
    } else {
        assoc_find(s.drop_first(), k)
    }
}

proof fn lemma_assoc_find_prefix_miss<V>(s: Seq<(String, V)>, k: Seq<char>, i: int)
    requires
        0 <= i <= s.len(),
        forall|j: int| 0 <= j < i ==> s[j].0@ != k,
    ensures
        assoc_find(s, k) == assoc_find(s.subrange(i, s.len() as int), k),
    decreases i,
{
    if i > 0 {
        assert(s.len() > 0);
        assert(s.first().0@ != k);
        lemma_assoc_find_prefix_miss(s.drop_first(), k, i - 1);
        assert(s.drop_first().subrange(i - 1, s.drop_first().len() as int) =~= s.subrange(
            i,
            s.len() as int,
        ));
    } else {
        assert(s.subrange(0, s.len() as int) =~= s);
    }
}

/// With no match in the whole list, `assoc_find` is `None`.
proof fn lemma_assoc_find_none<V>(s: Seq<(String, V)>, k: Seq<char>)
    requires
        forall|j: int| 0 <= j < s.len() ==> s[j].0@ != k,
    ensures
        assoc_find(s, k) is None,
{
    lemma_assoc_find_prefix_miss(s, k, s.len() as int);
}

/// With the first match at `i`, `assoc_find` yields that pair's value.
proof fn lemma_assoc_find_at<V>(s: Seq<(String, V)>, k: Seq<char>, i: int)
    requires
        0 <= i < s.len(),
        s[i].0@ == k,
        forall|j: int| 0 <= j < i ==> s[j].0@ != k,
    ensures
        assoc_find(s, k) == Some(s[i].1),
{
    lemma_assoc_find_prefix_miss(s, k, i);
    assert(s.subrange(i, s.len() as int).first() == s[i]);
}

proof fn lemma_assoc_find_update<V>(s: Seq<(String, V)>, i: int, p: (String, V), k2: Seq<char>)
    requires
        0 <= i < s.len(),
        forall|j: int| 0 <= j < i ==> s[j].0@ != p.0@,
        s[i].0@ == p.0@,
        k2 != p.0@,
    ensures
        assoc_find(s.update(i, p), k2) == assoc_find(s, k2),
    decreases i,
{
    let s2 = s.update(i, p);
    if i == 0 {
        assert(s2.first() == p);
        assert(s2.drop_first() =~= s.drop_first());
    } else {
        assert(s2.first() == s.first());
        assert(s2.drop_first() =~= s.drop_first().update(i - 1, p));
        lemma_assoc_find_update(s.drop_first(), i - 1, p, k2);
    }
}

proof fn lemma_assoc_find_push<V>(s: Seq<(String, V)>, p: (String, V), k2: Seq<char>)
    requires
        k2 != p.0@,
    ensures
        assoc_find(s.push(p), k2) == assoc_find(s, k2),
    decreases s.len(),
{
    if s.len() == 0 {
        assert(s.push(p).first() == p);
        assert(s.push(p).drop_first() =~= s);
    } else {
        assert(s.push(p).first() == s.first());
        assert(s.push(p).drop_first() =~= s.drop_first().push(p));
        lemma_assoc_find_push(s.drop_first(), p, k2);
    }
}

/// Look a key up, borrowing the stored value.
pub fn assoc_get<'a, V>(v: &'a Vec<(String, V)>, k: &str) -> (r: Option<&'a V>)
    ensures
        match r {
            Some(value) => assoc_find(v@, k@) == Some(*value),
            None => assoc_find(v@, k@) is None,
        },
{
    let mut i: usize = 0;
    while i < v.len()
        invariant
            i <= v@.len(),
            forall|j: int| 0 <= j < i ==> v@[j].0@ != k@,
        decreases v@.len() - i,
    {
        if str_eq(v[i].0.as_str(), k) {
            proof {
                lemma_assoc_find_at(v@, k@, i as int);
            }
            return Some(&v[i].1);
        }
        i = i + 1;
    }
    proof {
        lemma_assoc_find_none(v@, k@);
    }
    None
}

/// Bind a key to a value, replacing its first binding or appending a new one.
pub fn assoc_set<V>(v: &mut Vec<(String, V)>, k: &str, value: V)
    ensures
        assoc_find(final (v)@, k@) == Some(value),
        forall|k2: Seq<char>| k2 != k@ ==> assoc_find(final (v)@, k2) == assoc_find(old(v)@, k2),
        final (v)@.len() <= old(v)@.len() + 1,
        forall|j: int|
            0 <= j < final (v)@.len() ==> (final (v)@[j].1 == value && final (v)@[j].0@ == k@) || (
            j < old(v)@.len() && final (v)@[j] == old(v)@[j]),
{
    let ghost gv = value;
    let mut i: usize = 0;
    while i < v.len()
        invariant
            i <= v@.len(),
            forall|j: int| 0 <= j < i ==> v@[j].0@ != k@,
            v == old(v),
        decreases v@.len() - i,
    {
        if str_eq(v[i].0.as_str(), k) {
            let key = String::from_str(k);
            let pair = (key, value);
            let ghost gpair = pair;
            let ghost sold = v@;
            v.set(i, pair);
            proof {
                assert(v@ == sold.update(i as int, gpair));
                assert(gpair.0@ == k@);
                lemma_assoc_find_at(v@, k@, i as int);
                assert forall|k2: Seq<char>| k2 != k@ implies assoc_find(v@, k2) == assoc_find(
                    sold,
                    k2,
                ) by {
                    lemma_assoc_find_update(sold, i as int, gpair, k2);
                }
            }
            return ;
        }
        i = i + 1;
    }
    let key = String::from_str(k);
    let ghost gkey: String = key;
    let ghost sold = v@;
    v.push((key, value));
    proof {
        assert(v@ == sold.push((gkey, gv)));
        lemma_assoc_find_at(v@, k@, sold.len() as int);
        assert forall|k2: Seq<char>| k2 != k@ implies assoc_find(v@, k2) == assoc_find(sold, k2) by {
            lemma_assoc_find_push(sold, (gkey, gv), k2);
        }
    }
}


/// A found value is stored at some index under its key.
pub proof fn lemma_assoc_find_member<V>(s: Seq<(String, V)>, k: Seq<char>)
    ensures
        assoc_find(s, k) matches Some(v) ==> exists|i: int|
            0 <= i < s.len() && (#[trigger] s[i]).1 == v && s[i].0@ == k,
    decreases s.len(),
{
    if s.len() > 0 {
        if s.first().0@ == k {
            assert(s[0].1 == s.first().1 && s[0].0@ == k);
        } else {
            lemma_assoc_find_member(s.drop_first(), k);
            match assoc_find(s, k) {
                Some(v) => {
                    let i = choose|i: int|
                        0 <= i < s.drop_first().len() && (#[trigger] s.drop_first()[i]).1 == v
                            && s.drop_first()[i].0@ == k;
                    assert(s[i + 1].1 == v && s[i + 1].0@ == k);
                },
                None => {},
            }
        }
    }
}

} // verus!
