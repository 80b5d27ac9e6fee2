//! Counter maps backed by vectors of key/count pairs with unique keys.
//!
//! Usage statistics count interactions per day, per method and per contract.
//! The maps are association lists; `count_of` is the mathematical reading:
//! the count stored under a key, or zero when the key is absent.

use vstd::prelude::*;

use crate::errors::TrialError;

verus! {

/// The count recorded under key `k`: the value of the first pair whose key
/// views as `k`, or zero when no pair does.
pub open spec fn count_of<K: View>(s: Seq<(K, u64)>, k: <K as View>::V) -> u64
    decreases s.len(),
{
    if s.len() == 0 {
        0u64
    } else if s[0].0@ == k {
        s[0].1
    } else {
        count_of(s.drop_first(), k)
    }
}

/// No two pairs share a key.
pub open spec fn unique_keys<K: View>(s: Seq<(K, u64)>) -> bool {
    forall|i: int, j: int| 0 <= i < j < s.len() ==> s[i].0@ != s[j].0@
}

/// When no pair's key views as `k`, the count under `k` is zero.
pub proof fn lemma_count_of_absent<K: View>(s: Seq<(K, u64)>, k: <K as View>::V)
    requires
        forall|j: int| 0 <= j < s.len() ==> s[j].0@ != k,
    ensures
        count_of(s, k) == 0,
    decreases s.len(),
{
    if s.len() > 0 {
        lemma_count_of_absent(s.drop_first(), k);
    }
}

/// When `i` is the first pair whose key views as `k`, the count under `k`
/// is that pair's value.
pub proof fn lemma_count_of_found<K: View>(s: Seq<(K, u64)>, i: int, k: <K as View>::V)
    requires
        0 <= i < s.len(),
        s[i].0@ == k,
        forall|j: int| 0 <= j < i ==> s[j].0@ != k,
    ensures
        count_of(s, k) == s[i].1,
    decreases i,
{
    if i > 0 {
        lemma_count_of_found(s.drop_first(), i - 1, k);
    }
}

/// Replacing the first pair matching a key by another pair with the same key
/// changes only that key's count.
pub proof fn lemma_count_of_update<K: View>(
    s: Seq<(K, u64)>,
    i: int,
    x: (K, u64),
    k2: <K as View>::V,
)
    requires
        0 <= i < s.len(),
        x.0@ == s[i].0@,
        forall|j: int| 0 <= j < i ==> s[j].0@ != s[i].0@,
    ensures
        count_of(s.update(i, x), k2) == if k2 == s[i].0@ {
            x.1
        } else {
            count_of(s, k2)
        },
    decreases i,
{
    if i == 0 {
        assert(s.update(i, x).drop_first() =~= s.drop_first());
    } else {
        assert(s.update(i, x).drop_first() =~= s.drop_first().update(i - 1, x));
        lemma_count_of_update(s.drop_first(), i - 1, x, k2);
    }
}

/// Appending a pair under a fresh key changes only that key's count.
pub proof fn lemma_count_of_push<K: View>(s: Seq<(K, u64)>, x: (K, u64), k2: <K as View>::V)
    requires
        forall|j: int| 0 <= j < s.len() ==> s[j].0@ != x.0@,
    ensures
        count_of(s.push(x), k2) == if k2 == x.0@ {
            x.1
        } else {
            count_of(s, k2)
        },
    decreases s.len(),
{
    if s.len() == 0 {
        assert(s.push(x)[0] == x);
        assert(s.push(x).drop_first() =~= Seq::<(K, u64)>::empty());
        if k2 == x.0@ {
            assert(count_of(s.push(x), k2) == x.1);
        } else {
            assert(count_of(s.push(x), k2) == count_of(s.push(x).drop_first(), k2));
            assert(count_of(s.push(x).drop_first(), k2) == 0);
            assert(count_of(s, k2) == 0);
        }
    } else {
        assert(s.push(x)[0] == s[0]);
        assert(s[0].0@ != x.0@);
        assert(s.push(x).drop_first() =~= s.drop_first().push(x));
        assert forall|j: int| 0 <= j < s.drop_first().len() implies s.drop_first()[j].0@
            != x.0@ by {
            assert(s.drop_first()[j] == s[j + 1]);
        }
        lemma_count_of_push(s.drop_first(), x, k2);
        if s[0].0@ == k2 {
            assert(count_of(s.push(x), k2) == s[0].1);
            assert(count_of(s, k2) == s[0].1);
            assert(k2 != x.0@);
        } else {
            assert(count_of(s.push(x), k2) == count_of(s.drop_first().push(x), k2));
            assert(count_of(s, k2) == count_of(s.drop_first(), k2));
        }
    }
}

/// The count stored under `key` in an integer-keyed counter map.
pub fn get_u64_count(v: &Vec<(u64, u64)>, key: u64) -> (r: u64)
    ensures
        r == count_of(v@, key),
{
    proof {
        assert(v@.skip(0) =~= v@);
    }
    let mut i: usize = 0;
    while i < v.len()
        invariant
            i <= v.len(),
            count_of(v@, key@) == count_of(v@.skip(i as int), key@),
        decreases v.len() - i,
    {
        if v[i].0 == key {
            proof {
                assert(v@.skip(i as int)[0] == v@[i as int]);
            }
            return v[i].1;
        }
        proof {
            assert(v@.skip(i as int)[0] == v@[i as int]);
            assert(v@.skip(i as int).drop_first() =~= v@.skip(i as int + 1));
        }
        i += 1;
    }
    proof {
        assert(v@.skip(v@.len() as int) =~= Seq::<(u64, u64)>::empty());
    }
    0
}

/// The count stored under `key` in a string-keyed counter map.
pub fn get_string_count(v: &Vec<(String, u64)>, key: &String) -> (r: u64)
    ensures
        r == count_of(v@, key@),
{
    proof {
        assert(v@.skip(0) =~= v@);
    }
    let mut i: usize = 0;
    while i < v.len()
        invariant
            i <= v.len(),
            count_of(v@, key@) == count_of(v@.skip(i as int), key@),
        decreases v.len() - i,
    {
        if v[i].0 == *key {
            proof {
                assert(v@.skip(i as int)[0] == v@[i as int]);
            }
            return v[i].1;
        }
        proof {
            assert(v@.skip(i as int)[0] == v@[i as int]);
            assert(v@.skip(i as int).drop_first() =~= v@.skip(i as int + 1));
        }
        i += 1;
    }
    proof {
        assert(v@.skip(v@.len() as int) =~= Seq::<(String, u64)>::empty());
    }
    0
}

/// Adds one to the count under `key` in a string-keyed counter map,
/// inserting the key at count one when absent. Fails with `Overflow`
/// exactly when the present count is already at the maximum.
pub fn bump_string_counter(v: &mut Vec<(String, u64)>, key: &String) -> (r: Result<
    (),
    TrialError,
>)
    requires
        unique_keys(old(v)@),
    ensures
        unique_keys(final(v)@),
        match r {
            Ok(()) => {
                &&& count_of(old(v)@, key@) < u64::MAX
                &&& forall|k2: Seq<char>|
                    count_of(final(v)@, k2) == if k2 == key@ {
                        (count_of(old(v)@, key@) + 1) as u64
                    } else {
                        count_of(old(v)@, k2)
                    }
            },
            Err(e) => {
                &&& e == TrialError::Overflow
                &&& count_of(old(v)@, key@) == u64::MAX
                &&& final(v)@ == old(v)@
            },
        },
{
    let ghost s0 = v@;
    let mut i: usize = 0;
    while i < v.len()
        invariant
            i <= v.len(),
            v@ == s0,
            old(v)@ == s0,
            unique_keys(s0),
            forall|j: int| 0 <= j < i ==> s0[j].0@ != key@,
        decreases v.len() - i,
    {
        if v[i].0 == *key {
            let c = v[i].1;
            proof {
                lemma_count_of_found(s0, i as int, key@);
            }
            if c == u64::MAX {
                return Err(TrialError::Overflow);
            }
            let fresh_key = v[i].0.clone();
            v[i] = (fresh_key, c + 1);
            proof {
                assert forall|k2: Seq<char>|
                    count_of(v@, k2) == if k2 == key@ {
                        (count_of(s0, key@) + 1) as u64
                    } else {
                        count_of(s0, k2)
                    } by {
                    lemma_count_of_update(s0, i as int, v@[i as int], k2);
                }
                assert forall|a: int, b: int| 0 <= a < b < v@.len() implies v@[a].0@
                    != v@[b].0@ by {
                    assert(v@[a].0@ == s0[a].0@ && v@[b].0@ == s0[b].0@);
                }
            }
            return Ok(());
        }
        i += 1;
    }
    let fresh_key = key.clone();
    v.push((fresh_key, 1));
    proof {
        assert(v@ == s0.push(v@[s0.len() as int]));
        assert(v@[s0.len() as int].0@ == key@);
        lemma_count_of_absent(s0, key@);
        assert forall|k2: Seq<char>|
            count_of(v@, k2) == if k2 == key@ {
                (count_of(s0, key@) + 1) as u64
            } else {
                count_of(s0, k2)
            } by {
            lemma_count_of_push(s0, v@[s0.len() as int], k2);
        }
        assert forall|a: int, b: int| 0 <= a < b < v@.len() implies v@[a].0@ != v@[b].0@ by {
            if b < s0.len() {
                assert(v@[a].0@ == s0[a].0@ && v@[b].0@ == s0[b].0@);
            } else {
                assert(v@[a].0@ == s0[a].0@ && v@[b].0@ == key@);
            }
        }
    }
    Ok(())
}

/// Adds one to the count under `key` in an integer-keyed counter map,
/// inserting the key at count one when absent. Fails with `Overflow`
/// exactly when the present count is already at the maximum.
pub fn bump_u64_counter(v: &mut Vec<(u64, u64)>, key: u64) -> (r: Result<(), TrialError>)
    requires
        unique_keys(old(v)@),
    ensures
        unique_keys(final(v)@),
        match r {
            Ok(()) => {
                &&& count_of(old(v)@, key) < u64::MAX
                &&& forall|k2: u64|
                    count_of(final(v)@, k2) == if k2 == key {
                        (count_of(old(v)@, key) + 1) as u64
                    } else {
                        count_of(old(v)@, k2)
                    }
            },
            Err(e) => {
                &&& e == TrialError::Overflow
                &&& count_of(old(v)@, key) == u64::MAX
                &&& final(v)@ == old(v)@
            },
        },
{
    let ghost s0 = v@;
    let mut i: usize = 0;
    while i < v.len()
        invariant
            i <= v.len(),
            v@ == s0,
            old(v)@ == s0,
            unique_keys(s0),
            forall|j: int| 0 <= j < i ==> s0[j].0@ != key@,
        decreases v.len() - i,
    {
        if v[i].0 == key {
            let c = v[i].1;
            proof {
                lemma_count_of_found(s0, i as int, key@);
            }
            if c == u64::MAX {
                return Err(TrialError::Overflow);
            }
            v[i] = (key, c + 1);
            proof {
                assert forall|k2: u64|
                    count_of(v@, k2) == if k2 == key {
                        (count_of(s0, key) + 1) as u64
                    } else {
                        count_of(s0, k2)
                    } by {
                    lemma_count_of_update(s0, i as int, v@[i as int], k2);
                }
                assert forall|a: int, b: int| 0 <= a < b < v@.len() implies v@[a].0@
                    != v@[b].0@ by {
                    assert(v@[a].0@ == s0[a].0@ && v@[b].0@ == s0[b].0@);
                }
            }
            return Ok(());
        }
        i += 1;
    }
    v.push((key, 1));
    proof {
        lemma_count_of_absent(s0, key@);
        assert forall|k2: u64|
            count_of(v@, k2) == if k2 == key {
                (count_of(s0, key) + 1) as u64
            } else {
                count_of(s0, k2)
            } by {
            lemma_count_of_push(s0, v@[s0.len() as int], k2);
        }
        assert forall|a: int, b: int| 0 <= a < b < v@.len() implies v@[a].0@ != v@[b].0@ by {
            if b < s0.len() {
                assert(v@[a].0@ == s0[a].0@ && v@[b].0@ == s0[b].0@);
            } else {
                assert(v@[a].0@ == s0[a].0@ && v@[b].0@ == key@);
            }
        }
    }
    Ok(())
}

} // verus!
