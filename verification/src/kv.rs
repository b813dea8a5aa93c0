//! Association lists keyed by strings: lookup by first match, insertion
//! in key order, replace-or-insert, and an insertion sort, together with
//! the sequence-level specifications they are proved against.

use vstd::prelude::*;

use crate::text::{char_seq_lt, str_eq, str_lt};
#[allow(unused_imports)]
use crate::text::{lemma_char_seq_lt_trans, lemma_char_seq_lt_trichotomy};

verus! {

broadcast use vstd::group_vstd_default;

/// Whether some entry carries the key `k`.
pub open spec fn kv_has<T>(s: Seq<(Seq<char>, T)>, k: Seq<char>) -> bool {
    exists|i: int| 0 <= i < s.len() && s[i].0 == k
}

/// The value of the first entry carrying `k`, if any.
pub open spec fn kv_get<T>(s: Seq<(Seq<char>, T)>, k: Seq<char>) -> Option<T>
    decreases s.len(),
{
    if s.len() == 0 {
        None
    } else if s[0].0 == k {
        Some(s[0].1)
    } else {
        kv_get(s.drop_first(), k)
    }
}

/// Index before which a new entry with key `k` is placed: the first
/// position whose key is strictly greater than `k`.
pub open spec fn kv_insert_pos<T>(s: Seq<(Seq<char>, T)>, k: Seq<char>) -> int
    decreases s.len(),
{
    if s.len() == 0 {
        0
    } else if char_seq_lt(k, s[0].0) {
        0
    } else {
        1 + kv_insert_pos(s.drop_first(), k)
    }
}

/// Inserts an entry at its key-ordered position, after any equal keys.
pub open spec fn kv_insert<T>(s: Seq<(Seq<char>, T)>, kv: (Seq<char>, T)) -> Seq<(Seq<char>, T)> {
    let p = kv_insert_pos(s, kv.0);
    s.take(p) + seq![kv] + s.skip(p)
}

/// Index of the first entry carrying `k`; meaningful only when present.
pub open spec fn kv_find<T>(s: Seq<(Seq<char>, T)>, k: Seq<char>) -> int
    decreases s.len(),
{
    if s.len() == 0 {
        0
    } else if s[0].0 == k {
        0
    } else {
        1 + kv_find(s.drop_first(), k)
    }
}

/// Replaces the value of the first entry carrying the key, or inserts
/// the entry at its key-ordered position when the key is absent.
pub open spec fn kv_upsert<T>(s: Seq<(Seq<char>, T)>, kv: (Seq<char>, T)) -> Seq<(Seq<char>, T)> {
    if kv_has(s, kv.0) {
        s.update(kv_find(s, kv.0), kv)
    } else {
        kv_insert(s, kv)
    }
}

/// Sorts the first `n` entries by key, by left-to-right insertion.
pub open spec fn kv_sort<T>(s: Seq<(Seq<char>, T)>, n: int) -> Seq<(Seq<char>, T)>
    decreases n,
{
    if n <= 0 || n > s.len() {
        Seq::empty()
    } else {
        kv_insert(kv_sort(s, n - 1), s[n - 1])
    }
}

/// Keys appear in strictly increasing order (so no key repeats).
pub open spec fn kv_sorted<T>(s: Seq<(Seq<char>, T)>) -> bool {
    forall|i: int, j: int| 0 <= i < j < s.len() ==> char_seq_lt(s[i].0, s[j].0)
}

/// In a strictly sorted list a new strictly greater key lands at the end.
pub proof fn lemma_insert_pos_at_end<T>(s: Seq<(Seq<char>, T)>, k: Seq<char>)
    requires
        forall|i: int| 0 <= i < s.len() ==> char_seq_lt(s[i].0, k),
    ensures
        kv_insert_pos(s, k) == s.len(),
    decreases s.len(),
{
    if s.len() > 0 {
        lemma_char_seq_lt_trichotomy(k, s[0].0);
        lemma_insert_pos_at_end(s.drop_first(), k);
    }
}

/// Sorting a strictly sorted list gives it back unchanged.
pub proof fn lemma_sort_of_sorted<T>(s: Seq<(Seq<char>, T)>, n: int)
    requires
        0 <= n <= s.len(),
        kv_sorted(s),
    ensures
        kv_sort(s, n) == s.take(n),
    decreases n,
{
    if n <= 0 {
        assert(kv_sort(s, n) =~= s.take(n));
    } else {
        lemma_sort_of_sorted(s, n - 1);
        let t = s.take(n - 1);
        assert forall|i: int| 0 <= i < t.len() implies char_seq_lt(#[trigger] t[i].0, s[n - 1].0) by {
            assert(t[i] == s[i]);
        }
        lemma_insert_pos_at_end(s.take(n - 1), s[n - 1].0);
        assert(kv_sort(s, n) =~= s.take(n));
    }
}

/// A key has a value exactly when some entry carries it.
pub proof fn lemma_kv_get_has<T>(s: Seq<(Seq<char>, T)>, k: Seq<char>)
    ensures
        kv_get(s, k) is Some <==> kv_has(s, k),
    decreases s.len(),
{
    if s.len() > 0 && s[0].0 != k {
        lemma_kv_get_has(s.drop_first(), k);
        assert forall|i: int| 0 <= i < s.len() && s[i].0 == k implies kv_has(
            s.drop_first(),
            k,
        ) by {
            assert(s.drop_first()[i - 1] == s[i]);
        }
    }
}

/// Pushing onto a vector appends the element's view to its deep view.
pub proof fn lemma_deep_view_push<T: DeepView>(pre: Vec<T>, post: Vec<T>, x: T)
    requires
        post@ == pre@.push(x),
    ensures
        post.deep_view() == pre.deep_view().push(x.deep_view()),
{
    let target = pre.deep_view().push(x.deep_view());
    assert forall|j: int| 0 <= j < post@.len() implies post.deep_view()[j] == target[j] by {
        assert(post.deep_view()[j] == post@[j].deep_view());
        if j < pre@.len() {
            assert(post@[j] == pre@[j]);
            assert(target[j] == pre.deep_view()[j]);
            assert(pre.deep_view()[j] == pre@[j].deep_view());
        } else {
            assert(post@[j] == x);
        }
    }
    assert(post.deep_view() =~= target);
}

/// Looks up `key`, returning a reference to the first matching value.
pub fn kv_lookup<'a, T: DeepView>(m: &'a Vec<(String, T)>, key: &str) -> (r: Option<&'a T>)
    ensures
        match r {
            Some(t) => kv_get(m.deep_view(), key@) == Some(t.deep_view()),
            None => kv_get(m.deep_view(), key@) is None,
        },
{
    let ghost dv = m.deep_view();
    let mut i: usize = 0;
    proof {
        assert(dv.skip(0) =~= dv);
    }
    while i < m.len()
        invariant
            i <= m.len(),
            dv == m.deep_view(),
            dv.len() == m.len(),
            forall|k: int| 0 <= k < i ==> dv[k].0 != key@,
            kv_get(dv, key@) == kv_get(dv.skip(i as int), key@),
        decreases m.len() - i,
    {
        proof {
            assert(dv[i as int] == (m@[i as int].0@, m@[i as int].1.deep_view()));
        }
        if str_eq(m[i].0.as_str(), key) {
            proof {
                assert(dv.skip(i as int)[0] == dv[i as int]);
            }
            return Some(&m[i].1);
        }
        proof {
            let sk = dv.skip(i as int);
            assert(sk[0] == dv[i as int]);
            assert(sk.drop_first() =~= dv.skip(i + 1));
        }
        i = i + 1;
    }
    proof {
        assert(dv.skip(i as int).len() == 0);
    }
    None
}

/// Index of the first entry whose key equals `key`, if any.
fn kv_find_exec<T: DeepView>(m: &Vec<(String, T)>, key: &str) -> (r: Option<usize>)
    ensures
        match r {
            Some(j) => {
                &&& j < m.deep_view().len()
                &&& kv_has(m.deep_view(), key@)
                &&& kv_find(m.deep_view(), key@) == j as int
                &&& m.deep_view()[j as int].0 == key@
            },
            None => !kv_has(m.deep_view(), key@),
        },
{
    let ghost dv = m.deep_view();
    let mut i: usize = 0;
    while i < m.len()
        invariant
            i <= m.len(),
            dv == m.deep_view(),
            dv.len() == m.len(),
            forall|k: int| 0 <= k < i ==> dv[k].0 != key@,
        decreases m.len() - i,
    {
        proof {
            assert(dv[i as int] == (m@[i as int].0@, m@[i as int].1.deep_view()));
        }
        if str_eq(m[i].0.as_str(), key) {
            proof {
                lemma_kv_find_here(dv, key@, i as int);
            }
            return Some(i);
        }
        i = i + 1;
    }
    None
}

/// Replaces the first entry with this key, or inserts in key order.
pub fn kv_upsert_exec<T: DeepView>(m: &mut Vec<(String, T)>, key: String, val: T)
    ensures
        final(m).deep_view() == kv_upsert(old(m).deep_view(), (key@, val.deep_view())),
{
    let ghost dv = old(m).deep_view();
    let ghost kv = (key@, val.deep_view());
    match kv_find_exec(m, key.as_str()) {
        Some(i) => {
            let _ = m.remove(i);
            m.insert(i, (key, val));
            proof {
                let target = dv.update(i as int, kv);
                assert(m@ =~= old(m)@.update(i as int, (key, val)));
                assert forall|j: int| 0 <= j < m@.len() implies m.deep_view()[j] == target[j] by {
                    assert(m.deep_view()[j] == (m@[j].0@, m@[j].1.deep_view()));
                    if j != i {
                        assert(m@[j] == old(m)@[j]);
                        assert(dv[j] == (old(m)@[j].0@, old(m)@[j].1.deep_view()));
                        assert(target[j] == dv[j]);
                    } else {
                        assert(m@[j] == (key, val));
                        assert(target[j] == kv);
                    }
                }
                assert(m.deep_view() =~= target);
            }
        },
        None => {
            kv_insert_exec(m, key, val);
        },
    }
}

proof fn lemma_kv_find_here<T>(s: Seq<(Seq<char>, T)>, k: Seq<char>, i: int)
    requires
        0 <= i < s.len(),
        s[i].0 == k,
        forall|j: int| 0 <= j < i ==> s[j].0 != k,
    ensures
        kv_has(s, k),
        kv_find(s, k) == i,
    decreases i,
{
    if i > 0 {
        lemma_kv_find_here(s.drop_first(), k, i - 1);
    }
}

proof fn lemma_kv_insert_pos_here<T>(s: Seq<(Seq<char>, T)>, k: Seq<char>, i: int)
    requires
        0 <= i <= s.len(),
        forall|j: int| 0 <= j < i ==> !char_seq_lt(k, s[j].0),
        i < s.len() ==> char_seq_lt(k, s[i].0),
    ensures
        kv_insert_pos(s, k) == i,
    decreases i,
{
    if i > 0 {
        lemma_kv_insert_pos_here(s.drop_first(), k, i - 1);
    }
}

/// The key-ordered insertion position for `key`.
fn kv_pos_exec<T: DeepView>(m: &Vec<(String, T)>, key: &str) -> (r: usize)
    ensures
        r <= m.deep_view().len(),
        r as int == kv_insert_pos(m.deep_view(), key@),
{
    let ghost dv = m.deep_view();
    let mut i: usize = 0;
    while i < m.len()
        invariant
            i <= m.len(),
            dv == m.deep_view(),
            dv.len() == m.len(),
            forall|k: int| 0 <= k < i ==> !char_seq_lt(key@, dv[k].0),
        decreases m.len() - i,
    {
        proof {
            assert(dv[i as int] == (m@[i as int].0@, m@[i as int].1.deep_view()));
        }
        if str_lt(key, m[i].0.as_str()) {
            proof {
                lemma_kv_insert_pos_here(dv, key@, i as int);
            }
            return i;
        }
        i = i + 1;
    }
    proof {
        lemma_kv_insert_pos_here(dv, key@, dv.len() as int);
    }
    i
}

/// Inserts an entry at its key-ordered position, after any equal keys.
pub fn kv_insert_exec<T: DeepView>(m: &mut Vec<(String, T)>, key: String, val: T)
    ensures
        final(m).deep_view() == kv_insert(old(m).deep_view(), (key@, val.deep_view())),
{
    let ghost dv = old(m).deep_view();
    let ghost kv = (key@, val.deep_view());
    let i = kv_pos_exec(m, key.as_str());
    m.insert(i, (key, val));
    proof {
        let target = dv.take(i as int) + seq![kv] + dv.skip(i as int);
        assert(m@ =~= old(m)@.insert(i as int, (key, val)));
        assert forall|j: int| 0 <= j < m@.len() implies m.deep_view()[j] == target[j] by {
            assert(m.deep_view()[j] == (m@[j].0@, m@[j].1.deep_view()));
            if j < i {
                assert(m@[j] == old(m)@[j]);
                assert(dv[j] == (old(m)@[j].0@, old(m)@[j].1.deep_view()));
                assert(target[j] == dv.take(i as int)[j]);
                assert(target[j] == dv[j]);
            } else if j > i {
                assert(m@[j] == old(m)@[j - 1]);
                assert(dv[j - 1] == (old(m)@[j - 1].0@, old(m)@[j - 1].1.deep_view()));
                assert(target[j] == dv.skip(i as int)[j - i - 1]);
                assert(target[j] == dv[j - 1]);
            } else {
                assert(m@[j] == (key, val));
                assert(target[j] == kv);
            }
        }
        assert(m.deep_view() =~= target);
    }
}

/// Sorts the entries by key, keeping the relative order of equal keys.
pub fn kv_sort_exec<T: DeepView>(m: Vec<(String, T)>) -> (r: Vec<(String, T)>)
    ensures
        r.deep_view() == kv_sort(m.deep_view(), m.deep_view().len() as int),
{
    let ghost dv = m.deep_view();
    let mut src = m;
    let mut out: Vec<(String, T)> = Vec::new();
    let ghost mut i: int = 0;
    proof {
        assert(out.deep_view() =~= kv_sort(dv, 0));
        assert(src.deep_view() =~= dv.skip(0));
    }
    while src.len() > 0
        invariant
            0 <= i <= dv.len(),
            src.deep_view() == dv.skip(i),
            i + src.deep_view().len() == dv.len(),
            out.deep_view() == kv_sort(dv, i),
        decreases src.len(),
    {
        let ghost pre = src@;
        let (k, v) = src.remove(0);
        proof {
            assert(dv.skip(i)[0] == dv[i]);
            assert((pre[0].0@, pre[0].1.deep_view()) == dv.skip(i)[0]);
            assert((k@, v.deep_view()) == dv[i]);
        }
        kv_insert_exec(&mut out, k, v);
        proof {
            let target = dv.skip(i + 1);
            assert forall|j: int| 0 <= j < src@.len() implies src.deep_view()[j] == target[j] by {
                assert(src.deep_view()[j] == (src@[j].0@, src@[j].1.deep_view()));
                assert(src@[j] == pre[j + 1]);
                assert(dv.skip(i)[j + 1] == (pre[j + 1].0@, pre[j + 1].1.deep_view()));
                assert(dv.skip(i)[j + 1] == dv[i + 1 + j]);
            }
            assert(src.deep_view() =~= target);
            i = i + 1;
        }
    }
    out
}

} // verus!
