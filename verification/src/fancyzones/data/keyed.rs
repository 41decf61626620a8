//! Vectors of key/value pairs with distinct keys, read and written as maps
//! are. Stores keyed by text hold their entries this way, so that what a
//! lookup finds can be stated by the key's characters; stores keyed by
//! numbers use `HashMap`.

use vstd::prelude::*;
use crate::text::str_eq;

verus! {

/// Keys pairwise distinct (by their characters).
pub open spec fn str_keys_unique<V>(e: Seq<(String, V)>) -> bool {
    forall|i: int, j: int| 0 <= i < j < e.len() ==> e[i].0@ != e[j].0@
}

/// The position of key `k`, or -1.
pub open spec fn str_pos<V>(e: Seq<(String, V)>, k: Seq<char>) -> int {
    if exists|i: int| 0 <= i < e.len() && e[i].0@ == k {
        choose|i: int| 0 <= i < e.len() && e[i].0@ == k
    } else {
        -1
    }
}

/// The value under key `k`.
pub open spec fn str_get<V>(e: Seq<(String, V)>, k: Seq<char>) -> Option<V> {
    let i = str_pos(e, k);
    if i >= 0 {
        Some(e[i].1)
    } else {
        None
    }
}

/// The entries after writing `v` under `k`: an existing entry's value is
/// replaced in place, a new key is appended.
pub open spec fn str_put<V>(e: Seq<(String, V)>, k: String, v: V) -> Seq<(String, V)> {
    let i = str_pos(e, k@);
    if i >= 0 {
        e.update(i, (e[i].0, v))
    } else {
        e.push((k, v))
    }
}

/// Finds the position of a key.
pub fn find_str_key<V>(e: &Vec<(String, V)>, k: &str) -> (r: Option<usize>)
    requires
        str_keys_unique(e@),
    ensures
        match r {
            Some(i) => i == str_pos(e@, k@) && i < e@.len(),
            None => str_pos(e@, k@) == -1,
        },
{
    let mut i: usize = 0;
    while i < e.len()
        invariant
            i <= e@.len(),
            str_keys_unique(e@),
            forall|j: int| 0 <= j < i ==> e@[j].0@ != k@,
        decreases e@.len() - i,
    {
        if str_eq(e[i].0.as_str(), k) {
            proof {
                let c = choose|c: int| 0 <= c < e@.len() && e@[c].0@ == k@;
                if c != i {
                    if c < i {
                        assert(e@[c].0@ != k@);
                    } else {
                        assert(e@[i as int].0@ != e@[c].0@);
                    }
                }
            }
            return Some(i);
        }
        i = i + 1;
    }
    None
}

/// Writes `v` under `k`.
pub fn put_str_key<V>(e: &mut Vec<(String, V)>, k: String, v: V)
    requires
        str_keys_unique(old(e)@),
    ensures
        final(e)@ == str_put(old(e)@, k, v),
        str_keys_unique(final(e)@),
{
    match find_str_key(e, k.as_str()) {
        Some(i) => {
            let ghost before = e@;
            let old_key = e.remove(i);
            e.insert(i, (old_key.0, v));
            proof {
                assert(e@ =~= before.update(i as int, (before[i as int].0, v)));
            }
        },
        None => {
            e.push((k, v));
        },
    }
}

/// Reading a key just written gives the value written; other keys keep
/// their values, and the keys stay distinct.
pub proof fn lemma_str_put_get<V>(e: Seq<(String, V)>, k: String, v: V, other: Seq<char>)
    requires
        str_keys_unique(e),
    ensures
        str_keys_unique(str_put(e, k, v)),
        str_get(str_put(e, k, v), k@) == Some(v),
        other != k@ ==> str_get(str_put(e, k, v), other) == str_get(e, other),
{
    let p = str_put(e, k, v);
    let i = str_pos(e, k@);
    if i >= 0 {
        assert(p[i].0@ == k@);
    } else {
        assert(p[e.len() as int].0@ == k@);
    }
    assert(str_pos(p, k@) >= 0);
    let j = str_pos(p, k@);
    if i >= 0 {
        assert(j == i) by {
            if j != i {
                assert(p[j].0@ == e[j].0@);
            }
        }
    } else {
        assert(j == e.len()) by {
            if j < e.len() {
                assert(p[j].0@ == e[j].0@);
            }
        }
    }
    if other != k@ {
        if str_pos(e, other) >= 0 {
            let a = str_pos(e, other);
            assert(p[a].0@ == other);
            let b = str_pos(p, other);
            assert(b == a) by {
                if b != a {
                    if b < e.len() {
                        assert(p[b].0@ == e[b].0@);
                    }
                }
            }
        } else {
            if str_pos(p, other) >= 0 {
                let b = str_pos(p, other);
                if b < e.len() {
                    assert(p[b].0@ == e[b].0@);
                }
            }
        }
    }
}

} // verus!

verus! {

/// Entries with their keys and values seen through `f`.
pub open spec fn entries_view<V, W>(e: Seq<(String, V)>, f: spec_fn(V) -> W) -> Seq<(Seq<char>, W)> {
    e.map_values(|p: (String, V)| (p.0@, f(p.1)))
}

/// The position of key `k` among viewed entries, or -1.
pub open spec fn vpos<W>(e: Seq<(Seq<char>, W)>, k: Seq<char>) -> int {
    if exists|i: int| 0 <= i < e.len() && e[i].0 == k {
        choose|i: int| 0 <= i < e.len() && e[i].0 == k
    } else {
        -1
    }
}

/// Viewed entries after writing `w` under `k`.
pub open spec fn vput<W>(e: Seq<(Seq<char>, W)>, k: Seq<char>, w: W) -> Seq<(Seq<char>, W)> {
    let i = vpos(e, k);
    if i >= 0 {
        e.update(i, (e[i].0, w))
    } else {
        e.push((k, w))
    }
}

/// The value under `k` among viewed entries.
pub open spec fn vget<W>(e: Seq<(Seq<char>, W)>, k: Seq<char>) -> Option<W> {
    let i = vpos(e, k);
    if i >= 0 {
        Some(e[i].1)
    } else {
        None
    }
}

/// Writing a key and then viewing the entries is viewing them and then
/// writing the viewed key.
pub proof fn lemma_put_view<V, W>(e: Seq<(String, V)>, k: String, v: V, f: spec_fn(V) -> W)
    requires
        str_keys_unique(e),
    ensures
        entries_view(str_put(e, k, v), f) == vput(entries_view(e, f), k@, f(v)),
{
    let ev = entries_view(e, f);
    let i = str_pos(e, k@);
    let j = vpos(ev, k@);
    if i >= 0 {
        assert(ev[i].0 == k@);
        assert(j == i) by {
            if j != i {
                assert(ev[j].0 == e[j].0@);
            }
        }
        assert(entries_view(str_put(e, k, v), f) =~= vput(ev, k@, f(v)));
    } else {
        assert(j == -1) by {
            if j >= 0 {
                assert(ev[j].0 == e[j].0@);
            }
        }
        assert(entries_view(str_put(e, k, v), f) =~= vput(ev, k@, f(v)));
    }
}

} // verus!

verus! {

/// Keys pairwise distinct among viewed entries.
pub open spec fn vkeys_unique<W>(e: Seq<(Seq<char>, W)>) -> bool {
    forall|i: int, j: int| 0 <= i < j < e.len() ==> e[i].0 != e[j].0
}

/// Viewing keeps the keys distinct.
pub proof fn lemma_view_unique<V, W>(e: Seq<(String, V)>, f: spec_fn(V) -> W)
    requires
        str_keys_unique(e),
    ensures
        vkeys_unique(entries_view(e, f)),
{
    let ev = entries_view(e, f);
    assert forall|i: int, j: int| 0 <= i < j < ev.len() implies ev[i].0 != ev[j].0 by {
        assert(ev[i].0 == e[i].0@);
        assert(ev[j].0 == e[j].0@);
    }
}

/// Reading a viewed key just written gives the value written; other keys
/// keep their values.
pub proof fn lemma_vput_vget<W>(e: Seq<(Seq<char>, W)>, k: Seq<char>, w: W, other: Seq<char>)
    requires
        vkeys_unique(e),
    ensures
        vkeys_unique(vput(e, k, w)),
        vget(vput(e, k, w), k) == Some(w),
        other != k ==> vget(vput(e, k, w), other) == vget(e, other),
{
    let p = vput(e, k, w);
    let i = vpos(e, k);
    if i >= 0 {
        assert(p[i].0 == k);
    } else {
        assert(p[e.len() as int].0 == k);
    }
    let j = vpos(p, k);
    if i >= 0 {
        assert(j == i) by {
            if j != i {
                assert(p[j].0 == e[j].0);
            }
        }
    } else {
        assert(j == e.len()) by {
            if j < e.len() {
                assert(p[j].0 == e[j].0);
            }
        }
    }
    if other != k {
        if vpos(e, other) >= 0 {
            let a = vpos(e, other);
            assert(p[a].0 == other);
            let b = vpos(p, other);
            assert(b == a) by {
                if b != a && b < e.len() {
                    assert(p[b].0 == e[b].0);
                }
            }
        } else if vpos(p, other) >= 0 {
            let b = vpos(p, other);
            if b < e.len() {
                assert(p[b].0 == e[b].0);
            }
        }
    }
}

/// Looking a key up among entries and among their views agree.
pub proof fn lemma_get_view<V, W>(e: Seq<(String, V)>, k: Seq<char>, f: spec_fn(V) -> W)
    requires
        str_keys_unique(e),
    ensures
        vget(entries_view(e, f), k) == match str_get(e, k) {
            Some(v) => Some(f(v)),
            None => None,
        },
{
    let ev = entries_view(e, f);
    let i = str_pos(e, k);
    let j = vpos(ev, k);
    if i >= 0 {
        assert(ev[i].0 == k);
        assert(j == i) by {
            if j != i {
                assert(ev[j].0 == e[j].0@);
            }
        }
    } else {
        if j >= 0 {
            assert(ev[j].0 == e[j].0@);
        }
    }
}

} // verus!
