use vstd::prelude::*;

use crate::text::same_text;

verus! {

/// Entry `i` of `s` has key `k`.
pub open spec fn key_at(s: Seq<(String, String)>, k: Seq<char>, i: int) -> bool {
    0 <= i < s.len() && s[i].0@ == k
}

/// Some entry of `s` has key `k`.
pub open spec fn has_key(s: Seq<(String, String)>, k: Seq<char>) -> bool {
    exists|i: int| key_at(s, k, i)
}

/// No two entries of `s` share a key: `s` is a string-to-string mapping.
pub open spec fn unique_keys(s: Seq<(String, String)>) -> bool {
    forall|i: int, j: int|
        0 <= i < s.len() && 0 <= j < s.len() && #[trigger] s[i].0@ == #[trigger] s[j].0@ ==> i == j
}

/// The value stored under `k`, if any.
pub open spec fn lookup(s: Seq<(String, String)>, k: Seq<char>) -> Option<Seq<char>> {
    if has_key(s, k) {
        Some(s[choose|i: int| key_at(s, k, i)].1@)
    } else {
        None
    }
}

/// `s` with `k` mapped to `v`: the entry of `k` is replaced in place, or a new
/// entry is appended.
pub open spec fn with_pair(s: Seq<(String, String)>, k: String, v: String) -> Seq<(String, String)> {
    if has_key(s, k@) {
        s.update(choose|i: int| key_at(s, k@, i), (k, v))
    } else {
        s.push((k, v))
    }
}

/// The position of the entry with key `k`, if any.
pub fn find_key(s: &Vec<(String, String)>, k: &str) -> (r: Option<usize>)
    ensures
        match r {
            Some(i) => key_at(s@, k@, i as int),
            None => !has_key(s@, k@),
        },
{
    let mut i: usize = 0;
    while i < s.len()
        invariant
            i <= s@.len(),
            forall|j: int| 0 <= j < i ==> !key_at(s@, k@, j),
        decreases s@.len() - i,
    {
        if same_text(s[i].0.as_str(), k) {
            return Some(i);
        }
        i = i + 1;
    }
    None
}

/// Mapping a key keeps keys unique, and the key then looks up its new value.
pub proof fn lemma_with_pair(s: Seq<(String, String)>, k: String, v: String)
    requires
        unique_keys(s),
    ensures
        unique_keys(with_pair(s, k, v)),
        lookup(with_pair(s, k, v), k@) == Some(v@),
{
    let t = with_pair(s, k, v);
    if has_key(s, k@) {
        let i = choose|j: int| key_at(s, k@, j);
        assert(key_at(t, k@, i));
        assert forall|a: int, b: int|
            0 <= a < t.len() && 0 <= b < t.len() && #[trigger] t[a].0@ == #[trigger] t[b].0@ implies a
            == b by {
            assert(t[a].0@ == s[a].0@);
            assert(t[b].0@ == s[b].0@);
        }
        let c = choose|j: int| key_at(t, k@, j);
        assert(t[c].0@ == t[i].0@);
    } else {
        assert(key_at(t, k@, s.len() as int));
        assert forall|a: int, b: int|
            0 <= a < t.len() && 0 <= b < t.len() && #[trigger] t[a].0@ == #[trigger] t[b].0@ implies a
            == b by {
            if a < s.len() && b < s.len() {
                assert(t[a] == s[a]);
                assert(t[b] == s[b]);
            } else if a < s.len() {
                assert(key_at(s, k@, a));
            } else if b < s.len() {
                assert(key_at(s, k@, b));
            }
        }
        let c = choose|j: int| key_at(t, k@, j);
        assert(t[c].0@ == t[s.len() as int].0@);
    }
}

/// Maps `k` to `v`, replacing the value of an existing entry.
pub fn set_pair(s: &mut Vec<(String, String)>, k: String, v: String)
    requires
        unique_keys(old(s)@),
    ensures
        final(s)@ == with_pair(old(s)@, k, v),
        unique_keys(final(s)@),
        lookup(final(s)@, k@) == Some(v@),
{
    let ghost s0 = s@;
    proof {
        lemma_with_pair(s0, k, v);
    }
    match find_key(s, k.as_str()) {
        Some(i) => {
            let ghost c = choose|j: int| key_at(s0, k@, j);
            assert(c == i);
            s.set(i, (k, v));
        },
        None => {
            s.push((k, v));
        },
    }
}

/// The value stored under `k`, if any.
pub fn get_pair<'a>(s: &'a Vec<(String, String)>, k: &str) -> (r: Option<&'a String>)
    requires
        unique_keys(s@),
    ensures
        match r {
            Some(v) => lookup(s@, k@) == Some(v@),
            None => lookup(s@, k@) is None,
        },
{
    match find_key(s, k) {
        Some(i) => {
            let ghost c = choose|j: int| key_at(s@, k@, j);
            assert(c == i);
            Some(&s[i].1)
        },
        None => None,
    }
}

} // verus!
