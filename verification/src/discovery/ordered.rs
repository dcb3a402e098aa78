//! Keeping the entries of a name-keyed list in the order of their names,
//! as a `BTreeMap` keyed by strings keeps them.

use vstd::prelude::*;
use vstd::string::StrSliceExecFns;
use vstd::utf8::{encode_utf8, encode_utf8_decode_utf8};

use crate::discovery::keys_unique;
use crate::discovery::command_discovery_cache::lookup;
use crate::json::{find_key, lemma_find_key};
use crate::strings::{bytes_less, bytes_lt};

verus! {

/// The order of `str`: byte-wise on the UTF-8 encodings.
pub open spec fn text_lt(a: Seq<char>, b: Seq<char>) -> bool {
    bytes_lt(encode_utf8(a), encode_utf8(b))
}

/// No byte string sorts before itself.
pub proof fn lemma_bytes_lt_irreflexive(a: Seq<u8>)
    ensures
        !bytes_lt(a, a),
    decreases a.len(),
{
    if a.len() > 0 {
        lemma_bytes_lt_irreflexive(a.drop_first());
    }
}

/// The byte-wise order is transitive.
pub proof fn lemma_bytes_lt_transitive(a: Seq<u8>, b: Seq<u8>, c: Seq<u8>)
    requires
        bytes_lt(a, b),
        bytes_lt(b, c),
    ensures
        bytes_lt(a, c),
    decreases a.len(),
{
    if a.len() > 0 && b.len() > 0 && c.len() > 0 && a[0] == b[0] && b[0] == c[0] {
        lemma_bytes_lt_transitive(a.drop_first(), b.drop_first(), c.drop_first());
    }
}

/// Of two different byte strings one sorts before the other.
pub proof fn lemma_bytes_lt_total(a: Seq<u8>, b: Seq<u8>)
    requires
        a != b,
    ensures
        bytes_lt(a, b) || bytes_lt(b, a),
    decreases a.len(),
{
    if a.len() > 0 && b.len() > 0 && a[0] == b[0] {
        if a.drop_first() == b.drop_first() {
            assert(a =~= seq![a[0]] + a.drop_first());
            assert(b =~= seq![b[0]] + b.drop_first());
        }
        lemma_bytes_lt_total(a.drop_first(), b.drop_first());
    } else if a.len() == 0 && b.len() == 0 {
        assert(a =~= b);
    }
}

/// Of two different texts one sorts before the other.
pub proof fn lemma_text_lt_total(a: Seq<char>, b: Seq<char>)
    requires
        a != b,
    ensures
        text_lt(a, b) || text_lt(b, a),
{
    encode_utf8_decode_utf8(a);
    encode_utf8_decode_utf8(b);
    lemma_bytes_lt_total(encode_utf8(a), encode_utf8(b));
}

/// Whether `v` is in strictly increasing order.
pub open spec fn strictly_sorted(v: Seq<Seq<char>>) -> bool {
    forall|i: int, j: int| 0 <= i < j < v.len() ==> text_lt(#[trigger] v[i], #[trigger] v[j])
}

/// The names of a list's entries, in order.
pub open spec fn key_views<T>(entries: Seq<(String, T)>) -> Seq<Seq<char>> {
    entries.map_values(|e: (String, T)| e.0@)
}

/// Whether the names of the entries are in strictly increasing order.
pub open spec fn keys_sorted<T>(entries: Seq<(String, T)>) -> bool {
    strictly_sorted(key_views(entries))
}

/// The first entry with a name is found at or before any entry with it.
pub proof fn lemma_find_key_found<T>(s: Seq<(String, T)>, i: int)
    requires
        0 <= i < s.len(),
    ensures
        0 <= find_key(s, s[i].0@) <= i,
    decreases s.len(),
{
    if i < s.len() - 1 {
        lemma_find_key_found(s.drop_last(), i);
        assert(s.drop_last()[i] == s[i]);
    } else {
        if find_key(s.drop_last(), s[i].0@) >= 0 {
            lemma_find_key(s.drop_last(), s[i].0@);
        }
    }
}

/// In a list whose names are unique, an entry is found by its name.
pub proof fn lemma_unique_find<T>(s: Seq<(String, T)>, i: int)
    requires
        keys_unique(s),
        0 <= i < s.len(),
    ensures
        find_key(s, s[i].0@) == i,
{
    lemma_find_key_found(s, i);
    lemma_find_key(s, s[i].0@);
}

/// No entry has a name that is not found.
pub proof fn lemma_not_found<T>(s: Seq<(String, T)>, k: Seq<char>)
    requires
        find_key(s, k) < 0,
    ensures
        forall|i: int| 0 <= i < s.len() ==> (#[trigger] s[i]).0@ != k,
{
    assert forall|i: int| 0 <= i < s.len() implies (#[trigger] s[i]).0@ != k by {
        if s[i].0@ == k {
            lemma_find_key_found(s, i);
        }
    }
}

/// Puts an entry with a name not yet there into `entries`, before the
/// first entry whose name sorts after its name, so that names in order
/// stay in order.
pub fn insert_new_entry<T>(entries: &mut Vec<(String, T)>, key: String, value: T)
    requires
        keys_unique(old(entries)@),
        find_key(old(entries)@, key@) < 0,
    ensures
        keys_unique(final(entries)@),
        keys_sorted(old(entries)@) ==> keys_sorted(final(entries)@),
        final(entries)@.len() == old(entries)@.len() + 1,
        forall|k: Seq<char>| #[trigger] lookup(final(entries)@, k) == if k == key@ { Some(value) } else { lookup(old(entries)@, k) },
{
    let ghost old_entries = entries@;
    proof {
        lemma_not_found(old_entries, key@);
    }
    let mut p: usize = 0;
    while p < entries.len() && !bytes_less(key.as_str().as_bytes(), entries[p].0.as_str().as_bytes())
        invariant
            p <= entries@.len(),
            entries@ == old_entries,
            forall|j: int| 0 <= j < p ==> !text_lt(key@, (#[trigger] entries@[j]).0@),
        decreases entries@.len() - p,
    {
        p = p + 1;
    }
    let ghost kv = key@;
    let ghost e = (key, value);
    entries.insert(p, (key, value));
    proof {
        let n = entries@;
        assert(n =~= old_entries.insert(p as int, e));
        assert forall|a: int, b: int| 0 <= a < b < n.len() implies (#[trigger] n[a]).0@ != (#[trigger] n[b]).0@ by {
            if a < p && b < p {
            } else if a < p && b == p {
            } else if a < p {
                assert(n[b] == old_entries[b - 1]);
            } else if a == p {
                assert(n[b] == old_entries[b - 1]);
            } else {
                assert(n[a] == old_entries[a - 1]);
                assert(n[b] == old_entries[b - 1]);
            }
        }
        assert(keys_unique(n));
        if keys_sorted(old_entries) {
            let ov = key_views(old_entries);
            assert forall|a: int, b: int| 0 <= a < b < n.len() implies text_lt(#[trigger] key_views(n)[a], #[trigger] key_views(n)[b]) by {
                assert(key_views(n)[a] == n[a].0@);
                assert(key_views(n)[b] == n[b].0@);
                if b < p {
                    assert(ov[a] == n[a].0@ && ov[b] == n[b].0@);
                } else if a < p && b == p {
                    lemma_text_lt_total(n[a].0@, kv);
                } else if a < p {
                    assert(n[b] == old_entries[b - 1]);
                    assert(ov[a] == n[a].0@ && ov[b - 1] == n[b].0@);
                    if a == b - 1 {
                    } else {
                    }
                } else if a == p {
                    assert(n[b] == old_entries[b - 1]);
                    if p < old_entries.len() {
                        assert(text_lt(kv, old_entries[p as int].0@));
                        if b - 1 > p {
                            assert(ov[p as int] == old_entries[p as int].0@ && ov[b - 1] == n[b].0@);
                            lemma_bytes_lt_transitive(encode_utf8(kv), encode_utf8(old_entries[p as int].0@), encode_utf8(n[b].0@));
                        }
                    }
                } else {
                    assert(n[a] == old_entries[a - 1]);
                    assert(n[b] == old_entries[b - 1]);
                    assert(ov[a - 1] == n[a].0@ && ov[b - 1] == n[b].0@);
                }
            }
        }
        assert forall|k: Seq<char>| #[trigger] lookup(n, k) == if k == kv { Some(value) } else { lookup(old_entries, k) } by {
            if k == kv {
                lemma_unique_find(n, p as int);
            } else {
                lemma_find_key(old_entries, k);
                if find_key(old_entries, k) >= 0 {
                    let g = find_key(old_entries, k);
                    let h = if g < p { g } else { g + 1 };
                    assert(n[h] == old_entries[g]);
                    lemma_unique_find(n, h);
                } else {
                    lemma_not_found(old_entries, k);
                    lemma_find_key(n, k);
                    if find_key(n, k) >= 0 {
                        let f = find_key(n, k);
                        if f < p {
                            assert(n[f] == old_entries[f]);
                        } else if f > p {
                            assert(n[f] == old_entries[f - 1]);
                        }
                    }
                }
            }
        }
    }
}

} // verus!
