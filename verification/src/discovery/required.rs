//! Finding the resources that a configuration requires: the required types,
//! compared without regard to case, are claimed by the first discovered
//! resource of each type, and then by the resources that adapters list.

use vstd::prelude::*;
use vstd::string::StrSliceExecFns;
use vstd::utf8::encode_utf8;

use crate::discovery::ordered::{lemma_bytes_lt_transitive, lemma_text_lt_total, strictly_sorted, text_lt};
use crate::dscresources::dscresource::{resource_same, string_views, DscResource};
use crate::discovery::command_discovery::{adapter_order, entry_names, listed_with, sort_adapters_based_on_lookup_table};
use crate::discovery::linked_calls::linked_into_entries;
use crate::json::{lemma_put_then_get, member_value, put_member};
use crate::strings::{bytes_less, lowercase, str_equal, to_lowercase};

verus! {

/// The lower-case forms of `types`.
pub open spec fn lowercased(types: Seq<String>) -> Seq<Seq<char>> {
    types.map_values(|s: String| lowercase(s@))
}

/// What a sequence with one more text holds.
proof fn lemma_push_contains(l: Seq<Seq<char>>, x: Seq<char>)
    ensures
        forall|y: Seq<char>| #[trigger] l.push(x).contains(y) <==> l.contains(y) || y == x,
{
    assert forall|y: Seq<char>| #[trigger] l.push(x).contains(y) <==> l.contains(y) || y == x by {
        if l.push(x).contains(y) {
            let t = choose|t: int| 0 <= t < l.push(x).len() && l.push(x)[t] == y;
            if t < l.len() {
                assert(l[t] == y);
            }
        }
        if l.contains(y) {
            let t = choose|t: int| 0 <= t < l.len() && l[t] == y;
            assert(l.push(x)[t] == y);
        }
        if y == x {
            assert(l.push(x)[l.len() as int] == y);
        }
    }
}

/// The required types, lower-cased, sorted and each once.
#[verifier::spinoff_prover]
pub fn required_types(required: &Vec<String>) -> (r: Vec<String>)
    ensures
        strictly_sorted(string_views(r@)),
        forall|x: Seq<char>| string_views(r@).contains(x) <==> lowercased(required@).contains(x),
{
    let mut out: Vec<String> = Vec::new();
    let mut k: usize = 0;
    while k < required.len()
        invariant
            k <= required@.len(),
            strictly_sorted(string_views(out@)),
            forall|x: Seq<char>| string_views(out@).contains(x) <==> lowercased(required@.take(k as int)).contains(x),
        decreases required@.len() - k,
    {
        let x = to_lowercase(required[k].as_str());
        let mut i: usize = 0;
        while i < out.len() && bytes_less(out[i].as_str().as_bytes(), x.as_str().as_bytes())
            invariant
                i <= out@.len(),
                forall|j: int| 0 <= j < i ==> text_lt(#[trigger] out@[j]@, x@),
            decreases out@.len() - i,
        {
            i = i + 1;
        }
        let ghost before = string_views(out@);
        let present = i < out.len() && str_equal(out[i].as_str(), x.as_str());
        proof {
            assert(lowercased(required@.take(k + 1)) =~= lowercased(required@.take(k as int)).push(x@));
        }
        if !present {
            proof {
                if i < out@.len() {
                    lemma_text_lt_total(out@[i as int]@, x@);
                    assert forall|j: int| i <= j < out@.len() implies text_lt(x@, #[trigger] before[j]) by {
                        if j > i {
                            lemma_bytes_lt_transitive(encode_utf8(x@), encode_utf8(before[i as int]), encode_utf8(before[j]));
                        }
                    }
                }
            }
            out.insert(i, x);
            proof {
                let after = string_views(out@);
                assert(after =~= before.insert(i as int, x@));
                assert forall|a: int, b: int| 0 <= a < b < after.len() implies text_lt(#[trigger] after[a], #[trigger] after[b]) by {
                    if b < i {
                    } else if a < i && b == i {
                    } else if a < i {
                        assert(after[b] == before[b - 1]);
                        lemma_bytes_lt_transitive(encode_utf8(before[a]), encode_utf8(x@), encode_utf8(before[b - 1]));
                    } else if a == i {
                        assert(after[b] == before[b - 1]);
                    } else {
                        assert(after[a] == before[a - 1]);
                        assert(after[b] == before[b - 1]);
                    }
                }
                assert forall|y: Seq<char>| after.contains(y) <==> before.contains(y) || y == x@ by {
                    if after.contains(y) {
                        let t = choose|t: int| 0 <= t < after.len() && after[t] == y;
                        if t < i {
                            assert(before[t] == y);
                        } else if t > i {
                            assert(before[t - 1] == y);
                        }
                    }
                    if before.contains(y) {
                        let t = choose|t: int| 0 <= t < before.len() && before[t] == y;
                        if t < i {
                            assert(after[t] == y);
                        } else {
                            assert(after[t + 1] == y);
                        }
                    }
                    if y == x@ {
                        assert(after[i as int] == y);
                    }
                }
            }
        } else {
            proof {
                assert(before[i as int] == x@);
            }
        }
        proof {
            let l = lowercased(required@.take(k as int));
            lemma_push_contains(l, x@);
            if present {
                assert(string_views(out@) == before);
            }
            assert forall|y: Seq<char>| string_views(out@).contains(y) <==> lowercased(required@.take(k + 1)).contains(y) by {
                assert(string_views(out@).contains(y) <==> before.contains(y) || y == x@);
                assert(before.contains(y) <==> l.contains(y));
            }
        }
        k = k + 1;
    }
    proof {
        assert(required@.take(required@.len() as int) =~= required@);
    }
    out
}

/// Whether the entry `e` can claim the required type `k`: it lists a
/// resource, and its name is `k` but for case.
pub open spec fn claims(e: (String, Vec<DscResource>), k: Seq<char>) -> bool {
    e.1@.len() > 0 && lowercase(e.0@) == k
}

/// The position of the first entry that can claim `k`, or -1.
pub open spec fn first_claimant(entries: Seq<(String, Vec<DscResource>)>, k: Seq<char>) -> int
    decreases entries.len(),
{
    if entries.len() == 0 {
        -1
    } else {
        let p = first_claimant(entries.drop_last(), k);
        if p >= 0 {
            p
        } else if claims(entries.last(), k) {
            entries.len() - 1
        } else {
            -1
        }
    }
}

/// The required types of `remaining` that no entry claims, in order.
pub open spec fn unclaimed(remaining: Seq<Seq<char>>, entries: Seq<(String, Vec<DscResource>)>) -> Seq<Seq<char>>
    decreases remaining.len(),
{
    if remaining.len() == 0 {
        Seq::empty()
    } else {
        let p = unclaimed(remaining.drop_last(), entries);
        if first_claimant(entries, remaining.last()) < 0 {
            p.push(remaining.last())
        } else {
            p
        }
    }
}

/// `s` without the texts equal to `k`.
pub open spec fn without(s: Seq<Seq<char>>, k: Seq<char>) -> Seq<Seq<char>>
    decreases s.len(),
{
    if s.len() == 0 {
        Seq::empty()
    } else {
        let p = without(s.drop_last(), k);
        if s.last() != k {
            p.push(s.last())
        } else {
            p
        }
    }
}

/// Whether `k` is a required type of `remaining` that an entry claims.
pub open spec fn claimed(entries: Seq<(String, Vec<DscResource>)>, remaining: Seq<Seq<char>>, k: Seq<char>) -> bool {
    remaining.contains(k) && first_claimant(entries, k) >= 0
}

/// Whether an entry claims some required type of `remaining`.
pub open spec fn claims_any(entries: Seq<(String, Vec<DscResource>)>, remaining: Seq<Seq<char>>) -> bool {
    exists|j: int| 0 <= j < remaining.len() && first_claimant(entries, #[trigger] remaining[j]) >= 0
}

/// Whether the adapter `adapter` gets recorded: one is given, and an entry
/// claimed a required type.
pub open spec fn adapter_recorded(entries: Seq<(String, Vec<DscResource>)>, remaining: Seq<Seq<char>>, adapter: Option<(Seq<char>, DscResource)>, k: Seq<char>) -> bool {
    adapter matches Some(a) && claims_any(entries, remaining) && k == a.0
}

/// What claiming with `entries` leaves found: each claimed type as the
/// first resource of the first entry that claims it; the adapter, where one
/// is given and anything was claimed, under its lower-case name; and all
/// else as before.
pub open spec fn found_post(
    entries: Seq<(String, Vec<DscResource>)>,
    adapter: Option<(Seq<char>, DscResource)>,
    old_rem: Seq<Seq<char>>,
    old_found: Seq<(String, DscResource)>,
    new_found: Seq<(String, DscResource)>,
) -> bool {
    &&& forall|k: Seq<char>| #![trigger member_value(new_found, k)]
        claimed(entries, old_rem, k) && !adapter_recorded(entries, old_rem, adapter, k) ==> (member_value(new_found, k) matches Some(v)
            && resource_same(v, entries[first_claimant(entries, k)].1@[0]))
    &&& forall|k: Seq<char>| #![trigger member_value(new_found, k)]
        adapter_recorded(entries, old_rem, adapter, k) ==> (adapter matches Some(a) && member_value(new_found, k) matches Some(v)
            && resource_same(v, a.1))
    &&& forall|k: Seq<char>| #![trigger member_value(new_found, k)]
        !claimed(entries, old_rem, k) && !adapter_recorded(entries, old_rem, adapter, k) ==> member_value(new_found, k) == member_value(old_found, k)
}

/// What claiming the required types `old_rem` with `entries` leaves: the
/// types no entry claims, in order, and what `found_post` says is found.
pub open spec fn claim_post(
    entries: Seq<(String, Vec<DscResource>)>,
    adapter: Option<(Seq<char>, DscResource)>,
    old_rem: Seq<Seq<char>>,
    new_rem: Seq<Seq<char>>,
    old_found: Seq<(String, DscResource)>,
    new_found: Seq<(String, DscResource)>,
) -> bool {
    &&& new_rem == unclaimed(old_rem, entries)
    &&& found_post(entries, adapter, old_rem, old_found, new_found)
}

/// Where the first claimant lies once an entry is appended.
pub proof fn lemma_first_claimant_push(entries: Seq<(String, Vec<DscResource>)>, e: (String, Vec<DscResource>), k: Seq<char>)
    ensures
        first_claimant(entries.push(e), k) == if first_claimant(entries, k) >= 0 {
            first_claimant(entries, k)
        } else if claims(e, k) {
            entries.len() as int
        } else {
            -1
        },
{
    assert(entries.push(e).drop_last() =~= entries);
}

/// The first claimant of a type, where there is one, is an entry that
/// claims it.
pub proof fn lemma_first_claimant_claims(entries: Seq<(String, Vec<DscResource>)>, k: Seq<char>)
    ensures
        -1 <= first_claimant(entries, k) < entries.len(),
        first_claimant(entries, k) >= 0 ==> claims(entries[first_claimant(entries, k)], k),
    decreases entries.len(),
{
    if entries.len() > 0 {
        lemma_first_claimant_claims(entries.drop_last(), k);
        let p = first_claimant(entries.drop_last(), k);
        if p >= 0 {
            assert(entries.drop_last()[p] == entries[p]);
        }
    }
}

/// A type is left unclaimed when it was required and no entry claims it.
pub proof fn lemma_unclaimed_contains(remaining: Seq<Seq<char>>, entries: Seq<(String, Vec<DscResource>)>, x: Seq<char>)
    ensures
        unclaimed(remaining, entries).contains(x) <==> remaining.contains(x) && first_claimant(entries, x) < 0,
    decreases remaining.len(),
{
    if remaining.len() > 0 {
        let d = remaining.drop_last();
        lemma_unclaimed_contains(d, entries, x);
        let p = unclaimed(d, entries);
        if remaining.contains(x) {
            let t = choose|t: int| 0 <= t < remaining.len() && remaining[t] == x;
            if t < remaining.len() - 1 {
                assert(d[t] == x);
            }
        }
        if d.contains(x) {
            let t = choose|t: int| 0 <= t < d.len() && d[t] == x;
            assert(remaining[t] == x);
        }
        if first_claimant(entries, remaining.last()) < 0 {
            if p.push(remaining.last()).contains(x) {
                let t = choose|t: int| 0 <= t < p.push(remaining.last()).len() && p.push(remaining.last())[t] == x;
                if t < p.len() {
                    assert(p[t] == x);
                }
            }
            if p.contains(x) {
                let t = choose|t: int| 0 <= t < p.len() && p[t] == x;
                assert(p.push(remaining.last())[t] == x);
            }
            if x == remaining.last() {
                assert(p.push(remaining.last())[p.len() as int] == x);
            }
        }
    } else {
        assert(!remaining.contains(x));
    }
}

/// Removing a text that is not there changes nothing.
pub proof fn lemma_without_absent(s: Seq<Seq<char>>, k: Seq<char>)
    requires
        !s.contains(k),
    ensures
        without(s, k) == s,
    decreases s.len(),
{
    if s.len() > 0 {
        let d = s.drop_last();
        if d.contains(k) {
            let t = choose|t: int| 0 <= t < d.len() && d[t] == k;
            assert(s[t] == k);
        }
        lemma_without_absent(d, k);
        assert(s.last() != k);
        assert(d.push(s.last()) =~= s);
    }
}

/// What appending an entry leaves unclaimed: where it lists a resource,
/// its type is claimed too; else nothing changes.
pub proof fn lemma_unclaimed_push(remaining: Seq<Seq<char>>, entries: Seq<(String, Vec<DscResource>)>, e: (String, Vec<DscResource>))
    ensures
        unclaimed(remaining, entries.push(e)) == if e.1@.len() > 0 {
            without(unclaimed(remaining, entries), lowercase(e.0@))
        } else {
            unclaimed(remaining, entries)
        },
    decreases remaining.len(),
{
    if remaining.len() > 0 {
        let d = remaining.drop_last();
        let l = remaining.last();
        lemma_unclaimed_push(d, entries, e);
        lemma_first_claimant_push(entries, e, l);
        let p = unclaimed(d, entries);
        if first_claimant(entries, l) < 0 {
            assert(p.push(l).drop_last() =~= p);
        }
    }
}

/// An entry can claim a type of `remaining` once one is appended exactly
/// when it could before, or the appended entry claims one.
pub proof fn lemma_claims_any_push(entries: Seq<(String, Vec<DscResource>)>, remaining: Seq<Seq<char>>, e: (String, Vec<DscResource>))
    ensures
        claims_any(entries.push(e), remaining) <==> claims_any(entries, remaining) || (e.1@.len() > 0 && remaining.contains(lowercase(e.0@))),
{
    if claims_any(entries.push(e), remaining) {
        let j = choose|j: int| 0 <= j < remaining.len() && first_claimant(entries.push(e), #[trigger] remaining[j]) >= 0;
        lemma_first_claimant_push(entries, e, remaining[j]);
        if first_claimant(entries, remaining[j]) < 0 {
            assert(remaining[j] == lowercase(e.0@));
        }
    }
    if claims_any(entries, remaining) {
        let j = choose|j: int| 0 <= j < remaining.len() && first_claimant(entries, #[trigger] remaining[j]) >= 0;
        lemma_first_claimant_push(entries, e, remaining[j]);
    }
    if e.1@.len() > 0 && remaining.contains(lowercase(e.0@)) {
        let j = choose|j: int| 0 <= j < remaining.len() && remaining[j] == lowercase(e.0@);
        lemma_first_claimant_push(entries, e, remaining[j]);
    }
}

fn contains_text(v: &Vec<String>, k: &String) -> (r: bool)
    ensures
        r == string_views(v@).contains(k@),
{
    let mut j: usize = 0;
    while j < v.len()
        invariant
            j <= v@.len(),
            forall|t: int| 0 <= t < j ==> (#[trigger] v@[t])@ != k@,
        decreases v@.len() - j,
    {
        if str_equal(v[j].as_str(), k.as_str()) {
            proof {
                assert(string_views(v@)[j as int] == k@);
            }
            return true;
        }
        j = j + 1;
    }
    proof {
        if string_views(v@).contains(k@) {
            let t = choose|t: int| 0 <= t < string_views(v@).len() && string_views(v@)[t] == k@;
            assert(v@[t]@ == k@);
        }
    }
    false
}

fn remove_text(v: &mut Vec<String>, k: &String)
    ensures
        string_views(final(v)@) == without(string_views(old(v)@), k@),
{
    let ghost all = string_views(v@);
    let mut out: Vec<String> = Vec::new();
    let mut j: usize = 0;
    while j < v.len()
        invariant
            j <= v@.len(),
            all == string_views(v@),
            string_views(out@) == without(all.take(j as int), k@),
        decreases v@.len() - j,
    {
        assert(all.take(j + 1).drop_last() =~= all.take(j as int));
        if !str_equal(v[j].as_str(), k.as_str()) {
            let t = v[j].clone();
            out.push(t);
            assert(string_views(out@) =~= without(all.take(j as int), k@).push(all[j as int]));
        }
        j = j + 1;
    }
    assert(all.take(v@.len() as int) =~= all);
    *v = out;
}

/// The adapter as the claims see it: its lower-case name and the resource.
pub open spec fn adapter_view(adapter: Option<(&String, &DscResource)>) -> Option<(Seq<char>, DscResource)> {
    match adapter {
        Some((n, r)) => Some((lowercase(n@), *r)),
        None => None,
    }
}

/// Claims required types with the resources of `entries`, in order: an
/// entry that lists a resource and whose name, lower-cased, is still in
/// `remaining` takes that type out of `remaining` and records its first
/// resource in `found` under the lower-cased name, and with it the adapter
/// where one is given. Gives whether nothing remains.
pub fn claim_resources(
    entries: &Vec<(String, Vec<DscResource>)>,
    adapter: Option<(&String, &DscResource)>,
    remaining: &mut Vec<String>,
    found: &mut Vec<(String, DscResource)>,
) -> (done: bool)
    ensures
        claim_post(entries@, adapter_view(adapter), string_views(old(remaining)@), string_views(final(remaining)@), old(found)@, final(found)@),
        done == (final(remaining)@.len() == 0),
{
    let ghost r0 = string_views(remaining@);
    let ghost f0 = found@;
    let ghost av = adapter_view(adapter);
    proof {
        assert(entries@.take(0) =~= Seq::<(String, Vec<DscResource>)>::empty());
        assert forall|x: Seq<char>| first_claimant(entries@.take(0), x) == -1 by {}
        assert(unclaimed(r0, entries@.take(0)) =~= r0) by {
            lemma_unclaimed_all(r0, entries@.take(0));
        }
    }
    let mut i: usize = 0;
    while i < entries.len()
        invariant
            i <= entries@.len(),
            av == adapter_view(adapter),
            claim_post(entries@.take(i as int), av, r0, string_views(remaining@), f0, found@),
        decreases entries@.len() - i,
    {
        let ghost pre = entries@.take(i as int);
        let ghost e = entries@[i as int];
        let ghost old_found = found@;
        let ghost old_rem = string_views(remaining@);
        proof {
            assert(entries@.take(i + 1) =~= pre.push(e));
            lemma_unclaimed_push(r0, pre, e);
            lemma_claims_any_push(pre, r0, e);
        }
        if entries[i].1.len() > 0 {
            let k = to_lowercase(entries[i].0.as_str());
            if contains_text(remaining, &k) {
                proof {
                    lemma_unclaimed_contains(r0, pre, k@);
                    lemma_first_claimant_push(pre, e, k@);
                }
                remove_text(remaining, &k);
                let copy = entries[i].1[0].deep_copy();
                let ghost kv = k@;
                put_member(found, k, copy);
                proof {
                    assert forall|x: Seq<char>| #[trigger] member_value(found@, x) == if x == kv { Some(copy) } else { member_value(old_found, x) } by {
                        lemma_put_then_get(old_found, k, copy, x);
                    }
                }
                if let Some((an, ad)) = adapter {
                    let la = to_lowercase(an.as_str());
                    let acopy = ad.deep_copy();
                    let ghost mid = found@;
                    let ghost lav = la@;
                    put_member(found, la, acopy);
                    proof {
                        assert forall|x: Seq<char>| #[trigger] member_value(found@, x) == if x == lav { Some(acopy) } else { member_value(mid, x) } by {
                            lemma_put_then_get(mid, la, acopy, x);
                        }
                    }
                }
                proof {
                    lemma_claim_step(pre, e, av, r0, f0, old_found, found@, kv);
                }
            } else {
                proof {
                    lemma_unclaimed_contains(r0, pre, k@);
                    lemma_without_absent(old_rem, k@);
                    lemma_no_claim_step(pre, e, av, r0, f0, found@);
                }
            }
        } else {
            proof {
                lemma_no_claim_step(pre, e, av, r0, f0, found@);
            }
        }
        i = i + 1;
    }
    proof {
        assert(entries@.take(entries@.len() as int) =~= entries@);
    }
    remaining.len() == 0
}

/// Nothing is claimed by no entries.
proof fn lemma_unclaimed_all(remaining: Seq<Seq<char>>, entries: Seq<(String, Vec<DscResource>)>)
    requires
        entries.len() == 0,
    ensures
        unclaimed(remaining, entries) == remaining,
    decreases remaining.len(),
{
    if remaining.len() > 0 {
        lemma_unclaimed_all(remaining.drop_last(), entries);
        assert(remaining.drop_last().push(remaining.last()) =~= remaining);
    }
}

/// An appended entry that claims no type left unclaimed leaves what is
/// found as it was.
proof fn lemma_no_claim_step(
    pre: Seq<(String, Vec<DscResource>)>,
    e: (String, Vec<DscResource>),
    av: Option<(Seq<char>, DscResource)>,
    r0: Seq<Seq<char>>,
    f0: Seq<(String, DscResource)>,
    found: Seq<(String, DscResource)>,
)
    requires
        found_post(pre, av, r0, f0, found),
        !(e.1@.len() > 0 && r0.contains(lowercase(e.0@)) && first_claimant(pre, lowercase(e.0@)) < 0),
    ensures
        found_post(pre.push(e), av, r0, f0, found),
{
    lemma_claims_any_push(pre, r0, e);
    assert forall|x: Seq<char>| #![trigger member_value(found, x)]
        claimed(pre.push(e), r0, x) == claimed(pre, r0, x)
        && (claimed(pre, r0, x) ==> first_claimant(pre.push(e), x) == first_claimant(pre, x))
        && adapter_recorded(pre.push(e), r0, av, x) == adapter_recorded(pre, r0, av, x) by {
        lemma_first_claimant_push(pre, e, x);
    }
    assert forall|x: Seq<char>| #![trigger member_value(found, x)]
        claimed(pre, r0, x) ==> pre.push(e)[first_claimant(pre, x)] == pre[first_claimant(pre, x)] by {
        lemma_first_claimant_claims(pre, x);
    }
}

/// An appended entry that claims the type `kv`, with the resources found
/// for it (and the adapter) put in, leaves what `found_post` says.
proof fn lemma_claim_step(
    pre: Seq<(String, Vec<DscResource>)>,
    e: (String, Vec<DscResource>),
    av: Option<(Seq<char>, DscResource)>,
    r0: Seq<Seq<char>>,
    f0: Seq<(String, DscResource)>,
    old_found: Seq<(String, DscResource)>,
    new_found: Seq<(String, DscResource)>,
    kv: Seq<char>,
)
    requires
        found_post(pre, av, r0, f0, old_found),
        e.1@.len() > 0,
        lowercase(e.0@) == kv,
        r0.contains(kv),
        first_claimant(pre, kv) < 0,
        forall|x: Seq<char>| #![trigger member_value(new_found, x)]
            (av matches Some(a) && x == a.0) ==> (av matches Some(a) && member_value(new_found, x) matches Some(v) && resource_same(v, a.1)),
        forall|x: Seq<char>| #![trigger member_value(new_found, x)]
            !(av matches Some(a) && x == a.0) && x == kv ==> (member_value(new_found, x) matches Some(v) && resource_same(v, e.1@[0])),
        forall|x: Seq<char>| #![trigger member_value(new_found, x)]
            !(av matches Some(a) && x == a.0) && x != kv ==> member_value(new_found, x) == member_value(old_found, x),
    ensures
        found_post(pre.push(e), av, r0, f0, new_found),
{
    lemma_claims_any_push(pre, r0, e);
    lemma_first_claimant_push(pre, e, kv);
    assert forall|x: Seq<char>| #![trigger member_value(new_found, x)]
        claimed(pre.push(e), r0, x) == (claimed(pre, r0, x) || x == kv)
        && (claimed(pre, r0, x) ==> first_claimant(pre.push(e), x) == first_claimant(pre, x)
            && pre.push(e)[first_claimant(pre, x)] == pre[first_claimant(pre, x)])
        && (adapter_recorded(pre, r0, av, x) ==> adapter_recorded(pre.push(e), r0, av, x))
        && adapter_recorded(pre.push(e), r0, av, x) == (av matches Some(a) && x == a.0) by {
        lemma_first_claimant_push(pre, e, x);
        lemma_first_claimant_claims(pre, x);
    }
    assert(pre.push(e)[pre.len() as int] == e);
}

/// A search for the resources that a configuration requires: what is
/// still to be found, what was found under each lower-case type, the
/// adapters in the order they are tried, and the next one to try.
pub struct ResourceSearch {
    pub remaining: Vec<String>,
    pub found: Vec<(String, DscResource)>,
    pub adapters: Vec<(String, Vec<DscResource>)>,
    pub next: usize,
}

/// What a step of the search asks for.
#[derive(Debug, Clone, Copy, PartialEq, Eq, Structural)]
pub enum SearchStep {
    /// The search is over: all was found, or no adapter is left.
    Finished,
    /// The adapter tried had no versions; step again.
    Skipped,
    /// The resources that the adapter at this position lists are needed:
    /// list them and hand them to `adapted_listed`.
    ListAdapted(usize),
}

/// What a step of the search does (see `ResourceSearch::step`).
pub open spec fn step_post(old: ResourceSearch, new: ResourceSearch, r: SearchStep) -> bool {
    if old.remaining@.len() == 0 || old.next >= old.adapters@.len() {
        r is Finished && new == old
    } else {
        let e = old.adapters@[old.next as int];
        &&& new.adapters@ == old.adapters@
        &&& new.next == old.next + 1
        &&& if e.1@.len() == 0 {
            &&& r is Skipped
            &&& new.remaining@ == old.remaining@
            &&& new.found@ == old.found@
        } else {
            &&& claim_post(seq![e], None, string_views(old.remaining@), string_views(new.remaining@), old.found@, new.found@)
            &&& if new.remaining@.len() == 0 { r is Finished } else { r == SearchStep::ListAdapted(old.next) }
        }
    }
}

impl ResourceSearch {
    /// Starts a search for `remaining` (see `required_types`): the
    /// discovered resources claim what they can, and the adapters are put
    /// in the order in which they are tried for the rest.
    pub fn start(
        remaining: Vec<String>,
        resources: &Vec<(String, Vec<DscResource>)>,
        adapters: &Vec<(String, Vec<DscResource>)>,
        lookup_table: &Vec<(String, String)>,
    ) -> (s: Self)
        ensures
            claim_post(resources@, None, string_views(remaining@), string_views(s.remaining@), Seq::empty(), s.found@),
            entry_names(s.adapters@) == adapter_order(adapters@, s.remaining@, lookup_table@),
            forall|i: int| 0 <= i < s.adapters@.len() ==> listed_with(adapters@, #[trigger] s.adapters@[i]),
            s.next == 0,
    {
        let mut rem = remaining;
        let mut found: Vec<(String, DscResource)> = Vec::new();
        claim_resources(resources, None, &mut rem, &mut found);
        let sorted = linked_into_entries(sort_adapters_based_on_lookup_table(adapters, &rem, lookup_table));
        ResourceSearch { remaining: rem, found, adapters: sorted, next: 0 }
    }

    /// Tries the next adapter: one without versions is skipped; else it
    /// claims its own type, and then the resources it lists are asked for,
    /// unless nothing remains to be found.
    pub fn step(&mut self) -> (r: SearchStep)
        ensures
            step_post(*old(self), *final(self), r),
    {
        if self.remaining.len() == 0 || self.next >= self.adapters.len() {
            return SearchStep::Finished;
        }
        let at = self.next;
        self.next = at + 1;
        if self.adapters[at].1.len() == 0 {
            return SearchStep::Skipped;
        }
        let ghost before = self.adapters@;
        let entry = self.adapters.remove(at);
        let single = vec![entry];
        proof {
            assert(single@ =~= seq![before[at as int]]);
        }
        let done = claim_resources(&single, None, &mut self.remaining, &mut self.found);
        let mut single = single;
        let entry = single.pop().unwrap();
        self.adapters.insert(at, entry);
        proof {
            assert(self.adapters@ =~= before);
        }
        if done {
            SearchStep::Finished
        } else {
            SearchStep::ListAdapted(at)
        }
    }

    /// Hands the search the resources that the adapter at `at` listed:
    /// they claim what they can, each claim recording the adapter too.
    /// Gives whether nothing remains to be found.
    pub fn adapted_listed(&mut self, at: usize, adapted: &Vec<(String, Vec<DscResource>)>) -> (done: bool)
        requires
            at < old(self).adapters@.len(),
            old(self).adapters@[at as int].1@.len() > 0,
        ensures
            final(self).adapters@ == old(self).adapters@,
            final(self).next == old(self).next,
            claim_post(
                adapted@,
                Some((lowercase(old(self).adapters@[at as int].0@), old(self).adapters@[at as int].1@[0])),
                string_views(old(self).remaining@),
                string_views(final(self).remaining@),
                old(self).found@,
                final(self).found@,
            ),
            done == (final(self).remaining@.len() == 0),
    {
        let adapter = &self.adapters[at];
        claim_resources(adapted, Some((&adapter.0, &adapter.1[0])), &mut self.remaining, &mut self.found)
    }
}

} // verus!
