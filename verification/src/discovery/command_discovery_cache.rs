//! The resources, adapters, adapted resources and extensions found so far.

use vstd::prelude::*;

use crate::discovery::keys_unique;
use crate::discovery::ordered::{insert_new_entry, key_views, keys_sorted};
use crate::dscresources::dscresource::{resource_same, DscResource};
use crate::extensions::dscextension::DscExtension;
use crate::json::{find_key, find_member, lemma_find_key, lemma_find_key_push, lemma_same_names_find};

verus! {

/// The value stored under `key`, if any.
pub open spec fn lookup<T>(entries: Seq<(String, T)>, key: Seq<char>) -> Option<T> {
    let j = find_key(entries, key);
    if 0 <= j < entries.len() { Some(entries[j].1) } else { None }
}

/// Whether `map` is `old` with the entries of `new` put in, each replacing
/// the value of its name.
pub open spec fn extended<T>(map: Seq<(String, T)>, old: Seq<(String, T)>, new: Seq<(String, T)>) -> bool {
    forall|k: Seq<char>| #[trigger] lookup(map, k) == if find_key(new, k) >= 0 { lookup(new, k) } else { lookup(old, k) }
}

/// Extending a table loses no name: each name of the old table or of the
/// added entries has a value afterwards, so a table that held anything, or
/// was extended by anything, is not empty.
pub proof fn lemma_extending_keeps_every_name<T>(map: Seq<(String, T)>, old: Seq<(String, T)>, new: Seq<(String, T)>)
    requires
        extended(map, old, new),
    ensures
        forall|k: Seq<char>| find_key(old, k) >= 0 || find_key(new, k) >= 0 ==> #[trigger] lookup(map, k) is Some,
        old.len() > 0 || new.len() > 0 ==> map.len() > 0,
{
    assert forall|k: Seq<char>| find_key(old, k) >= 0 || find_key(new, k) >= 0 implies #[trigger] lookup(map, k) is Some by {
        lemma_find_key(old, k);
        lemma_find_key(new, k);
        assert(lookup(map, k) == if find_key(new, k) >= 0 { lookup(new, k) } else { lookup(old, k) });
    }
    if old.len() > 0 || new.len() > 0 {
        let k = if old.len() > 0 { old[0].0@ } else { new[0].0@ };
        lemma_find_key(old, k);
        lemma_find_key(new, k);
        lemma_find_key(map, k);
        if old.len() > 0 {
            assert(old[0].0@ == k);
        } else {
            assert(new[0].0@ == k);
        }
        assert(lookup(map, k) is Some);
    }
}

/// Extending a table leaves it empty exactly when it was empty and was
/// extended by nothing.
pub proof fn lemma_extended_empty_iff<T>(map: Seq<(String, T)>, old: Seq<(String, T)>, new: Seq<(String, T)>)
    requires
        extended(map, old, new),
    ensures
        map.len() == 0 <==> (old.len() == 0 && new.len() == 0),
{
    lemma_extending_keeps_every_name(map, old, new);
    if old.len() == 0 && new.len() == 0 && map.len() > 0 {
        let k = map[0].0@;
        lemma_find_key(map, k);
        lemma_find_key(old, k);
        lemma_find_key(new, k);
        assert(lookup(map, k) == if find_key(new, k) >= 0 { lookup(new, k) } else { lookup(old, k) });
    }
}

/// A table that started empty and was then only extended, by `writes` in
/// turn (`states` holds the table before and after each write), is empty
/// exactly when every write was empty.
pub proof fn lemma_empty_exactly_when_every_write_was_empty<T>(states: Seq<Seq<(String, T)>>, writes: Seq<Seq<(String, T)>>)
    requires
        states.len() == writes.len() + 1,
        states[0].len() == 0,
        forall|i: int| 0 <= i < writes.len() ==> #[trigger] extended(states[i + 1], states[i], writes[i]),
    ensures
        states.last().len() == 0 <==> forall|i: int| 0 <= i < writes.len() ==> #[trigger] writes[i].len() == 0,
    decreases writes.len(),
{
    if writes.len() > 0 {
        let n = writes.len() - 1;
        let s0 = states.drop_last();
        let w0 = writes.drop_last();
        assert forall|i: int| 0 <= i < w0.len() implies #[trigger] extended(s0[i + 1], s0[i], w0[i]) by {
            assert(extended(states[i + 1], states[i], writes[i]));
        }
        lemma_empty_exactly_when_every_write_was_empty(s0, w0);
        assert(extended(states[n + 1], states[n], writes[n]));
        lemma_extended_empty_iff(states[n + 1], states[n], writes[n]);
        assert(s0.last() == states[n]);
        if states.last().len() == 0 {
            assert forall|i: int| 0 <= i < writes.len() implies #[trigger] writes[i].len() == 0 by {
                if i < n {
                    assert(w0[i] == writes[i]);
                }
            }
        } else {
            if forall|i: int| 0 <= i < writes.len() ==> #[trigger] writes[i].len() == 0 {
                assert forall|i: int| 0 <= i < w0.len() implies #[trigger] w0[i].len() == 0 by {
                    assert(w0[i] == writes[i]);
                }
                assert(writes[n].len() == 0);
            }
        }
    }
}

/// Puts the entries of `new` into `map`, each replacing the value of its
/// name, as extending a `BTreeMap` does.
pub fn extend_map<T>(map: &mut Vec<(String, T)>, new: Vec<(String, T)>)
    requires
        keys_unique(old(map)@),
        keys_unique(new@),
    ensures
        keys_unique(final(map)@),
        keys_sorted(old(map)@) ==> keys_sorted(final(map)@),
        extended(final(map)@, old(map)@, new@),
{
    let ghost start = map@;
    let ghost all = new@;
    let mut rest = new;
    let total = rest.len();
    let mut i: usize = 0;
    proof {
        assert forall|k: Seq<char>| #[trigger] lookup(map@, k) == if find_key(all.take(0), k) >= 0 { lookup(all.take(0), k) } else { lookup(start, k) } by {
            assert(all.take(0).len() == 0);
        }
    }
    while rest.len() > 0
        invariant
            i + rest@.len() == all.len(),
            all.len() == total,
            rest@ == all.skip(i as int),
            keys_unique(all),
            keys_unique(map@),
            keys_sorted(start) ==> keys_sorted(map@),
            forall|k: Seq<char>| #[trigger] lookup(map@, k) == if find_key(all.take(i as int), k) >= 0 { lookup(all.take(i as int), k) } else { lookup(start, k) },
        decreases rest@.len(),
    {
        let (key, value) = rest.remove(0);
        let ghost e = all[i as int];
        assert(e == (key, value));
        let ghost before = map@;
        proof {
            lemma_find_key(before, key@);
            let t = all.take(i + 1);
            assert(t =~= all.take(i as int).push(e));
            lemma_find_key(all.take(i as int), key@);
            assert(find_key(all.take(i as int), key@) < 0) by {
                if find_key(all.take(i as int), key@) >= 0 {
                    let p = find_key(all.take(i as int), key@);
                    assert(all[p].0@ == all[i as int].0@);
                }
            }
        }
        match find_member(map, &key) {
            Some(j) => {
                map.set(j, (key, value));
                proof {
                    assert forall|t: int| 0 <= t < map@.len() implies (#[trigger] map@[t]).0@ == before[t].0@ by {}
                    assert forall|k: Seq<char>| #[trigger] find_key(map@, k) == find_key(before, k) by {
                        lemma_same_names_find(map@, before, k);
                    }
                    assert(keys_unique(map@)) by {
                        assert forall|a: int, b: int| 0 <= a < b < map@.len() implies (#[trigger] map@[a]).0@ != (#[trigger] map@[b]).0@ by {
                            assert(map@[a].0@ == before[a].0@);
                            assert(map@[b].0@ == before[b].0@);
                        }
                    }
                    assert(key_views(map@) =~= key_views(before));
                }
            },
            None => {
                insert_new_entry(map, key, value);
                proof {
                    assert forall|k: Seq<char>| #[trigger] lookup(map@, k) == lookup(before.push(e), k) by {
                        lemma_find_key_push(before, e, k);
                        lemma_find_key(before, k);
                    }
                }
            },
        }
        proof {
            assert(all.take(i + 1) =~= all.take(i as int).push(e));
            lemma_extend_step(start, all.take(i as int), e, before, map@);
        }
        i = i + 1;
        assert(rest@ =~= all.skip(i as int));
    }
    assert(all.take(i as int) =~= all);
}

proof fn lemma_extend_step<T>(
    start: Seq<(String, T)>,
    prev: Seq<(String, T)>,
    e: (String, T),
    before: Seq<(String, T)>,
    after: Seq<(String, T)>,
)
    requires
        find_key(prev, e.0@) < 0,
        forall|k: Seq<char>| #[trigger] lookup(before, k) == if find_key(prev, k) >= 0 { lookup(prev, k) } else { lookup(start, k) },
        (find_key(before, e.0@) >= 0 && after == before.update(find_key(before, e.0@), e))
            || (find_key(before, e.0@) < 0 && forall|k: Seq<char>| #[trigger] lookup(after, k) == lookup(before.push(e), k)),
    ensures
        forall|k: Seq<char>| #[trigger] lookup(after, k) == if find_key(prev.push(e), k) >= 0 { lookup(prev.push(e), k) } else { lookup(start, k) },
{
    lemma_find_key(before, e.0@);
    let j = find_key(before, e.0@);
    assert forall|k: Seq<char>| #[trigger] lookup(after, k) == if find_key(prev.push(e), k) >= 0 { lookup(prev.push(e), k) } else { lookup(start, k) } by {
        lemma_find_key_push(prev, e, k);
        lemma_find_key(before, k);
        lemma_find_key(prev, k);
        assert(lookup(before, k) == if find_key(prev, k) >= 0 { lookup(prev, k) } else { lookup(start, k) });
        if j >= 0 {
            assert forall|t: int| 0 <= t < after.len() implies (#[trigger] after[t]).0@ == before[t].0@ by {}
            lemma_same_names_find(after, before, k);
            let f = find_key(before, k);
            if f == j {
                assert(k == e.0@);
                assert(prev.push(e)[prev.len() as int] == e);
            } else if f >= 0 {
                assert(after[f] == before[f]);
                assert(k != e.0@);
                if find_key(prev, k) >= 0 {
                    assert(prev.push(e)[find_key(prev, k)] == prev[find_key(prev, k)]);
                }
            } else {
                assert(k != e.0@);
            }
        } else {
            lemma_find_key_push(before, e, k);
            let pushed = before.push(e);
            assert(lookup(after, k) == lookup(pushed, k));
            if k == e.0@ {
                assert(pushed[before.len() as int] == e);
                assert(prev.push(e)[prev.len() as int] == e);
            } else {
                if find_key(before, k) >= 0 {
                    assert(pushed[find_key(before, k)] == before[find_key(before, k)]);
                }
                if find_key(prev, k) >= 0 {
                    assert(prev.push(e)[find_key(prev, k)] == prev[find_key(prev, k)]);
                }
            }
        }
    }
}

/// Whether two lists of resources hold the same resources.
pub open spec fn resources_same(a: Seq<DscResource>, b: Seq<DscResource>) -> bool {
    a.len() == b.len() && forall|i: int| 0 <= i < a.len() ==> resource_same(#[trigger] a[i], b[i])
}

pub(crate) fn copy_resources(v: &Vec<DscResource>) -> (r: Vec<DscResource>)
    ensures
        resources_same(r@, v@),
{
    let mut out: Vec<DscResource> = Vec::new();
    let mut i: usize = 0;
    while i < v.len()
        invariant
            i <= v@.len(),
            out@.len() == i,
            forall|k: int| 0 <= k < i ==> resource_same(#[trigger] out@[k], v@[k]),
        decreases v@.len() - i,
    {
        out.push(v[i].deep_copy());
        i = i + 1;
    }
    out
}

fn copy_resource_map(m: &Vec<(String, Vec<DscResource>)>) -> (r: Vec<(String, Vec<DscResource>)>)
    ensures
        r@.len() == m@.len(),
        forall|i: int| 0 <= i < m@.len() ==> (#[trigger] r@[i]).0@ == m@[i].0@ && resources_same(r@[i].1@, m@[i].1@),
{
    let mut out: Vec<(String, Vec<DscResource>)> = Vec::new();
    let mut i: usize = 0;
    while i < m.len()
        invariant
            i <= m@.len(),
            out@.len() == i,
            forall|k: int| 0 <= k < i ==> (#[trigger] out@[k]).0@ == m@[k].0@ && resources_same(out@[k].1@, m@[k].1@),
        decreases m@.len() - i,
    {
        out.push((m[i].0.clone(), copy_resources(&m[i].1)));
        i = i + 1;
    }
    out
}

/// What discovery found so far, kept between operations.
pub struct DiscoveryCache {
    adapters: Vec<(String, Vec<DscResource>)>,
    resources: Vec<(String, Vec<DscResource>)>,
    extensions: Vec<(String, DscExtension)>,
    adapted_resources: Vec<(String, Vec<DscResource>)>,
}

impl DiscoveryCache {
    /// The adapters by type name.
    pub closed spec fn spec_adapters(&self) -> Seq<(String, Vec<DscResource>)> {
        self.adapters@
    }

    /// The resources by type name.
    pub closed spec fn spec_resources(&self) -> Seq<(String, Vec<DscResource>)> {
        self.resources@
    }

    /// The extensions by type name.
    pub closed spec fn spec_extensions(&self) -> Seq<(String, DscExtension)> {
        self.extensions@
    }

    /// The resources that adapters provide, by type name.
    pub closed spec fn spec_adapted_resources(&self) -> Seq<(String, Vec<DscResource>)> {
        self.adapted_resources@
    }

    /// No name occurs twice in any of the maps.
    pub closed spec fn wf(&self) -> bool {
        keys_unique(self.adapters@) && keys_unique(self.resources@) && keys_unique(self.extensions@) && keys_unique(self.adapted_resources@)
    }

    /// An empty cache.
    pub fn new() -> (r: Self)
        ensures
            r.wf(),
            r.spec_adapters().len() == 0,
            r.spec_resources().len() == 0,
            r.spec_extensions().len() == 0,
            r.spec_adapted_resources().len() == 0,
    {
        DiscoveryCache { adapters: Vec::new(), resources: Vec::new(), extensions: Vec::new(), adapted_resources: Vec::new() }
    }

    /// Whether no adapter was found yet.
    pub fn adapters_is_empty(&self) -> (r: bool)
        ensures
            r == (self.spec_adapters().len() == 0),
    {
        self.adapters.len() == 0
    }

    /// Whether no extension was found yet.
    pub fn extensions_is_empty(&self) -> (r: bool)
        ensures
            r == (self.spec_extensions().len() == 0),
    {
        self.extensions.len() == 0
    }

    /// Whether no resource was found yet.
    pub fn resources_is_empty(&self) -> (r: bool)
        ensures
            r == (self.spec_resources().len() == 0),
    {
        self.resources.len() == 0
    }

    /// Adds adapters, each replacing the entry of its name.
    pub fn extend_adapters(&mut self, new_adapters: Vec<(String, Vec<DscResource>)>)
        requires
            old(self).wf(),
            keys_unique(new_adapters@),
        ensures
            final(self).wf(),
            extended(final(self).spec_adapters(), old(self).spec_adapters(), new_adapters@),
            final(self).spec_resources() == old(self).spec_resources(),
            final(self).spec_extensions() == old(self).spec_extensions(),
            final(self).spec_adapted_resources() == old(self).spec_adapted_resources(),
    {
        extend_map(&mut self.adapters, new_adapters);
    }

    /// Adds resources, each replacing the entry of its name.
    pub fn extend_resources(&mut self, new_resources: Vec<(String, Vec<DscResource>)>)
        requires
            old(self).wf(),
            keys_unique(new_resources@),
        ensures
            final(self).wf(),
            extended(final(self).spec_resources(), old(self).spec_resources(), new_resources@),
            final(self).spec_adapters() == old(self).spec_adapters(),
            final(self).spec_extensions() == old(self).spec_extensions(),
            final(self).spec_adapted_resources() == old(self).spec_adapted_resources(),
    {
        extend_map(&mut self.resources, new_resources);
    }

    /// Adds adapted resources, each replacing the entry of its name.
    pub fn extend_adapted_resources(&mut self, new_adapted_resources: Vec<(String, Vec<DscResource>)>)
        requires
            old(self).wf(),
            keys_unique(new_adapted_resources@),
        ensures
            final(self).wf(),
            extended(final(self).spec_adapted_resources(), old(self).spec_adapted_resources(), new_adapted_resources@),
            final(self).spec_adapters() == old(self).spec_adapters(),
            final(self).spec_resources() == old(self).spec_resources(),
            final(self).spec_extensions() == old(self).spec_extensions(),
    {
        extend_map(&mut self.adapted_resources, new_adapted_resources);
    }

    /// Adds extensions, each replacing the entry of its name.
    pub fn extend_extensions(&mut self, new_extensions: Vec<(String, DscExtension)>)
        requires
            old(self).wf(),
            keys_unique(new_extensions@),
        ensures
            final(self).wf(),
            extended(final(self).spec_extensions(), old(self).spec_extensions(), new_extensions@),
            final(self).spec_adapters() == old(self).spec_adapters(),
            final(self).spec_resources() == old(self).spec_resources(),
            final(self).spec_adapted_resources() == old(self).spec_adapted_resources(),
    {
        extend_map(&mut self.extensions, new_extensions);
    }

    /// A copy of the versions of a resource type, if found.
    pub fn get_resource(&self, resource_type: &String) -> (r: Option<Vec<DscResource>>)
        ensures
            match (r, lookup(self.spec_resources(), resource_type@)) {
                (Some(v), Some(w)) => resources_same(v@, w@),
                (None, None) => true,
                _ => false,
            },
    {
        proof { lemma_find_key(self.resources@, resource_type@); }
        match find_member(&self.resources, resource_type) {
            Some(j) => Some(copy_resources(&self.resources[j].1)),
            None => None,
        }
    }

    /// A copy of the versions of an adapted resource type, if found.
    pub fn get_adapted_resource(&self, resource_type: &String) -> (r: Option<Vec<DscResource>>)
        ensures
            match (r, lookup(self.spec_adapted_resources(), resource_type@)) {
                (Some(v), Some(w)) => resources_same(v@, w@),
                (None, None) => true,
                _ => false,
            },
    {
        proof { lemma_find_key(self.adapted_resources@, resource_type@); }
        match find_member(&self.adapted_resources, resource_type) {
            Some(j) => Some(copy_resources(&self.adapted_resources[j].1)),
            None => None,
        }
    }

    /// A copy of the adapters.
    pub fn get_adapters(&self) -> (r: Vec<(String, Vec<DscResource>)>)
        ensures
            r@.len() == self.spec_adapters().len(),
            forall|i: int| 0 <= i < r@.len() ==> (#[trigger] r@[i]).0@ == self.spec_adapters()[i].0@ && resources_same(r@[i].1@, self.spec_adapters()[i].1@),
    {
        copy_resource_map(&self.adapters)
    }

    /// A copy of the resources.
    pub fn get_resources(&self) -> (r: Vec<(String, Vec<DscResource>)>)
        ensures
            r@.len() == self.spec_resources().len(),
            forall|i: int| 0 <= i < r@.len() ==> (#[trigger] r@[i]).0@ == self.spec_resources()[i].0@ && resources_same(r@[i].1@, self.spec_resources()[i].1@),
    {
        copy_resource_map(&self.resources)
    }

    /// A copy of the adapted resources.
    pub fn get_adapted_resources(&self) -> (r: Vec<(String, Vec<DscResource>)>)
        ensures
            r@.len() == self.spec_adapted_resources().len(),
            forall|i: int| 0 <= i < r@.len() ==> (#[trigger] r@[i]).0@ == self.spec_adapted_resources()[i].0@ && resources_same(r@[i].1@, self.spec_adapted_resources()[i].1@),
    {
        copy_resource_map(&self.adapted_resources)
    }

    /// The names of the extensions found.
    pub fn get_extension_names(&self) -> (r: Vec<String>)
        ensures
            r@.len() == self.spec_extensions().len(),
            forall|i: int| 0 <= i < r@.len() ==> (#[trigger] r@[i])@ == self.spec_extensions()[i].0@,
    {
        let mut out: Vec<String> = Vec::new();
        let mut i: usize = 0;
        while i < self.extensions.len()
            invariant
                i <= self.extensions@.len(),
                out@.len() == i,
                forall|k: int| 0 <= k < i ==> (#[trigger] out@[k])@ == self.extensions@[k].0@,
            decreases self.extensions@.len() - i,
        {
            out.push(self.extensions[i].0.clone());
            i = i + 1;
        }
        out
    }
}

} // verus!
