//! Finding resources and extensions: filters, the choice of a resource
//! version, the ordering of versions, and the cache of what was found.

use vstd::prelude::*;
use vstd::string::{StrSliceExecFns, StringExecFns};

use crate::discovery::discovery_trait::{exact_if_numeric, is_ascii_digit};
use crate::discovery::semver_calls::{
    semver_eq, semver_lt, semver_parses, semver_req_matches, semver_req_parses, version_equal, version_less, version_parses,
    version_req_matches, version_req_parses,
};
use crate::discovery::command_discovery_cache::{extend_map, extended, lookup};
use crate::discovery::ordered::{insert_new_entry, key_views, keys_sorted};
use crate::dscresources::dscresource::{resource_same, DscResource};
use crate::extensions::dscextension::{extension_same, Capability as ExtensionCapability, DscExtension};
use crate::strings::{lowercase, to_lowercase};
use crate::json::{find_key, find_member, lemma_find_key, lemma_find_key_push, lemma_same_names_find};

pub mod command_discovery;
pub mod command_discovery_cache;
pub mod discovery_trait;
pub mod powershell_discovery;
pub mod semver_calls;
pub mod required;
pub mod linked_calls;
pub mod ordered;
pub mod wildcard;
pub mod scan;

verus! {

/// A version that `semver` parses and that starts with a digit, made an
/// exact requirement; any other text as it is.
pub open spec fn fixed_semver(v: Seq<char>) -> Seq<char> {
    if semver_parses(v) { exact_if_numeric(v) } else { v }
}

/// A version made an exact requirement (`=` before it) when it is a valid
/// semantic version that starts with a digit.
pub fn fix_semver(version: &str) -> (r: String)
    ensures
        r@ == fixed_semver(version@),
{
    if version_parses(version) && version.unicode_len() > 0 {
        let c = version.get_char(0);
        if '0' <= c && c <= '9' {
            let mut e = String::from_str("=");
            e.append(version);
            proof {
                reveal_strlit("=");
                assert(e@ =~= seq!['='] + version@);
            }
            return e;
        }
    }
    String::from_str(version)
}

/// Whether resource `r` fits the requirement text `f`: by `semver` when
/// `f` parses as a requirement, else by equal version text.
pub open spec fn version_fits(r: DscResource, f: Seq<char>) -> bool {
    if semver_req_parses(f) {
        semver_parses(r.version@) && semver_req_matches(f, r.version@)
    } else {
        r.version@ == f
    }
}

/// The position of the resource that `find_resource` picks among the
/// versions of a type: the first, when no version is asked for; else the
/// first that fits the asked version made exact.
pub open spec fn pick_ok(rs: Seq<DscResource>, version: Option<Seq<char>>, r: Option<usize>) -> bool {
    match version {
        None => if rs.len() > 0 { r == Some(0usize) } else { r is None },
        Some(v) => {
            let f = fixed_semver(v);
            match r {
                Some(i) => i < rs.len() && version_fits(rs[i as int], f) && forall|j: int| 0 <= j < i ==> !version_fits(#[trigger] rs[j], f),
                None => forall|j: int| 0 <= j < rs.len() ==> !version_fits(#[trigger] rs[j], f),
            }
        },
    }
}

/// The position of the resource picked among the versions of a type.
pub fn select_resource(resources: &Vec<DscResource>, version: Option<&str>) -> (r: Option<usize>)
    ensures
        pick_ok(resources@, match version { Some(v) => Some(v@), None => None }, r),
{
    let v = match version {
        None => {
            return if resources.len() > 0 { Some(0) } else { None };
        },
        Some(v) => v,
    };
    let fixed = fix_semver(v);
    let by_req = version_req_parses(fixed.as_str());
    let mut i: usize = 0;
    while i < resources.len()
        invariant
            i <= resources@.len(),
            version == Some(v),
            fixed@ == fixed_semver(v@),
            by_req == semver_req_parses(fixed@),
            forall|j: int| 0 <= j < i ==> !version_fits(#[trigger] resources@[j], fixed@),
        decreases resources@.len() - i,
    {
        let fits = if by_req {
            version_parses(resources[i].version.as_str()) && version_req_matches(fixed.as_str(), resources[i].version.as_str())
        } else {
            resources[i].version == fixed
        };
        if fits {
            return Some(i);
        }
        i = i + 1;
    }
    None
}

/// The versions of a type that `insert_resource` keeps, by type name.
pub open spec fn map_get(entries: Seq<(String, Vec<DscResource>)>, key: Seq<char>) -> Option<Seq<DscResource>> {
    let j = find_key(entries, key);
    if 0 <= j < entries.len() { Some(entries[j].1@) } else { None }
}

/// Whether no two entries have the same name.
pub open spec fn keys_unique<T>(entries: Seq<(String, T)>) -> bool {
    forall|i: int, j: int| 0 <= i < j < entries.len() ==> (#[trigger] entries[i]).0@ != (#[trigger] entries[j]).0@
}

/// Whether insertion stops before version `i` of the list: both versions
/// parse and either they are equal (when duplicates are skipped) or the
/// listed one is older.
pub open spec fn stops_at(list: Seq<DscResource>, res: DscResource, skip: bool, i: int) -> bool {
    &&& semver_parses(list[i].version@)
    &&& semver_parses(res.version@)
    &&& ((skip && semver_eq(list[i].version@, res.version@)) || semver_lt(list[i].version@, res.version@))
}

/// Where a new version goes in a list ordered newest first: before the
/// first older one, or at the end; `None` when duplicates are skipped and
/// an equal version comes first.
pub open spec fn insert_position(list: Seq<DscResource>, res: DscResource, skip: bool) -> Option<int> {
    if exists|i: int| 0 <= i < list.len() && #[trigger] stops_at(list, res, skip, i) {
        let k = choose|i: int| 0 <= i < list.len() && #[trigger] stops_at(list, res, skip, i) && forall|j: int| 0 <= j < i ==> !#[trigger] stops_at(list, res, skip, j);
        if skip && semver_eq(list[k].version@, res.version@) { None } else { Some(k) }
    } else {
        Some(list.len() as int)
    }
}

/// Whether every version of the list parses.
pub open spec fn versions_parse(list: Seq<DscResource>) -> bool {
    forall|i: int| 0 <= i < list.len() ==> semver_parses(#[trigger] list[i].version@)
}

/// Whether the versions of the list come newest first: none is older than
/// one after it.
pub open spec fn newest_first(list: Seq<DscResource>) -> bool {
    forall|i: int, j: int| 0 <= i < j < list.len() ==> !semver_lt(#[trigger] list[i].version@, #[trigger] list[j].version@)
}

/// Whether `new` is `old` with `res` inserted at `k`.
pub open spec fn inserted_at(new: Seq<DscResource>, old: Seq<DscResource>, k: int, res: DscResource) -> bool {
    &&& new.len() == old.len() + 1
    &&& forall|j: int| 0 <= j < k ==> new[j] == old[j]
    &&& resource_same(new[k], res)
    &&& forall|j: int| k < j < new.len() ==> new[j] == old[j - 1]
}

/// What inserting `resource` into the versions by type `old` leaves: other
/// types as they were; a new type with just this version; else the version
/// inserted at its place (see `insert_position`), or nothing done when an
/// equal version is there and duplicates are skipped.
pub open spec fn insert_post(old: Seq<(String, Vec<DscResource>)>, new: Seq<(String, Vec<DscResource>)>, resource: DscResource, skip: bool) -> bool {
    &&& forall|k: Seq<char>| k != resource.resource_type@ ==> #[trigger] map_get(new, k) == map_get(old, k)
    &&& match map_get(old, resource.resource_type@) {
        None => map_get(new, resource.resource_type@) matches Some(l) && l.len() == 1 && resource_same(l[0], resource),
        Some(list) => match insert_position(list, resource, skip) {
            None => map_get(new, resource.resource_type@) == Some(list),
            Some(k) => map_get(new, resource.resource_type@) matches Some(l) && inserted_at(l, list, k, resource),
        },
    }
}

fn find_stop(list: &Vec<DscResource>, res: &DscResource, skip: bool) -> (r: usize)
    ensures
        r <= list@.len(),
        r < list@.len() ==> stops_at(list@, *res, skip, r as int),
        forall|j: int| 0 <= j < r ==> !#[trigger] stops_at(list@, *res, skip, j),
        r < list@.len() && semver_lt(list@[r as int].version@, res.version@) ==> {
            &&& !semver_lt(res.version@, list@[r as int].version@)
            &&& forall|c: Seq<char>| semver_parses(c) && !semver_lt(list@[r as int].version@, c)
                ==> #[trigger] semver_lt(c, res.version@) && !semver_lt(res.version@, c)
        },
{
    let mut i: usize = 0;
    while i < list.len()
        invariant
            i <= list@.len(),
            forall|j: int| 0 <= j < i ==> !#[trigger] stops_at(list@, *res, skip, j),
        decreases list@.len() - i,
    {
        if version_parses(list[i].version.as_str()) && version_parses(res.version.as_str()) {
            let eq = version_equal(list[i].version.as_str(), res.version.as_str());
            let less = version_less(list[i].version.as_str(), res.version.as_str());
            if (skip && eq) || less {
                return i;
            }
        }
        i = i + 1;
    }
    i
}

proof fn lemma_inserted_newest_first(old_l: Seq<DscResource>, new_l: Seq<DscResource>, k: int, res: DscResource)
    requires
        0 <= k <= old_l.len(),
        inserted_at(new_l, old_l, k, res),
        newest_first(old_l),
        versions_parse(old_l),
        forall|i: int| 0 <= i < k ==> !semver_lt(#[trigger] old_l[i].version@, res.version@),
        k < old_l.len() ==> !semver_lt(res.version@, old_l[k].version@),
        k < old_l.len() ==> forall|c: Seq<char>| semver_parses(c) && !semver_lt(old_l[k].version@, c)
            ==> #[trigger] semver_lt(c, res.version@) && !semver_lt(res.version@, c),
    ensures
        newest_first(new_l),
{
    assert forall|i: int, j: int| 0 <= i < j < new_l.len() implies !semver_lt(#[trigger] new_l[i].version@, #[trigger] new_l[j].version@) by {
        if j < k {
            assert(new_l[i] == old_l[i] && new_l[j] == old_l[j]);
        } else if j == k {
            assert(new_l[i] == old_l[i]);
        } else if i < k {
            assert(new_l[i] == old_l[i] && new_l[j] == old_l[j - 1]);
        } else if i == k {
            assert(new_l[j] == old_l[j - 1]);
            if j - 1 > k {
                let c = old_l[j - 1].version@;
                assert(semver_parses(old_l[j - 1].version@));
                assert(!semver_lt(old_l[k].version@, old_l[j - 1].version@));
                assert(semver_lt(c, res.version@) && !semver_lt(res.version@, c));
            }
        } else {
            assert(new_l[i] == old_l[i - 1] && new_l[j] == old_l[j - 1]);
        }
    }
}

/// Adds a resource to the versions of its type, kept newest first; a type
/// not seen before gets its own entry. With `skip_duplicate_version`, a
/// version already present is not added again.
pub fn insert_resource(resources: &mut Vec<(String, Vec<DscResource>)>, resource: &DscResource, skip_duplicate_version: bool)
    requires
        keys_unique(old(resources)@),
    ensures
        keys_unique(final(resources)@),
        keys_sorted(old(resources)@) ==> keys_sorted(final(resources)@),
        insert_post(old(resources)@, final(resources)@, *resource, skip_duplicate_version),
        semver_parses(resource.version@) && (map_get(old(resources)@, resource.resource_type@) matches Some(l) ==> versions_parse(l) && newest_first(l))
            ==> (map_get(final(resources)@, resource.resource_type@) matches Some(l2) && newest_first(l2)),
{
    let ghost old_entries = resources@;
    proof { lemma_find_key(resources@, resource.resource_type@); }
    match find_member(resources, &resource.resource_type) {
        None => {
            let mut list: Vec<DscResource> = Vec::new();
            list.push(resource.deep_copy());
            let ghost lv = list;
            insert_new_entry(resources, resource.resource_type.clone(), list);
            proof {
                assert forall|k: Seq<char>| k != resource.resource_type@ implies #[trigger] map_get(resources@, k) == map_get(old_entries, k) by {
                    assert(lookup(resources@, k) == lookup(old_entries, k));
                    lemma_find_key(resources@, k);
                    lemma_find_key(old_entries, k);
                }
                assert(lookup(resources@, resource.resource_type@) == Some(lv));
                lemma_find_key(resources@, resource.resource_type@);
            }
        },
        Some(idx) => {
            let stop = find_stop(&resources[idx].1, resource, skip_duplicate_version);
            let ghost list = resources@[idx as int].1@;
            proof {
                if exists|i: int| 0 <= i < list.len() && #[trigger] stops_at(list, *resource, skip_duplicate_version, i) {
                    let k = choose|i: int| 0 <= i < list.len() && #[trigger] stops_at(list, *resource, skip_duplicate_version, i) && forall|j: int| 0 <= j < i ==> !#[trigger] stops_at(list, *resource, skip_duplicate_version, j);
                    assert(stop < list.len()) by {
                        if stop >= list.len() {
                            assert(!stops_at(list, *resource, skip_duplicate_version, k));
                        }
                    }
                    assert(k == stop as int) by {
                        if k < stop {
                            assert(!stops_at(list, *resource, skip_duplicate_version, k));
                        } else if k > stop {
                            assert(!stops_at(list, *resource, skip_duplicate_version, stop as int));
                        }
                    }
                } else {
                    assert(stop == list.len()) by {
                        if stop < list.len() {
                            assert(stops_at(list, *resource, skip_duplicate_version, stop as int));
                        }
                    }
                }
            }
            if stop < resources[idx].1.len() && skip_duplicate_version
                && version_equal(resources[idx].1[stop].version.as_str(), resource.version.as_str()) {
                return;
            }
            let mut entry = resources.remove(idx);
            let copy = resource.deep_copy();
            let ghost cv = copy;
            entry.1.insert(stop, copy);
            resources.insert(idx, entry);
            proof {
                let nl = list.insert(stop as int, cv);
                assert(inserted_at(nl, list, stop as int, *resource)) by {
                    assert forall|j: int| stop < j < nl.len() implies nl[j] == list[j - 1] by {}
                }
                if semver_parses(resource.version@) && versions_parse(list) && newest_first(list) {
                    assert forall|i: int| 0 <= i < stop implies !semver_lt(#[trigger] list[i].version@, resource.version@) by {
                        assert(!stops_at(list, *resource, skip_duplicate_version, i));
                    }
                    if stop < list.len() {
                        assert(stops_at(list, *resource, skip_duplicate_version, stop as int));
                        assert(semver_lt(list[stop as int].version@, resource.version@));
                    }
                    lemma_inserted_newest_first(list, nl, stop as int, *resource);
                }
                assert(resources@[idx as int].1@ == nl);
                assert forall|j: int| 0 <= j < resources@.len() implies (#[trigger] resources@[j]).0@ == old_entries[j].0@ by {
                    if j != idx {
                        assert(resources@[j] == old_entries[j]);
                    }
                }
                assert forall|k: Seq<char>| #[trigger] find_key(resources@, k) == find_key(old_entries, k) by {
                    lemma_same_names_find(resources@, old_entries, k);
                }
                assert forall|k: Seq<char>| k != resource.resource_type@ implies #[trigger] map_get(resources@, k) == map_get(old_entries, k) by {
                    lemma_find_key(old_entries, k);
                    lemma_find_key(old_entries, resource.resource_type@);
                    if find_key(old_entries, k) >= 0 {
                        assert(find_key(old_entries, k) != idx);
                        assert(resources@[find_key(old_entries, k)] == old_entries[find_key(old_entries, k)]);
                    }
                }
                assert(keys_unique(resources@)) by {
                    assert forall|i: int, j: int| 0 <= i < j < resources@.len() implies (#[trigger] resources@[i]).0@ != (#[trigger] resources@[j]).0@ by {
                        assert(resources@[i].0@ == old_entries[i].0@);
                        assert(resources@[j].0@ == old_entries[j].0@);
                    }
                }
                assert(key_views(resources@) =~= key_views(old_entries));
            }
        },
    }
}

/// The versions of each type after `found` is merged in: those found for a
/// type are appended to those it had, in order.
pub open spec fn merged_view(old: Seq<(String, Vec<DscResource>)>, found: Seq<(String, Vec<DscResource>)>, k: Seq<char>) -> Option<Seq<DscResource>>
    decreases found.len(),
{
    if found.len() == 0 {
        map_get(old, k)
    } else {
        let prev = merged_view(old, found.drop_last(), k);
        if found.last().0@ == k {
            Some(
                match prev {
                    Some(p) => p + found.last().1@,
                    None => found.last().1@,
                },
            )
        } else {
            prev
        }
    }
}

fn append_versions(map: &mut Vec<(String, Vec<DscResource>)>, name: String, rs: Vec<DscResource>)
    requires
        keys_unique(old(map)@),
    ensures
        keys_unique(final(map)@),
        forall|k: Seq<char>| #[trigger] map_get(final(map)@, k) == if k == name@ {
            Some(
                match map_get(old(map)@, k) {
                    Some(p) => p + rs@,
                    None => rs@,
                },
            )
        } else {
            map_get(old(map)@, k)
        },
{
    let ghost old_entries = map@;
    let ghost key = name@;
    let ghost rs0 = rs@;
    proof {
        lemma_find_key(map@, name@);
    }
    match find_member(map, &name) {
        Some(j) => {
            let (n, mut v) = map.remove(j);
            let ghost v0 = v@;
            assert(v0 == old_entries[j as int].1@);
            let mut more = rs;
            v.append(&mut more);
            assert(v@ == v0 + rs0);
            map.insert(j, (n, v));
            proof {
                assert forall|t: int| 0 <= t < map@.len() implies (#[trigger] map@[t]).0@ == old_entries[t].0@ by {
                    if t < j {
                        assert(map@[t] == old_entries[t]);
                    } else if t > j {
                        assert(map@[t] == old_entries[t]);
                    }
                }
                assert forall|k: Seq<char>| #[trigger] map_get(map@, k) == if k == key {
                    Some(
                        match map_get(old_entries, k) {
                            Some(p) => p + rs0,
                            None => rs0,
                        },
                    )
                } else {
                    map_get(old_entries, k)
                } by {
                    lemma_same_names_find(map@, old_entries, k);
                    lemma_find_key(old_entries, k);
                    if find_key(old_entries, k) >= 0 && find_key(old_entries, k) != j {
                        assert(map@[find_key(old_entries, k)] == old_entries[find_key(old_entries, k)]);
                    }
                }
                assert(keys_unique(map@)) by {
                    assert forall|a: int, b: int| 0 <= a < b < map@.len() implies (#[trigger] map@[a]).0@ != (#[trigger] map@[b]).0@ by {
                        assert(map@[a].0@ == old_entries[a].0@);
                        assert(map@[b].0@ == old_entries[b].0@);
                    }
                }
            }
        },
        None => {
            let ghost e = (name, rs);
            map.push((name, rs));
            proof {
                assert(map@ == old_entries.push(e));
                assert forall|k: Seq<char>| #[trigger] map_get(map@, k) == if k == key {
                    Some(
                        match map_get(old_entries, k) {
                            Some(p) => p + e.1@,
                            None => e.1@,
                        },
                    )
                } else {
                    map_get(old_entries, k)
                } by {
                    lemma_find_key_push(old_entries, e, k);
                    lemma_find_key(old_entries, k);
                    if find_key(old_entries, k) >= 0 {
                        assert(map@[find_key(old_entries, k)] == old_entries[find_key(old_entries, k)]);
                    }
                }
                assert(keys_unique(map@)) by {
                    assert forall|a: int, b: int| 0 <= a < b < map@.len() implies (#[trigger] map@[a]).0@ != (#[trigger] map@[b]).0@ by {
                        assert(map@[a] == old_entries[a]);
                        if b < old_entries.len() {
                            assert(map@[b] == old_entries[b]);
                        }
                    }
                }
            }
        },
    }
}

/// The extensions, in order, that have the capability.
pub open spec fn with_capability(exts: Seq<(String, DscExtension)>, c: ExtensionCapability) -> Seq<DscExtension>
    decreases exts.len(),
{
    if exts.len() == 0 {
        Seq::empty()
    } else {
        let prev = with_capability(exts.drop_last(), c);
        if exts.last().1.capabilities@.contains(c) {
            prev.push(exts.last().1)
        } else {
            prev
        }
    }
}

/// What `find_resource` gives: none when no resource of the type (named
/// case-insensitively) is known; else the version that `pick_ok` picks.
pub open spec fn finds_resource(
    resources: Seq<(String, Vec<DscResource>)>,
    resource_type: Seq<char>,
    version: Option<Seq<char>>,
    r: Option<&DscResource>,
) -> bool {
    match map_get(resources, lowercase(resource_type)) {
        None => r is None,
        Some(rs) => match r {
            None => pick_ok(rs, version, None),
            Some(x) => exists|i: usize| pick_ok(rs, version, Some(i)) && *x == rs[i as int],
        },
    }
}

/// The resources and extensions found, by lower-case type name.
pub struct Discovery {
    pub resources: Vec<(String, Vec<DscResource>)>,
    pub extensions: Vec<(String, DscExtension)>,
}

impl Discovery {
    /// Nothing found yet.
    pub fn new() -> (r: Self)
        ensures
            r.resources@.len() == 0,
            r.extensions@.len() == 0,
    {
        Discovery { resources: Vec::new(), extensions: Vec::new() }
    }

    /// The extensions that have the capability, in order.
    pub fn get_extensions(&self, capability: ExtensionCapability) -> (r: Vec<DscExtension>)
        ensures
            r@.len() == with_capability(self.extensions@, capability).len(),
            forall|i: int| 0 <= i < r@.len() ==> extension_same(#[trigger] r@[i], with_capability(self.extensions@, capability)[i]),
    {
        let mut out: Vec<DscExtension> = Vec::new();
        let mut i: usize = 0;
        while i < self.extensions.len()
            invariant
                i <= self.extensions@.len(),
                out@.len() == with_capability(self.extensions@.take(i as int), capability).len(),
                forall|k: int| 0 <= k < out@.len() ==> extension_same(#[trigger] out@[k], with_capability(self.extensions@.take(i as int), capability)[k]),
            decreases self.extensions@.len() - i,
        {
            proof {
                let t = self.extensions@.take(i + 1);
                assert(t.drop_last() =~= self.extensions@.take(i as int));
                assert(t.last() == self.extensions@[i as int]);
            }
            if self.extensions[i].1.has_capability(capability) {
                out.push(self.extensions[i].1.deep_copy());
            }
            i = i + 1;
        }
        assert(self.extensions@.take(i as int) =~= self.extensions@);
        out
    }

    /// The resource of a type, named case-insensitively, in the version
    /// asked for (see `pick_ok`) among those found.
    pub fn find_resource(&self, resource_type: &str, version_string: Option<&str>) -> (r: Option<&DscResource>)
        ensures
            finds_resource(self.resources@, resource_type@, match version_string { Some(v) => Some(v@), None => None }, r),
    {
        let key = to_lowercase(resource_type);
        proof {
            lemma_find_key(self.resources@, key@);
        }
        match find_member(&self.resources, &key) {
            None => None,
            Some(j) => {
                let rs = &self.resources[j].1;
                match select_resource(rs, version_string) {
                    Some(i) => Some(&rs[i]),
                    None => None,
                }
            },
        }
    }

    /// Merges resources found: those of each type are appended to those it
    /// had.
    pub fn add_found_resources(&mut self, found: Vec<(String, Vec<DscResource>)>)
        requires
            keys_unique(old(self).resources@),
        ensures
            keys_unique(final(self).resources@),
            forall|k: Seq<char>| #[trigger] map_get(final(self).resources@, k) == merged_view(old(self).resources@, found@, k),
            final(self).extensions == old(self).extensions,
    {
        let ghost start = self.resources@;
        let ghost all = found@;
        let mut rest = found;
        let total = rest.len();
        let mut i: usize = 0;
        while rest.len() > 0
            invariant
                i + rest@.len() == all.len(),
                all.len() == total,
                rest@ == all.skip(i as int),
                keys_unique(self.resources@),
                forall|k: Seq<char>| #[trigger] map_get(self.resources@, k) == merged_view(start, all.take(i as int), k),
                self.extensions == old(self).extensions,
            decreases rest@.len(),
        {
            let (name, rs) = rest.remove(0);
            let ghost e = all[i as int];
            assert(e == (name, rs));
            let ghost before = self.resources@;
            append_versions(&mut self.resources, name, rs);
            proof {
                let t = all.take(i + 1);
                assert(t.drop_last() =~= all.take(i as int));
                assert(t.last() == e);
                assert forall|k: Seq<char>| #[trigger] map_get(self.resources@, k) == merged_view(start, t, k) by {
                    assert(map_get(before, k) == merged_view(start, all.take(i as int), k));
                }
            }
            i = i + 1;
            assert(rest@ =~= all.skip(i as int));
        }
        assert(all.take(i as int) =~= all);
    }

    /// Merges extensions found: each replaces the one of its name.
    pub fn add_found_extensions(&mut self, found: Vec<(String, DscExtension)>)
        requires
            keys_unique(old(self).extensions@),
            keys_unique(found@),
        ensures
            keys_unique(final(self).extensions@),
            keys_sorted(old(self).extensions@) ==> keys_sorted(final(self).extensions@),
            extended(final(self).extensions@, old(self).extensions@, found@),
            final(self).resources == old(self).resources,
    {
        extend_map(&mut self.extensions, found);
    }
}

/// Hands out copies of resources one by one.
pub struct ResourceIterator {
    resources: Vec<DscResource>,
    index: usize,
}

impl ResourceIterator {
    /// The resources still to be handed out.
    pub closed spec fn remaining(&self) -> Seq<DscResource> {
        self.resources@.skip(self.index as int)
    }

    /// Whether the position is within the list.
    pub closed spec fn wf(&self) -> bool {
        self.index <= self.resources@.len()
    }

    /// Hands out the resources in order.
    pub fn new(resources: Vec<DscResource>) -> (r: Self)
        ensures
            r.wf(),
            r.remaining() == resources@,
    {
        let r = ResourceIterator { resources, index: 0 };
        assert(r.resources@.skip(0) =~= r.resources@);
        r
    }

    /// A copy of the next resource, or `None` when all were handed out.
    pub fn next(&mut self) -> (r: Option<DscResource>)
        requires
            old(self).wf(),
        ensures
            final(self).wf(),
            old(self).remaining().len() == 0 ==> r is None && final(self).remaining() == old(self).remaining(),
            old(self).remaining().len() > 0 ==> (r matches Some(x) && resource_same(x, old(self).remaining()[0])
                && final(self).remaining() == old(self).remaining().drop_first()),
    {
        if self.index < self.resources.len() {
            let resource = self.resources[self.index].deep_copy();
            self.index = self.index + 1;
            assert(self.resources@.skip(self.index as int) =~= old(self).resources@.skip(old(self).index as int).drop_first());
            Some(resource)
        } else {
            None
        }
    }
}

} // verus!
