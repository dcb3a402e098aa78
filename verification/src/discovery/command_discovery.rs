use vstd::prelude::*;
use vstd::string::StringExecFns;
use vstd::utf8::encode_utf8;

use crate::discovery::discovery_trait::DiscoveryKind;
use crate::dscerror::DscError;
use crate::discovery::semver_calls::{parse_version_checked, semver_lt, semver_parses, version_less, version_parses};
use crate::dscresources::dscresource::{copy_opt_text, opt_text_eq, string_views, Capability, DscResource, ImplementedAs};
use crate::dscresources::resource_manifest::{Kind, ResourceManifest};
use crate::discovery::command_discovery_cache::{copy_resources, lookup, resources_same};
use crate::discovery::{insert_post, insert_resource, keys_unique};
use crate::discovery::ordered::{insert_new_entry, key_views, keys_sorted};
use crate::discovery::linked_calls::{linked_contains, linked_entries, linked_insert, linked_new, linked_put};
use linked_hash_map::LinkedHashMap;
use crate::json::{find_key, find_member, lemma_find_key, lemma_put_keeps_unique, lemma_put_then_get, member_value, put_member, JsonValue};
use crate::strings::{lowercase, str_equal, to_lowercase};
use crate::extensions::dscextension::{Capability as ExtensionCapability, DscExtension, ExtensionManifest};
use crate::strings::bytes_end_with;

verus! {

/// What a manifest file holds.
#[derive(Debug)]
pub enum ImportedManifest {
    Resource(DscResource),
    Extension(DscExtension),
}

/// Where resources are searched for.
#[derive(Debug)]
pub struct ResourcePathSetting {
    /// whether to allow overriding with the `DSC_RESOURCE_PATH` environment variable
    pub allow_env_override: bool,
    /// whether to append the PATH environment variable to the list of resource directories
    pub append_env_path: bool,
    /// array of directories that DSC should search for non-built-in resources
    pub directories: Vec<String>,
}

impl Default for ResourcePathSetting {
    fn default() -> (r: ResourcePathSetting)
        ensures
            r.allow_env_override,
            r.append_env_path,
            r.directories@.len() == 0,
    {
        ResourcePathSetting { allow_env_override: true, append_env_path: true, directories: Vec::new() }
    }
}

/// The file name endings of resource manifests.
pub open spec fn resource_suffixes() -> Seq<Seq<char>> {
    seq![".dsc.resource.json"@, ".dsc.resource.yaml"@, ".dsc.resource.yml"@]
}

/// The file name endings of extension manifests.
pub open spec fn extension_suffixes() -> Seq<Seq<char>> {
    seq![".dsc.extension.json"@, ".dsc.extension.yaml"@, ".dsc.extension.yml"@]
}

/// Whether a (lower-cased) file name ends with one of the endings.
pub open spec fn ends_with_one(name: Seq<char>, suffixes: Seq<Seq<char>>) -> bool {
    exists|i: int| 0 <= i < suffixes.len() && encode_utf8(#[trigger] suffixes[i]).is_suffix_of(encode_utf8(name))
}

fn ends_with_str(name: &str, suffix: &str) -> (r: bool)
    ensures
        r == encode_utf8(suffix@).is_suffix_of(encode_utf8(name@)),
{
    bytes_end_with(name.as_bytes(), suffix.as_bytes())
}

/// Whether a lower-cased file name is that of a manifest of the kind
/// looked for.
pub fn is_manifest_file(kind: DiscoveryKind, file_name_lowercase: &str) -> (r: bool)
    ensures
        r == match kind {
            DiscoveryKind::Resource => ends_with_one(file_name_lowercase@, resource_suffixes()),
            DiscoveryKind::Extension => ends_with_one(file_name_lowercase@, extension_suffixes()),
        },
{
    let (a, b, c) = match kind {
        DiscoveryKind::Resource => (".dsc.resource.json", ".dsc.resource.yaml", ".dsc.resource.yml"),
        DiscoveryKind::Extension => (".dsc.extension.json", ".dsc.extension.yaml", ".dsc.extension.yml"),
    };
    let ghost s = match kind {
        DiscoveryKind::Resource => resource_suffixes(),
        DiscoveryKind::Extension => extension_suffixes(),
    };
    assert(s[0] == a@ && s[1] == b@ && s[2] == c@);
    let r = ends_with_str(file_name_lowercase, a) || ends_with_str(file_name_lowercase, b) || ends_with_str(file_name_lowercase, c);
    proof {
        if !r {
            assert forall|i: int| 0 <= i < s.len() implies !encode_utf8(#[trigger] s[i]).is_suffix_of(encode_utf8(file_name_lowercase@)) by {
                if i == 0 {} else if i == 1 {} else {}
            }
        }
    }
    r
}

/// The paths in `paths` with later repeats removed.
pub open spec fn dedup_keep_first(paths: Seq<Seq<char>>) -> Seq<Seq<char>>
    decreases paths.len(),
{
    if paths.len() == 0 {
        Seq::empty()
    } else {
        let prev = dedup_keep_first(paths.drop_last());
        if prev.contains(paths.last()) { prev } else { prev.push(paths.last()) }
    }
}

/// The directories searched before deduplication: those of the override
/// variable when it is allowed and set; else the configured directories,
/// followed by those of `PATH` when that is asked for.
pub open spec fn raw_search_paths(setting_dirs: Seq<Seq<char>>, allow_override: bool, append_path: bool,
    override_dirs: Option<Seq<Seq<char>>>, env_path: Option<Seq<Seq<char>>>) -> Option<Seq<Seq<char>>> {
    if allow_override && override_dirs is Some {
        Some(override_dirs->Some_0)
    } else if append_path {
        match env_path {
            Some(p) => Some(setting_dirs + p),
            None => None,
        }
    } else {
        Some(setting_dirs)
    }
}

fn dedup_paths(paths: &Vec<String>) -> (r: Vec<String>)
    ensures
        string_views(r@) == dedup_keep_first(string_views(paths@)),
{
    let mut out: Vec<String> = Vec::new();
    let mut i: usize = 0;
    while i < paths.len()
        invariant
            i <= paths@.len(),
            string_views(out@) == dedup_keep_first(string_views(paths@.take(i as int))),
        decreases paths@.len() - i,
    {
        proof {
            assert(string_views(paths@.take(i + 1)).drop_last() =~= string_views(paths@.take(i as int)));
            assert(string_views(paths@.take(i + 1)).last() == paths@[i as int]@);
        }
        let mut seen = false;
        let mut k: usize = 0;
        while k < out.len()
            invariant
                k <= out@.len(),
                seen == exists|t: int| 0 <= t < k && (#[trigger] out@[t])@ == paths@[i as int]@,
                i < paths@.len(),
            decreases out@.len() - k,
        {
            if out[k] == paths[i] {
                seen = true;
            }
            k = k + 1;
        }
        let ghost before = out@;
        proof {
            let sv = string_views(out@);
            if seen {
                let t = choose|t: int| 0 <= t < out@.len() && (#[trigger] out@[t])@ == paths@[i as int]@;
                assert(sv[t] == paths@[i as int]@);
                assert(sv.contains(paths@[i as int]@));
            } else {
                assert(!sv.contains(paths@[i as int]@)) by {
                    if sv.contains(paths@[i as int]@) {
                        let t = choose|t: int| 0 <= t < sv.len() && sv[t] == paths@[i as int]@;
                        assert(out@[t]@ == paths@[i as int]@);
                    }
                }
            }
        }
        if !seen {
            out.push(paths[i].clone());
            assert(string_views(out@) =~= string_views(before).push(paths@[i as int]@));
        }
        i = i + 1;
    }
    assert(paths@.take(paths@.len() as int) =~= paths@);
    out
}

fn copy_all(v: &Vec<String>, out: &mut Vec<String>)
    ensures
        string_views(final(out)@) == string_views(old(out)@) + string_views(v@),
{
    let ghost start = out@;
    let mut i: usize = 0;
    while i < v.len()
        invariant
            i <= v@.len(),
            string_views(out@) == string_views(start) + string_views(v@.take(i as int)),
        decreases v@.len() - i,
    {
        let ghost before = out@;
        out.push(v[i].clone());
        assert(string_views(out@) =~= string_views(before).push(v@[i as int]@));
        assert(string_views(v@.take(i + 1)) =~= string_views(v@.take(i as int)).push(v@[i as int]@));
        i = i + 1;
    }
    assert(v@.take(v@.len() as int) =~= v@);
}

/// The directories to search for resources, without repeats, and whether
/// the directory of the running program is to be added (when the override
/// variable is not used and the directory is not among them); an error
/// when `PATH` is to be appended but is not set.
pub fn resource_search_paths(setting: &ResourcePathSetting, override_dirs: Option<&Vec<String>>, env_path: Option<&Vec<String>>, exe_home: Option<&String>) -> (r: Result<(Vec<String>, bool), DscError>)
    ensures
        match raw_search_paths(string_views(setting.directories@), setting.allow_env_override, setting.append_env_path,
            match override_dirs { Some(d) => Some(string_views(d@)), None => None },
            match env_path { Some(p) => Some(string_views(p@)), None => None }) {
            None => r matches Err(e) && e is Operation,
            Some(raw) => r matches Ok((paths, add_home)) && {
                let custom = setting.allow_env_override && override_dirs is Some;
                let deduped = dedup_keep_first(raw);
                let with_home = !custom && exe_home is Some && !deduped.contains(exe_home->Some_0@);
                &&& add_home == with_home
                &&& string_views(paths@) == if with_home { deduped.push(exe_home->Some_0@) } else { deduped }
            },
        },
{
    let mut raw: Vec<String> = Vec::new();
    let custom = setting.allow_env_override && override_dirs.is_some();
    if custom {
        copy_all(override_dirs.unwrap(), &mut raw);
    } else {
        copy_all(&setting.directories, &mut raw);
        if setting.append_env_path {
            match env_path {
                Some(p) => copy_all(p, &mut raw),
                None => {
                    return Err(DscError::Operation(String::from_str("Failed to get PATH environment variable")));
                },
            }
        }
    }
    assert(string_views(raw@) =~= string_views(raw@));
    let mut paths = dedup_paths(&raw);
    let mut add_home = false;
    if !custom {
        if let Some(home) = exe_home {
            let mut seen = false;
            let mut k: usize = 0;
            while k < paths.len()
                invariant
                    k <= paths@.len(),
                    seen == exists|t: int| 0 <= t < k && (#[trigger] paths@[t])@ == home@,
                decreases paths@.len() - k,
            {
                if paths[k] == *home {
                    seen = true;
                }
                k = k + 1;
            }
            proof {
                let sv = string_views(paths@);
                if seen {
                    let t = choose|t: int| 0 <= t < paths@.len() && (#[trigger] paths@[t])@ == home@;
                    assert(sv[t] == home@);
                } else {
                    assert(!sv.contains(home@)) by {
                        if sv.contains(home@) {
                            let t = choose|t: int| 0 <= t < sv.len() && sv[t] == home@;
                            assert(paths@[t]@ == home@);
                        }
                    }
                }
            }
            if !seen {
                let ghost before = paths@;
                paths.push(home.clone());
                assert(string_views(paths@) =~= string_views(before).push(home@));
                add_home = true;
            }
        }
    }
    Ok((paths, add_home))
}

} // verus!

verus! {

/// Checks that a text is a valid semantic version.
pub fn validate_semver(version: &str) -> (r: Result<(), semver::Error>)
    ensures
        r is Ok == semver_parses(version@),
{
    parse_version_checked(version)
}

/// The kind of the resource a manifest describes: the one it declares, else
/// an adapter when it has an adapter section, else a plain resource.
pub open spec fn manifest_kind(m: ResourceManifest) -> Kind {
    match m.kind {
        Some(k) => k,
        None => if m.adapter is Some { Kind::Adapter } else { Kind::Resource },
    }
}

/// `[c]` when the operation is there.
pub open spec fn if_present<T>(op: Option<T>, c: Capability) -> Seq<Capability> {
    if op is Some { seq![c] } else { Seq::empty() }
}

/// The capabilities a manifest gives its resource, in this order: get,
/// set (and set-handles-exist when the set command says so), what-if,
/// test, delete, export, resolve.
pub open spec fn manifest_capabilities(m: ResourceManifest) -> Seq<Capability> {
    if_present(m.get, Capability::Get)
        + match m.set {
            Some(s) => if s.handles_exist == Some(true) {
                seq![Capability::SetState, Capability::SetHandlesExist]
            } else {
                seq![Capability::SetState]
            },
            None => Seq::empty(),
        }
        + if_present(m.what_if, Capability::WhatIf)
        + if_present(m.test, Capability::Test)
        + if_present(m.delete, Capability::Delete)
        + if_present(m.export, Capability::Export)
        + if_present(m.resolve, Capability::Resolve)
}

proof fn lemma_concat_contains(a: Seq<Capability>, b: Seq<Capability>, c: Capability)
    ensures
        (a + b).contains(c) <==> (a.contains(c) || b.contains(c)),
{
    if (a + b).contains(c) {
        let i = choose|i: int| 0 <= i < (a + b).len() && (a + b)[i] == c;
        if i < a.len() {
            assert(a[i] == c);
        } else {
            assert(b[i - a.len()] == c);
        }
    }
    if a.contains(c) {
        let i = choose|i: int| 0 <= i < a.len() && a[i] == c;
        assert((a + b)[i] == c);
    }
    if b.contains(c) {
        let i = choose|i: int| 0 <= i < b.len() && b[i] == c;
        assert((a + b)[a.len() + i] == c);
    }
}

proof fn lemma_if_present_contains<T>(o: Option<T>, c: Capability, x: Capability)
    ensures
        if_present(o, c).contains(x) <==> (o is Some && x == c),
{
    if o is Some {
        assert(if_present(o, c)[0] == c);
    }
}

/// The capabilities that the set section gives.
spec fn set_part(m: ResourceManifest) -> Seq<Capability> {
    match m.set {
        Some(s) => if s.handles_exist == Some(true) {
            seq![Capability::SetState, Capability::SetHandlesExist]
        } else {
            seq![Capability::SetState]
        },
        None => Seq::empty(),
    }
}

/// A resource can do each thing exactly when its manifest has the section
/// for it: get, set, what-if, test, delete, export and resolve; and the set
/// handles `_exist` exactly when the manifest's set says so.
pub proof fn lemma_capabilities_follow_sections(m: ResourceManifest)
    ensures
        manifest_capabilities(m).contains(Capability::Get) <==> m.get is Some,
        manifest_capabilities(m).contains(Capability::SetState) <==> m.set is Some,
        manifest_capabilities(m).contains(Capability::SetHandlesExist) <==> (m.set matches Some(s) && s.handles_exist == Some(true)),
        manifest_capabilities(m).contains(Capability::WhatIf) <==> m.what_if is Some,
        manifest_capabilities(m).contains(Capability::Test) <==> m.test is Some,
        manifest_capabilities(m).contains(Capability::Delete) <==> m.delete is Some,
        manifest_capabilities(m).contains(Capability::Export) <==> m.export is Some,
        manifest_capabilities(m).contains(Capability::Resolve) <==> m.resolve is Some,
{
    let p0 = if_present(m.get, Capability::Get);
    let p1 = set_part(m);
    let p2 = if_present(m.what_if, Capability::WhatIf);
    let p3 = if_present(m.test, Capability::Test);
    let p4 = if_present(m.delete, Capability::Delete);
    let p5 = if_present(m.export, Capability::Export);
    let p6 = if_present(m.resolve, Capability::Resolve);
    assert(manifest_capabilities(m) == p0 + p1 + p2 + p3 + p4 + p5 + p6);
    assert forall|c: Capability| #[trigger] manifest_capabilities(m).contains(c) <==> (
        p0.contains(c) || p1.contains(c) || p2.contains(c) || p3.contains(c) || p4.contains(c) || p5.contains(c) || p6.contains(c)) by {
        lemma_concat_contains(p0, p1, c);
        lemma_concat_contains(p0 + p1, p2, c);
        lemma_concat_contains(p0 + p1 + p2, p3, c);
        lemma_concat_contains(p0 + p1 + p2 + p3, p4, c);
        lemma_concat_contains(p0 + p1 + p2 + p3 + p4, p5, c);
        lemma_concat_contains(p0 + p1 + p2 + p3 + p4 + p5, p6, c);
    }
    assert forall|c: Capability| #[trigger] p1.contains(c) <==> (m.set is Some && (c == Capability::SetState
        || (c == Capability::SetHandlesExist && m.set->Some_0.handles_exist == Some(true)))) by {
        if m.set is Some {
            assert(p1[0] == Capability::SetState);
            if m.set->Some_0.handles_exist == Some(true) {
                assert(p1[1] == Capability::SetHandlesExist);
            }
        }
    }
    assert forall|c: Capability| #[trigger] p0.contains(c) <==> (m.get is Some && c == Capability::Get) by { lemma_if_present_contains(m.get, Capability::Get, c); }
    assert forall|c: Capability| #[trigger] p2.contains(c) <==> (m.what_if is Some && c == Capability::WhatIf) by { lemma_if_present_contains(m.what_if, Capability::WhatIf, c); }
    assert forall|c: Capability| #[trigger] p3.contains(c) <==> (m.test is Some && c == Capability::Test) by { lemma_if_present_contains(m.test, Capability::Test, c); }
    assert forall|c: Capability| #[trigger] p4.contains(c) <==> (m.delete is Some && c == Capability::Delete) by { lemma_if_present_contains(m.delete, Capability::Delete, c); }
    assert forall|c: Capability| #[trigger] p5.contains(c) <==> (m.export is Some && c == Capability::Export) by { lemma_if_present_contains(m.export, Capability::Export, c); }
    assert forall|c: Capability| #[trigger] p6.contains(c) <==> (m.resolve is Some && c == Capability::Resolve) by { lemma_if_present_contains(m.resolve, Capability::Resolve, c); }
}

fn push_if(caps: &mut Vec<Capability>, present: bool, c: Capability)
    ensures
        final(caps)@ == old(caps)@ + if present { seq![c] } else { Seq::<Capability>::empty() },
{
    if present {
        caps.push(c);
    } else {
        assert(caps@ + Seq::<Capability>::empty() =~= caps@);
    }
}

/// The resource that a manifest, read from `path` in `directory`,
/// describes: a command resource with the manifest's type, kind, version,
/// description and capabilities; a version that is not a valid semantic
/// version is refused.
pub fn resource_from_manifest(manifest: &ResourceManifest, path: &str, directory: &str, manifest_value: JsonValue) -> (r: Result<DscResource, DscError>)
    ensures
        match r {
            Ok(res) => {
                &&& semver_parses(manifest.version@)
                &&& res.resource_type@ == manifest.resource_type@
                &&& res.kind == manifest_kind(*manifest)
                &&& res.version@ == manifest.version@
                &&& opt_text_eq(res.description, manifest.description)
                &&& res.capabilities@ == manifest_capabilities(*manifest)
                &&& res.path@ == path@
                &&& res.directory@ == directory@
                &&& res.implemented_as is Command
                &&& res.author is None
                &&& res.properties@.len() == 0
                &&& res.require_adapter is None
                &&& res.manifest == Some(manifest_value)
            },
            Err(e) => !semver_parses(manifest.version@) && e is Validation,
        },
{
    if validate_semver(manifest.version.as_str()).is_err() {
        let mut m = String::from_str("Invalid manifest ");
        m.append(path);
        m.append(" version value: ");
        m.append(manifest.version.as_str());
        return Err(DscError::Validation(m));
    }
    let kind = match manifest.kind {
        Some(k) => k,
        None => if manifest.adapter.is_some() { Kind::Adapter } else { Kind::Resource },
    };
    let capabilities = capabilities_of(manifest);
    Ok(DscResource {
        resource_type: manifest.resource_type.clone(),
        kind,
        version: manifest.version.clone(),
        capabilities,
        path: String::from_str(path),
        description: copy_opt_text(&manifest.description),
        directory: String::from_str(directory),
        implemented_as: ImplementedAs::Command,
        author: None,
        properties: Vec::new(),
        require_adapter: None,
        manifest: Some(manifest_value),
    })
}

#[verifier::spinoff_prover]
#[verifier::rlimit(30)]
fn capabilities_of(manifest: &ResourceManifest) -> (r: Vec<Capability>)
    ensures
        r@ == manifest_capabilities(*manifest),
{
    let mut capabilities: Vec<Capability> = Vec::new();
    push_if(&mut capabilities, manifest.get.is_some(), Capability::Get);
    match &manifest.set {
        Some(set) => {
            capabilities.push(Capability::SetState);
            if set.handles_exist == Some(true) {
                capabilities.push(Capability::SetHandlesExist);
            }
        },
        None => {},
    }
    push_if(&mut capabilities, manifest.what_if.is_some(), Capability::WhatIf);
    push_if(&mut capabilities, manifest.test.is_some(), Capability::Test);
    push_if(&mut capabilities, manifest.delete.is_some(), Capability::Delete);
    push_if(&mut capabilities, manifest.export.is_some(), Capability::Export);
    push_if(&mut capabilities, manifest.resolve.is_some(), Capability::Resolve);
    assert(capabilities@ =~= manifest_capabilities(*manifest));
    capabilities
}

/// The extension that a manifest, read from `path` in `directory`,
/// describes: the manifest's type, version and description, able to
/// discover when the manifest has a discover command; a version that is
/// not a valid semantic version is refused.
pub fn extension_from_manifest(manifest: &ExtensionManifest, path: &str, directory: &str, manifest_value: JsonValue) -> (r: Result<DscExtension, DscError>)
    ensures
        match r {
            Ok(ext) => {
                &&& semver_parses(manifest.version@)
                &&& ext.extension_type@ == manifest.extension_type@
                &&& ext.version@ == manifest.version@
                &&& opt_text_eq(ext.description, manifest.description)
                &&& ext.capabilities@ == if manifest.discover is Some {
                    seq![ExtensionCapability::Discover]
                } else {
                    Seq::empty()
                }
                &&& ext.import_file_extensions is None
                &&& ext.path@ == path@
                &&& ext.directory@ == directory@
                &&& ext.author is None
                &&& ext.manifest == manifest_value
            },
            Err(e) => !semver_parses(manifest.version@) && e is Validation,
        },
{
    if validate_semver(manifest.version.as_str()).is_err() {
        let mut m = String::from_str("Invalid manifest ");
        m.append(path);
        m.append(" version value: ");
        m.append(manifest.version.as_str());
        return Err(DscError::Validation(m));
    }
    let mut capabilities: Vec<ExtensionCapability> = Vec::new();
    if manifest.discover.is_some() {
        capabilities.push(ExtensionCapability::Discover);
    }
    let mut ext = DscExtension::new();
    ext.extension_type = manifest.extension_type.clone();
    ext.version = manifest.version.clone();
    ext.description = copy_opt_text(&manifest.description);
    ext.capabilities = capabilities;
    ext.path = String::from_str(path);
    ext.directory = String::from_str(directory);
    ext.manifest = manifest_value;
    Ok(ext)
}

} // verus!

verus! {

/// What the lookup table gives for a name, as text.
pub open spec fn table_get(table: Seq<(String, String)>, k: Seq<char>) -> Option<Seq<char>> {
    match member_value(table, k) {
        Some(v) => Some(v@),
        None => None,
    }
}

/// What the lookup table gives for a name once the adapted resources were
/// recorded: each type whose first version requires an adapter maps, by
/// its lower-case name, to that adapter; later entries win.
pub open spec fn table_after(table: Seq<(String, String)>, adapted: Seq<(String, Vec<DscResource>)>, k: Seq<char>) -> Option<Seq<char>>
    decreases adapted.len(),
{
    if adapted.len() == 0 {
        table_get(table, k)
    } else {
        let e = adapted.last();
        match e.1@[0].require_adapter {
            Some(a) => if lowercase(e.0@) == k {
                Some(a@)
            } else {
                table_after(table, adapted.drop_last(), k)
            },
            None => table_after(table, adapted.drop_last(), k),
        }
    }
}

/// Whether recording entry `i` changed what the table gave for its name.
pub open spec fn entry_changes(table: Seq<(String, String)>, adapted: Seq<(String, Vec<DscResource>)>, i: int) -> bool {
    match adapted[i].1@[0].require_adapter {
        Some(a) => table_after(table, adapted.take(i), lowercase(adapted[i].0@)) != Some(a@),
        None => false,
    }
}

/// Records, for each adapted resource type, the adapter its first version
/// requires, by lower-case type name; says whether the table changed.
pub fn add_resources_to_lookup_table(adapted: &Vec<(String, Vec<DscResource>)>, table: &mut Vec<(String, String)>) -> (changed: bool)
    requires
        keys_unique(old(table)@),
        forall|i: int| 0 <= i < adapted@.len() ==> (#[trigger] adapted@[i]).1@.len() > 0,
    ensures
        keys_unique(final(table)@),
        forall|k: Seq<char>| #[trigger] table_get(final(table)@, k) == table_after(old(table)@, adapted@, k),
        changed == exists|i: int| 0 <= i < adapted@.len() && #[trigger] entry_changes(old(table)@, adapted@, i),
{
    let ghost t0 = table@;
    let mut changed = false;
    let mut i: usize = 0;
    while i < adapted.len()
        invariant
            i <= adapted@.len(),
            forall|q: int| 0 <= q < adapted@.len() ==> (#[trigger] adapted@[q]).1@.len() > 0,
            keys_unique(table@),
            forall|k: Seq<char>| #[trigger] table_get(table@, k) == table_after(t0, adapted@.take(i as int), k),
            changed == exists|q: int| 0 <= q < i && #[trigger] entry_changes(t0, adapted@, q),
        decreases adapted@.len() - i,
    {
        let ghost prev = table@;
        proof {
            let t = adapted@.take(i + 1);
            assert(t.drop_last() =~= adapted@.take(i as int));
            assert(t.last() == adapted@[i as int]);
            assert forall|q: int| 0 <= q < i implies #[trigger] entry_changes(t0, adapted@, q) == entry_changes(t0, adapted@.take(i + 1), q) by {
                assert(adapted@.take(i + 1).take(q) =~= adapted@.take(q));
            }
        }
        match &adapted[i].1[0].require_adapter {
            Some(a) => {
                let key = to_lowercase(adapted[i].0.as_str());
                proof {
                    lemma_find_key(table@, key@);
                }
                let now = match find_member(table, &key) {
                    Some(j) => !str_equal(table[j].1.as_str(), a.as_str()),
                    None => true,
                };
                assert(now == (table_get(prev, key@) != Some(a@)));
                assert(entry_changes(t0, adapted@, i as int) == now);
                if now {
                    changed = true;
                }
                let v = a.clone();
                proof {
                    lemma_put_keeps_unique(table@, key, v);
                }
                let ghost gk = key;
                let ghost gv = v;
                put_member(table, key, v);
                proof {
                    assert forall|k: Seq<char>| #[trigger] table_get(table@, k) == table_after(t0, adapted@.take(i + 1), k) by {
                        lemma_put_then_get(prev, gk, gv, k);
                        assert(table_get(prev, k) == table_after(t0, adapted@.take(i as int), k));
                    }
                }
            },
            None => {
                assert(!entry_changes(t0, adapted@, i as int));
                proof {
                    assert forall|k: Seq<char>| #[trigger] table_get(table@, k) == table_after(t0, adapted@.take(i + 1), k) by {
                        assert(table_get(prev, k) == table_after(t0, adapted@.take(i as int), k));
                    }
                }
            },
        }
        i = i + 1;
    }
    assert(adapted@.take(i as int) =~= adapted@);
    changed
}

} // verus!

verus! {

/// The names of a list's entries.
pub open spec fn entry_names<T>(entries: Seq<(String, T)>) -> Seq<Seq<char>> {
    entries.map_values(|e: (String, T)| e.0@)
}

/// The position of the first name in `names` that is `a`, or -1.
pub open spec fn first_index(names: Seq<Seq<char>>, a: Seq<char>) -> int
    decreases names.len(),
{
    if names.len() == 0 {
        -1
    } else {
        let p = first_index(names.drop_last(), a);
        if p >= 0 {
            p
        } else if names.last() == a {
            names.len() - 1
        } else {
            -1
        }
    }
}

/// `names` with `a` at the end, moved there when it is in `names` already.
pub open spec fn moved_last(names: Seq<Seq<char>>, a: Seq<char>) -> Seq<Seq<char>> {
    let j = first_index(names, a);
    if j >= 0 {
        names.remove(j).push(a)
    } else {
        names.push(a)
    }
}

/// The adapters that the lookup table gives for the needed types, when
/// they are known, each once, in the order in which they were last given.
pub open spec fn preferred_adapters(
    adapters: Seq<(String, Vec<DscResource>)>,
    needed: Seq<String>,
    table: Seq<(String, String)>,
) -> Seq<Seq<char>>
    decreases needed.len(),
{
    if needed.len() == 0 {
        Seq::empty()
    } else {
        let prev = preferred_adapters(adapters, needed.drop_last(), table);
        match table_get(table, needed.last()@) {
            Some(a) => if find_key(adapters, a) >= 0 {
                moved_last(prev, a)
            } else {
                prev
            },
            None => prev,
        }
    }
}

/// The names of the adapters, in order, that are neither in `first` nor
/// taken already.
pub open spec fn other_adapters(adapters: Seq<(String, Vec<DscResource>)>, first: Seq<Seq<char>>) -> Seq<Seq<char>>
    decreases adapters.len(),
{
    if adapters.len() == 0 {
        Seq::empty()
    } else {
        let prev = other_adapters(adapters.drop_last(), first);
        if (first + prev).contains(adapters.last().0@) {
            prev
        } else {
            prev.push(adapters.last().0@)
        }
    }
}

/// The order in which adapters are tried: those the lookup table points
/// to for the needed types first, then the others.
pub open spec fn adapter_order(adapters: Seq<(String, Vec<DscResource>)>, needed: Seq<String>, table: Seq<(String, String)>) -> Seq<Seq<char>> {
    let p = preferred_adapters(adapters, needed, table);
    p + other_adapters(adapters, p)
}

/// Whether the entry holds the versions that the adapters list under its
/// name.
pub open spec fn listed_with(adapters: Seq<(String, Vec<DscResource>)>, e: (String, Vec<DscResource>)) -> bool {
    lookup(adapters, e.0@) matches Some(v) && resources_same(e.1@, v@)
}

proof fn lemma_names_find<T>(entries: Seq<(String, T)>, k: Seq<char>)
    ensures
        (find_key(entries, k) >= 0) == entry_names(entries).contains(k),
        find_key(entries, k) == first_index(entry_names(entries), k),
    decreases entries.len(),
{
    lemma_find_key(entries, k);
    if entries.len() > 0 {
        lemma_names_find(entries.drop_last(), k);
        assert(entry_names(entries.drop_last()) =~= entry_names(entries).drop_last());
    }
    if find_key(entries, k) >= 0 {
        assert(entry_names(entries)[find_key(entries, k)] == k);
    } else {
        if entry_names(entries).contains(k) {
            let i = choose|i: int| 0 <= i < entry_names(entries).len() && entry_names(entries)[i] == k;
            assert(entries[i].0@ == k);
        }
    }
}

/// What putting an entry into an adapter map does to its names and to
/// the entries being listed with `adapters`.
proof fn lemma_linked_put(
    entries: Seq<(String, Vec<DscResource>)>,
    key: String,
    value: Vec<DscResource>,
    adapters: Seq<(String, Vec<DscResource>)>,
)
    requires
        forall|q: int| 0 <= q < entries.len() ==> listed_with(adapters, #[trigger] entries[q]),
        listed_with(adapters, (key, value)),
    ensures
        entry_names(linked_put(entries, key, value)) == moved_last(entry_names(entries), key@),
        forall|q: int| 0 <= q < linked_put(entries, key, value).len() ==> listed_with(adapters, #[trigger] linked_put(entries, key, value)[q]),
{
    lemma_names_find(entries, key@);
    lemma_find_key(entries, key@);
    let j = find_key(entries, key@);
    let r = linked_put(entries, key, value);
    if j >= 0 {
        assert(entry_names(r) =~= entry_names(entries).remove(j).push(key@));
        assert forall|q: int| 0 <= q < r.len() implies listed_with(adapters, #[trigger] r[q]) by {
            if q < j {
                assert(r[q] == entries[q]);
            } else if q < r.len() - 1 {
                assert(r[q] == entries[q + 1]);
            } else {
                assert(r[q] == (entries[j].0, value));
            }
        }
    } else {
        assert(entry_names(r) =~= entry_names(entries).push(key@));
        assert forall|q: int| 0 <= q < r.len() implies listed_with(adapters, #[trigger] r[q]) by {
            if q < entries.len() {
                assert(r[q] == entries[q]);
            }
        }
    }
}

/// The adapters in the order they are tried (see `adapter_order`), each
/// with its versions, in a map that keeps that order.
pub fn sort_adapters_based_on_lookup_table(
    unsorted_adapters: &Vec<(String, Vec<DscResource>)>,
    needed_resource_types: &Vec<String>,
    lookup_table: &Vec<(String, String)>,
) -> (r: LinkedHashMap<String, Vec<DscResource>>)
    ensures
        entry_names(linked_entries(r)) == adapter_order(unsorted_adapters@, needed_resource_types@, lookup_table@),
        forall|i: int| 0 <= i < linked_entries(r).len() ==> listed_with(unsorted_adapters@, #[trigger] linked_entries(r)[i]),
{
    let mut result = linked_new();
    let mut i: usize = 0;
    while i < needed_resource_types.len()
        invariant
            i <= needed_resource_types@.len(),
            entry_names(linked_entries(result)) == preferred_adapters(unsorted_adapters@, needed_resource_types@.take(i as int), lookup_table@),
            forall|q: int| 0 <= q < linked_entries(result).len() ==> listed_with(unsorted_adapters@, #[trigger] linked_entries(result)[q]),
        decreases needed_resource_types@.len() - i,
    {
        let ghost before = linked_entries(result);
        proof {
            let t = needed_resource_types@.take(i + 1);
            assert(t.drop_last() =~= needed_resource_types@.take(i as int));
            assert(t.last() == needed_resource_types@[i as int]);
            lemma_find_key(lookup_table@, needed_resource_types@[i as int]@);
        }
        match find_member(lookup_table, &needed_resource_types[i]) {
            Some(t) => {
                let adapter_name = &lookup_table[t].1;
                proof {
                    lemma_find_key(unsorted_adapters@, adapter_name@);
                }
                match find_member(unsorted_adapters, adapter_name) {
                    Some(j) => {
                        let versions = copy_resources(&unsorted_adapters[j].1);
                        let key = adapter_name.clone();
                        proof {
                            lemma_linked_put(before, key, versions, unsorted_adapters@);
                        }
                        linked_insert(&mut result, key, versions);
                    },
                    None => {},
                }
            },
            None => {},
        }
        i = i + 1;
    }
    assert(needed_resource_types@.take(i as int) =~= needed_resource_types@);
    let ghost p = entry_names(linked_entries(result));
    let mut k: usize = 0;
    assert(unsorted_adapters@.take(0) =~= Seq::<(String, Vec<DscResource>)>::empty());
    while k < unsorted_adapters.len()
        invariant
            k <= unsorted_adapters@.len(),
            p == preferred_adapters(unsorted_adapters@, needed_resource_types@, lookup_table@),
            entry_names(linked_entries(result)) == p + other_adapters(unsorted_adapters@.take(k as int), p),
            forall|q: int| 0 <= q < linked_entries(result).len() ==> listed_with(unsorted_adapters@, #[trigger] linked_entries(result)[q]),
            forall|q: int| 0 <= q < k ==> entry_names(linked_entries(result)).contains(#[trigger] unsorted_adapters@[q].0@),
        decreases unsorted_adapters@.len() - k,
    {
        let ghost before = linked_entries(result);
        proof {
            let t = unsorted_adapters@.take(k + 1);
            assert(t.drop_last() =~= unsorted_adapters@.take(k as int));
            assert(t.last() == unsorted_adapters@[k as int]);
            lemma_names_find(before, unsorted_adapters@[k as int].0@);
            lemma_find_key(unsorted_adapters@, unsorted_adapters@[k as int].0@);
        }
        if !linked_contains(&result, &unsorted_adapters[k].0) {
            let versions = copy_resources(&unsorted_adapters[k].1);
            let ghost name = unsorted_adapters@[k as int].0@;
            let key = unsorted_adapters[k].0.clone();
            proof {
                lemma_linked_put(before, key, versions, unsorted_adapters@);
                lemma_names_find(before, name);
                let f = find_key(unsorted_adapters@, name);
                if f < k {
                    assert(entry_names(before).contains(unsorted_adapters@[f].0@));
                }
                assert(f == k);
            }
            linked_insert(&mut result, key, versions);
            proof {
                assert(entry_names(linked_entries(result)) =~= entry_names(before).push(name));
                assert forall|q: int| 0 <= q < k + 1 implies entry_names(linked_entries(result)).contains(#[trigger] unsorted_adapters@[q].0@) by {
                    if q < k {
                        let w = choose|w: int| 0 <= w < entry_names(before).len() && entry_names(before)[w] == unsorted_adapters@[q].0@;
                        assert(entry_names(linked_entries(result))[w] == unsorted_adapters@[q].0@);
                    } else {
                        assert(entry_names(linked_entries(result))[before.len() as int] == name);
                    }
                }
            }
        }
        k = k + 1;
    }
    assert(unsorted_adapters@.take(k as int) =~= unsorted_adapters@);
    result
}

} // verus!

verus! {

/// The outcome of `add_extension`: a new type is added; a known one is
/// replaced only by a newer version; a version that does not parse is an
/// error.
pub open spec fn add_extension_post(
    old: Seq<(String, DscExtension)>,
    new: Seq<(String, DscExtension)>,
    ext: DscExtension,
    r: Result<(), DscError>,
) -> bool {
    match lookup(old, ext.extension_type@) {
        None => r is Ok && lookup(new, ext.extension_type@) == Some(ext) && forall|k: Seq<char>|
            k != ext.extension_type@ ==> #[trigger] lookup(new, k) == lookup(old, k),
        Some(existing) => if !semver_parses(existing.version@) || !semver_parses(ext.version@) {
            r matches Err(e) && e is Operation && new == old
        } else if semver_lt(existing.version@, ext.version@) {
            r is Ok && lookup(new, ext.extension_type@) == Some(ext) && forall|k: Seq<char>|
                k != ext.extension_type@ ==> #[trigger] lookup(new, k) == lookup(old, k)
        } else {
            r is Ok && new == old
        },
    }
}

/// Keeps an extension found during discovery: only the newest version of
/// each extension type is kept, so the one kept is never older than the
/// other.
pub fn add_extension(extensions: &mut Vec<(String, DscExtension)>, extension: DscExtension) -> (r: Result<(), DscError>)
    requires
        keys_unique(old(extensions)@),
    ensures
        keys_unique(final(extensions)@),
        keys_sorted(old(extensions)@) ==> keys_sorted(final(extensions)@),
        add_extension_post(old(extensions)@, final(extensions)@, extension, r),
        match lookup(old(extensions)@, extension.extension_type@) {
            Some(x) => r is Ok ==> (lookup(final(extensions)@, extension.extension_type@) matches Some(k)
                && ((k == extension && !semver_lt(extension.version@, x.version@)) || (k == x && !semver_lt(x.version@, extension.version@)))),
            None => true,
        },
{
    let name = extension.extension_type.clone();
    proof {
        lemma_find_key(extensions@, name@);
    }
    let ghost before = extensions@;
    let ghost gn = name;
    let ghost ge = extension;
    match find_member(extensions, &name) {
        Some(j) => {
            let existing = extensions[j].1.version.as_str();
            if !version_parses(existing) || !version_parses(extension.version.as_str()) {
                let mut m = String::from_str("Extension '");
                m.append(name.as_str());
                m.append("' has an invalid version");
                return Err(DscError::Operation(m));
            }
            if !version_less(existing, extension.version.as_str()) {
                return Ok(());
            }
            proof {
                lemma_put_keeps_unique(extensions@, name, extension);
            }
            put_member(extensions, name, extension);
            proof {
                assert forall|k: Seq<char>| #[trigger] lookup(extensions@, k) == if k == gn@ { Some(ge) } else { lookup(before, k) } by {
                    lemma_put_then_get(before, gn, ge, k);
                    lemma_find_key(before, k);
                    lemma_find_key(extensions@, k);
                }
                assert(key_views(extensions@) =~= key_views(before));
            }
        },
        None => {
            insert_new_entry(extensions, name, extension);
        },
    }
    Ok(())
}

/// Takes a resource that the adapter `adapter_name` listed: one that names
/// no adapter it requires is refused, and the listing goes on without it;
/// else, where the name filter matched its type, it joins the versions of
/// its type in `adapted`, a version seen before included (different
/// adapters may list the same one). Gives whether it was added.
pub fn add_listed_resource(adapted: &mut Vec<(String, Vec<DscResource>)>, adapter_name: &String, resource: &DscResource, name_matches: bool) -> (r: Result<bool, DscError>)
    requires
        keys_unique(old(adapted)@),
    ensures
        keys_unique(final(adapted)@),
        keys_sorted(old(adapted)@) ==> keys_sorted(final(adapted)@),
        resource.require_adapter is None ==> (r matches Err(DscError::MissingRequires(a, t)) && a@ == adapter_name@
            && t@ == resource.resource_type@ && final(adapted)@ == old(adapted)@),
        resource.require_adapter is Some ==> r == Ok::<bool, DscError>(name_matches),
        resource.require_adapter is Some && name_matches ==> insert_post(old(adapted)@, final(adapted)@, *resource, false),
        resource.require_adapter is Some && !name_matches ==> final(adapted)@ == old(adapted)@,
{
    if resource.require_adapter.is_none() {
        return Err(DscError::MissingRequires(adapter_name.clone(), resource.resource_type.clone()));
    }
    if name_matches {
        insert_resource(adapted, resource, false);
    }
    Ok(name_matches)
}

} // verus!
