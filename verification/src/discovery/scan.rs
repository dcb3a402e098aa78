//! The decisions of a discovery scan. The caller walks the search
//! directories, loads each manifest file and runs the listing commands of
//! adapters and extensions; each thing found is handed to one of these
//! steps, which decides what the scan keeps.

use vstd::prelude::*;
use vstd::string::StringExecFns;

use crate::discovery::command_discovery::{add_extension, add_extension_post, add_listed_resource};
use crate::discovery::wildcard::{compile_ci, convert_wildcard_to_regex, is_match_ci, regex_ci_matches, regex_compiles, wildcard_regex, CompiledRegex};
use crate::discovery::{insert_post, insert_resource, keys_unique};
use crate::dscerror::DscError;
use crate::dscresources::dscresource::{string_views, DscResource};
use crate::dscresources::resource_manifest::Kind;
use crate::extensions::dscextension::DscExtension;

verus! {

/// What a manifest file found during the scan turned out to hold.
pub enum FoundManifest {
    /// The file could not be loaded as a manifest; the scan goes on.
    Unreadable,
    /// An extension manifest.
    Extension(DscExtension),
    /// A resource, with what importing its embedded manifest gave: `None`
    /// when it has none, else the kind the manifest declares or the error
    /// importing it raised.
    Resource(DscResource, Option<Result<Option<Kind>, DscError>>),
}

/// What a scan has kept so far: adapters, other resources (both by type,
/// newest version first) and the newest version of each extension.
pub struct ScanFound {
    pub adapters: Vec<(String, Vec<DscResource>)>,
    pub resources: Vec<(String, Vec<DscResource>)>,
    pub extensions: Vec<(String, DscExtension)>,
}

impl ScanFound {
    /// Each type occurs once in each table.
    pub open spec fn wf(self) -> bool {
        &&& keys_unique(self.adapters@)
        &&& keys_unique(self.resources@)
        &&& keys_unique(self.extensions@)
    }

    /// A scan that has found nothing yet.
    pub fn new() -> (r: ScanFound)
        ensures
            r.wf(),
            r.adapters@.len() == 0,
            r.resources@.len() == 0,
            r.extensions@.len() == 0,
    {
        ScanFound { adapters: Vec::new(), resources: Vec::new(), extensions: Vec::new() }
    }
}

/// Compiles a wildcard type filter (`*` any run, `?` one character),
/// without regard to case; an operation error when it does not compile.
pub fn compile_filter(filter: &str) -> (r: Result<CompiledRegex, DscError>)
    ensures
        r is Ok <==> regex_compiles(wildcard_regex(filter@)),
        r matches Ok(c) ==> c.pattern() == wildcard_regex(filter@),
        r matches Err(e) ==> e is Operation,
{
    let pattern = convert_wildcard_to_regex(filter);
    match compile_ci(pattern.as_str()) {
        Some(c) => Ok(c),
        None => Err(DscError::Operation(String::from_str("Could not build Regex filter"))),
    }
}

/// What recording a found manifest does to the scan: what the filter does
/// not match, and what could not be loaded or has no embedded manifest,
/// leaves it as it was; an extension is kept as `add_extension` keeps it;
/// a resource whose manifest does not import is that error; else an adapter
/// joins the adapters and any other resource the resources, a version seen
/// before skipped.
pub open spec fn record_found_post(filter: Seq<char>, old: ScanFound, new: ScanFound, found: FoundManifest, r: Result<(), DscError>) -> bool {
    match found {
        FoundManifest::Unreadable => r is Ok && new == old,
        FoundManifest::Extension(ext) => if !regex_ci_matches(filter, ext.extension_type@) {
            r is Ok && new == old
        } else {
            &&& add_extension_post(old.extensions@, new.extensions@, ext, r)
            &&& new.adapters == old.adapters
            &&& new.resources == old.resources
        },
        FoundManifest::Resource(res, imported) => if !regex_ci_matches(filter, res.resource_type@) {
            r is Ok && new == old
        } else {
            match imported {
                None => r is Ok && new == old,
                Some(Err(e)) => r == Err::<(), DscError>(e) && new == old,
                Some(Ok(kind)) => if kind == Some(Kind::Adapter) {
                    &&& r is Ok
                    &&& insert_post(old.adapters@, new.adapters@, res, true)
                    &&& new.resources == old.resources
                    &&& new.extensions == old.extensions
                } else {
                    &&& r is Ok
                    &&& insert_post(old.resources@, new.resources@, res, true)
                    &&& new.adapters == old.adapters
                    &&& new.extensions == old.extensions
                },
            }
        },
    }
}

/// Records a manifest found during the scan, under the type filter.
pub fn record_found_manifest(filter: &CompiledRegex, found: FoundManifest, scan: &mut ScanFound) -> (r: Result<(), DscError>)
    requires
        old(scan).wf(),
    ensures
        final(scan).wf(),
        record_found_post(filter.pattern(), *old(scan), *final(scan), found, r),
{
    match found {
        FoundManifest::Unreadable => Ok(()),
        FoundManifest::Extension(ext) => {
            if !is_match_ci(filter, ext.extension_type.as_str()) {
                return Ok(());
            }
            add_extension(&mut scan.extensions, ext)
        },
        FoundManifest::Resource(res, imported) => {
            if !is_match_ci(filter, res.resource_type.as_str()) {
                return Ok(());
            }
            match imported {
                None => Ok(()),
                Some(Err(e)) => Err(e),
                Some(Ok(kind)) => {
                    let adapter = match kind {
                        Some(Kind::Adapter) => true,
                        _ => false,
                    };
                    if adapter {
                        insert_resource(&mut scan.adapters, &res, true);
                    } else {
                        insert_resource(&mut scan.resources, &res, true);
                    }
                    Ok(())
                },
            }
        },
    }
}

/// Records a resource that an extension discovered: kept among the
/// resources, a version seen before skipped, when the type filter matches
/// its type.
pub fn record_discovered_resource(filter: &CompiledRegex, resource: &DscResource, resources: &mut Vec<(String, Vec<DscResource>)>)
    requires
        keys_unique(old(resources)@),
    ensures
        keys_unique(final(resources)@),
        regex_ci_matches(filter.pattern(), resource.resource_type@) ==> insert_post(old(resources)@, final(resources)@, *resource, true),
        !regex_ci_matches(filter.pattern(), resource.resource_type@) ==> final(resources)@ == old(resources)@,
{
    if is_match_ci(filter, resource.resource_type.as_str()) {
        insert_resource(resources, resource, true);
    }
}

/// Records a resource that the adapter `adapter_name` listed, under the
/// resource name filter: one that names no adapter it requires is refused;
/// else it joins the adapted resources when the filter matches its type,
/// a version seen before included. Gives whether it was added.
pub fn record_listed_resource(name_filter: &CompiledRegex, adapter_name: &String, resource: &DscResource, adapted: &mut Vec<(String, Vec<DscResource>)>) -> (r: Result<bool, DscError>)
    requires
        keys_unique(old(adapted)@),
    ensures
        keys_unique(final(adapted)@),
        resource.require_adapter is None ==> (r matches Err(DscError::MissingRequires(a, t)) && a@ == adapter_name@
            && t@ == resource.resource_type@ && final(adapted)@ == old(adapted)@),
        resource.require_adapter is Some ==> r == Ok::<bool, DscError>(regex_ci_matches(name_filter.pattern(), resource.resource_type@)),
        resource.require_adapter is Some && regex_ci_matches(name_filter.pattern(), resource.resource_type@)
            ==> insert_post(old(adapted)@, final(adapted)@, *resource, false),
        resource.require_adapter is Some && !regex_ci_matches(name_filter.pattern(), resource.resource_type@)
            ==> final(adapted)@ == old(adapted)@,
{
    let name_matches = is_match_ci(name_filter, resource.resource_type.as_str());
    add_listed_resource(adapted, adapter_name, resource, name_matches)
}

/// The names of the adapters whose listings are used: those with a
/// version that the pattern matches, in order.
pub open spec fn selected_adapters(pattern: Seq<char>, adapters: Seq<(String, Vec<DscResource>)>) -> Seq<Seq<char>>
    decreases adapters.len(),
{
    if adapters.len() == 0 {
        Seq::empty()
    } else {
        let prev = selected_adapters(pattern, adapters.drop_last());
        let e = adapters.last();
        if e.1@.len() > 0 && regex_ci_matches(pattern, e.0@) { prev.push(e.0@) } else { prev }
    }
}

/// The adapters whose resources are listed under the wildcard filter
/// `adapter_filter`: none, and no error, when no adapter was found; an
/// operation error when the filter does not compile; an adapter-not-found
/// error naming the filter when adapters were found and none passes it.
pub fn adapters_to_list(adapter_filter: &str, adapters: &Vec<(String, Vec<DscResource>)>) -> (r: Result<Vec<String>, DscError>)
    ensures
        adapters@.len() == 0 ==> (r matches Ok(v) && v@.len() == 0),
        adapters@.len() > 0 && !regex_compiles(wildcard_regex(adapter_filter@)) ==> (r matches Err(e) && e is Operation),
        adapters@.len() > 0 && regex_compiles(wildcard_regex(adapter_filter@)) ==> {
            let sel = selected_adapters(wildcard_regex(adapter_filter@), adapters@);
            &&& sel.len() == 0 ==> (r matches Err(DscError::AdapterNotFound(f)) && f@ == adapter_filter@)
            &&& sel.len() > 0 ==> (r matches Ok(v) && string_views(v@) == sel)
        },
{
    if adapters.len() == 0 {
        return Ok(Vec::new());
    }
    let filter = compile_filter(adapter_filter)?;
    let mut out: Vec<String> = Vec::new();
    let mut i: usize = 0;
    while i < adapters.len()
        invariant
            i <= adapters@.len(),
            filter.pattern() == wildcard_regex(adapter_filter@),
            string_views(out@) == selected_adapters(filter.pattern(), adapters@.take(i as int)),
        decreases adapters@.len() - i,
    {
        let ghost before = out@;
        if adapters[i].1.len() > 0 && is_match_ci(&filter, adapters[i].0.as_str()) {
            out.push(adapters[i].0.clone());
            proof {
                assert(string_views(out@) =~= string_views(before).push(adapters@[i as int].0@));
            }
        }
        proof {
            let t = adapters@.take(i + 1);
            assert(t.drop_last() =~= adapters@.take(i as int));
            assert(t.last() == adapters@[i as int]);
        }
        i = i + 1;
    }
    assert(adapters@.take(adapters@.len() as int) =~= adapters@);
    if out.len() == 0 {
        return Err(DscError::AdapterNotFound(adapter_filter.to_string()));
    }
    Ok(out)
}

} // verus!
