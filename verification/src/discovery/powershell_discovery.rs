//! Resources found by asking PowerShell: the encoded command that lists
//! them, the resources made of what it printed, the version text of a
//! resource, and the list kept once it was read.

use vstd::prelude::*;
use vstd::string::StringExecFns;

use crate::dscresources::dscresource::{resource_same, string_views, DscResource, ImplementedAs};
use crate::json::{find_member, i64_value, lemma_find_key, member_value, JsonValue};
use crate::strings::{base64_encode, base64_standard, decimal, int_to_decimal};

verus! {

/// A version part that is present (not negative) as text, after `sep`.
pub open spec fn version_part(sep: Seq<char>, n: i64) -> Seq<char> {
    if n >= 0 { sep + decimal(n as int) } else { Seq::empty() }
}

/// The version text of a PowerShell resource from its major, minor,
/// revision and build numbers, in that order, each that is present (not
/// negative; `-1` stands for a missing one) written in decimal after a `.`,
/// but for the major number, which has none.
pub open spec fn ps_version(major: i64, minor: i64, revision: i64, build: i64) -> Seq<char> {
    version_part(Seq::empty(), major) + version_part(seq!['.'], minor) + version_part(seq!['.'], revision) + version_part(seq!['.'], build)
}

fn append_part(s: &mut String, dot: bool, n: i64)
    ensures
        final(s)@ == old(s)@ + version_part(if dot { seq!['.'] } else { Seq::empty() }, n),
{
    if n >= 0 {
        if dot {
            s.append(".");
            proof {
                reveal_strlit(".");
            }
        }
        let t = int_to_decimal(n as i128);
        s.append(t.as_str());
    }
    proof {
        if n < 0 {
            assert(old(s)@ + Seq::<char>::empty() =~= old(s)@);
        } else if !dot {
            assert(Seq::<char>::empty() + decimal(n as int) =~= decimal(n as int));
        }
    }
}

/// The version text of a PowerShell resource (see `ps_version`).
pub fn ps_version_text(major: i64, minor: i64, revision: i64, build: i64) -> (r: String)
    ensures
        r@ == ps_version(major, minor, revision, build),
{
    let mut s = String::new();
    append_part(&mut s, false, major);
    append_part(&mut s, true, minor);
    append_part(&mut s, true, revision);
    append_part(&mut s, true, build);
    assert(s@ =~= ps_version(major, minor, revision, build));
    s
}

/// The resources that PowerShell listed, once they were read.
pub struct PowerShellDiscovery {
    pub resources: Vec<DscResource>,
    initialized: bool,
}

impl PowerShellDiscovery {
    /// Nothing found yet.
    pub fn new() -> (r: Self)
        ensures
            r.found().len() == 0,
            !r.is_initialized_spec(),
    {
        PowerShellDiscovery { resources: Vec::new(), initialized: false }
    }

    /// Whether the listing was read.
    pub closed spec fn is_initialized_spec(&self) -> bool {
        self.initialized
    }

    /// The resources kept.
    pub closed spec fn found(&self) -> Seq<DscResource> {
        self.resources@
    }

    /// Whether the listing was read.
    pub fn is_initialized(&self) -> (r: bool)
        ensures
            r == self.is_initialized_spec(),
    {
        self.initialized
    }

    /// Records the resources of a listing that was read; a listing is read
    /// once, so a second one is ignored.
    pub fn record_listing(&mut self, found: Vec<DscResource>)
        ensures
            final(self).is_initialized_spec(),
            old(self).is_initialized_spec() ==> final(self).found() == old(self).found(),
            !old(self).is_initialized_spec() ==> final(self).found() == old(self).found() + found@,
    {
        if self.initialized {
            return;
        }
        let mut found = found;
        self.resources.append(&mut found);
        self.initialized = true;
    }

    /// The resources found: those of the listing once it was read, none
    /// before.
    pub fn discover(&self) -> (r: Vec<DscResource>)
        ensures
            self.is_initialized_spec() ==> r@.len() == self.found().len()
                && forall|i: int| 0 <= i < r@.len() ==> resource_same(#[trigger] r@[i], self.found()[i]),
            !self.is_initialized_spec() ==> r@.len() == 0,
    {
        let mut out: Vec<DscResource> = Vec::new();
        if !self.initialized {
            return out;
        }
        let mut i: usize = 0;
        while i < self.resources.len()
            invariant
                i <= self.resources@.len(),
                out@.len() == i,
                forall|k: int| 0 <= k < i ==> resource_same(#[trigger] out@[k], self.resources@[k]),
            decreases self.resources@.len() - i,
        {
            out.push(self.resources[i].deep_copy());
            i = i + 1;
        }
        out
    }
}

/// The UTF-16 code units of a character: itself below `0x10000`, else its
/// surrogate pair.
pub open spec fn utf16_units(c: char) -> Seq<int> {
    let n = c as int;
    if n < 0x10000 {
        seq![n]
    } else {
        seq![0xD800 + (n - 0x10000) / 0x400, 0xDC00 + (n - 0x10000) % 0x400]
    }
}

/// The bytes of code units, each low byte first.
pub open spec fn le_bytes(units: Seq<int>) -> Seq<u8>
    decreases units.len(),
{
    if units.len() == 0 {
        Seq::empty()
    } else {
        le_bytes(units.drop_last()) + seq![(units.last() % 256) as u8, (units.last() / 256) as u8]
    }
}

/// The UTF-16 little-endian bytes of a text.
pub open spec fn utf16le(s: Seq<char>) -> Seq<u8>
    decreases s.len(),
{
    if s.len() == 0 {
        Seq::empty()
    } else {
        utf16le(s.drop_last()) + le_bytes(utf16_units(s.last()))
    }
}

proof fn lemma_le_bytes_push(units: Seq<int>, u: int)
    ensures
        le_bytes(units.push(u)) == le_bytes(units) + seq![(u % 256) as u8, (u / 256) as u8],
{
    assert(units.push(u).drop_last() =~= units);
}

/// A script as PowerShell's `-EncodedCommand` takes it: its UTF-16
/// little-endian bytes in standard base64.
pub fn encoded_command(script: &str) -> (r: String)
    ensures
        r@ == base64_standard(utf16le(script@)),
{
    let n = script.unicode_len();
    let mut bytes: Vec<u8> = Vec::new();
    let mut i: usize = 0;
    while i < n
        invariant
            n == script@.len(),
            i <= n,
            bytes@ == utf16le(script@.take(i as int)),
        decreases n - i,
    {
        let c = script.get_char(i);
        let v = c as u32;
        let ghost before = bytes@;
        if v < 0x10000 {
            bytes.push((v % 256) as u8);
            bytes.push((v / 256) as u8);
            proof {
                assert(le_bytes(utf16_units(c)) =~= le_bytes(seq![v as int]));
                lemma_le_bytes_push(Seq::empty(), v as int);
                assert(Seq::<int>::empty().push(v as int) =~= seq![v as int]);
            }
        } else {
            let w = v - 0x10000;
            let hi = 0xD800 + w / 0x400;
            let lo = 0xDC00 + w % 0x400;
            bytes.push((hi % 256) as u8);
            bytes.push((hi / 256) as u8);
            bytes.push((lo % 256) as u8);
            bytes.push((lo / 256) as u8);
            proof {
                lemma_le_bytes_push(Seq::empty(), hi as int);
                assert(Seq::<int>::empty().push(hi as int) =~= seq![hi as int]);
                lemma_le_bytes_push(seq![hi as int], lo as int);
                assert(seq![hi as int].push(lo as int) =~= seq![hi as int, lo as int]);
                assert(utf16_units(c) =~= seq![hi as int, lo as int]);
            }
        }
        proof {
            let t = script@.take(i + 1);
            assert(t.drop_last() =~= script@.take(i as int));
            assert(t.last() == c);
            assert(bytes@ =~= before + le_bytes(utf16_units(c)));
        }
        i = i + 1;
    }
    assert(script@.take(n as int) =~= script@);
    base64_encode(bytes.as_slice())
}

/// The member `key` of an object, null when there is none or the value is
/// no object (as indexing a `serde_json` value gives it).
pub open spec fn field(v: JsonValue, key: Seq<char>) -> JsonValue {
    match v {
        JsonValue::Object(ms) => match member_value(ms@, key) {
            Some(x) => x,
            None => JsonValue::Null,
        },
        _ => JsonValue::Null,
    }
}

/// A string's text, or empty for any other value.
pub open spec fn text_or_empty(v: JsonValue) -> Seq<char> {
    match v {
        JsonValue::String(t) => t@,
        _ => Seq::empty(),
    }
}

/// A number that fits in an `i64`, or `-1` (missing) for any other value.
pub open spec fn number_or_missing(v: JsonValue) -> i64 {
    match i64_value(v) {
        Some(n) => n,
        None => -1i64,
    }
}

/// The version text of a listed item: empty when it has no `Version`;
/// else its `Major`, `Minor`, `Revision` and `Build` parts (see `ps_version`).
pub open spec fn listed_version(item: JsonValue) -> Seq<char> {
    let v = field(item, "Version"@);
    if v is Null {
        Seq::empty()
    } else {
        ps_version(
            number_or_missing(field(v, "Major"@)),
            number_or_missing(field(v, "Minor"@)),
            number_or_missing(field(v, "Revision"@)),
            number_or_missing(field(v, "Build"@)),
        )
    }
}

/// Whether a listed item describes a resource: it has a `Name` string (the
/// other item carries debugging information).
pub open spec fn is_listed_resource(item: JsonValue) -> bool {
    field(item, "Name"@) is String
}

/// Whether every listed resource has its properties as an array (the
/// listing is read as PowerShell's `Get-DscResource` writes it).
pub open spec fn listing_well_formed(items: Seq<JsonValue>) -> bool {
    forall|i: int| 0 <= i < items.len() && is_listed_resource(#[trigger] items[i]) ==> field(items[i], "Properties"@) is Array
}

/// The resource made of a listed item: its resource type, version, path,
/// parent path as directory, company as author and the names of its
/// properties, implemented by PowerShell; the rest as a new resource has it.
pub open spec fn listed_resource_of(item: JsonValue, r: DscResource) -> bool {
    &&& r.resource_type@ == text_or_empty(field(item, "ResourceType"@))
    &&& r.version@ == listed_version(item)
    &&& r.path@ == text_or_empty(field(item, "Path"@))
    &&& r.directory@ == text_or_empty(field(item, "ParentPath"@))
    &&& r.author matches Some(a) && a@ == text_or_empty(field(item, "CompanyName"@))
    &&& r.implemented_as matches ImplementedAs::Custom(n) && n@ == "PowerShell"@
    &&& string_views(r.properties@) == field(item, "Properties"@)->Array_0@.map_values(|p: JsonValue| text_or_empty(field(p, "Name"@)))
    &&& r.kind == crate::dscresources::resource_manifest::Kind::Resource
    &&& r.capabilities@.len() == 0
    &&& r.description is None
    &&& r.require_adapter is None
    &&& r.manifest is None
}

/// The listed items that describe resources, in order.
pub open spec fn listed_resource_items(items: Seq<JsonValue>) -> Seq<JsonValue>
    decreases items.len(),
{
    if items.len() == 0 {
        Seq::empty()
    } else {
        let prev = listed_resource_items(items.drop_last());
        if is_listed_resource(items.last()) { prev.push(items.last()) } else { prev }
    }
}

fn field_of<'a>(v: &'a JsonValue, key: &str) -> (r: Option<&'a JsonValue>)
    ensures
        r matches Some(x) ==> *x == field(*v, key@),
        r is None ==> field(*v, key@) is Null,
{
    match v {
        JsonValue::Object(ms) => {
            let k = String::from_str(key);
            proof { lemma_find_key(ms@, key@); }
            match find_member(ms, &k) {
                Some(j) => Some(&ms[j].1),
                None => None,
            }
        },
        _ => None,
    }
}

fn field_text(v: &JsonValue, key: &str) -> (r: String)
    ensures
        r@ == text_or_empty(field(*v, key@)),
{
    match field_of(v, key) {
        Some(JsonValue::String(t)) => t.clone(),
        _ => String::new(),
    }
}

fn field_number(v: &JsonValue, key: &str) -> (r: i64)
    ensures
        r == number_or_missing(field(*v, key@)),
{
    match field_of(v, key) {
        Some(x) => match x.as_i64() {
            Some(n) => n,
            None => -1,
        },
        None => -1,
    }
}

/// The resource that PowerShell listed as `item` (see `listed_resource_of`).
pub fn listed_resource(item: &JsonValue) -> (r: DscResource)
    requires
        field(*item, "Properties"@) is Array,
    ensures
        listed_resource_of(*item, r),
{
    let mut r = DscResource::new();
    r.resource_type = field_text(item, "ResourceType");
    r.version = match field_of(item, "Version") {
        None => String::new(),
        Some(JsonValue::Null) => String::new(),
        Some(v) => ps_version_text(
            field_number(v, "Major"),
            field_number(v, "Minor"),
            field_number(v, "Revision"),
            field_number(v, "Build"),
        ),
    };
    r.path = field_text(item, "Path");
    r.directory = field_text(item, "ParentPath");
    r.author = Some(field_text(item, "CompanyName"));
    r.implemented_as = ImplementedAs::Custom(String::from_str("PowerShell"));
    let props = match field_of(item, "Properties") {
        Some(JsonValue::Array(ps)) => ps,
        _ => {
            proof { assert(false); }
            return r;
        },
    };
    let ghost names = props@.map_values(|p: JsonValue| text_or_empty(field(p, "Name"@)));
    let mut out: Vec<String> = Vec::new();
    let mut i: usize = 0;
    while i < props.len()
        invariant
            i <= props@.len(),
            names == props@.map_values(|p: JsonValue| text_or_empty(field(p, "Name"@))),
            string_views(out@) == names.take(i as int),
        decreases props@.len() - i,
    {
        let t = field_text(&props[i], "Name");
        let ghost before = out@;
        out.push(t);
        proof {
            assert(string_views(out@) =~= string_views(before).push(t@));
            assert(names.take(i + 1) =~= names.take(i as int).push(names[i as int]));
        }
        i = i + 1;
    }
    assert(names.take(props@.len() as int) =~= names);
    r.properties = out;
    r
}

/// The resources that PowerShell listed, in order: one for each item that
/// describes a resource.
pub fn listed_resources(items: &Vec<JsonValue>) -> (r: Vec<DscResource>)
    requires
        listing_well_formed(items@),
    ensures
        r@.len() == listed_resource_items(items@).len(),
        forall|i: int| 0 <= i < r@.len() ==> listed_resource_of(listed_resource_items(items@)[i], #[trigger] r@[i]),
{
    let mut out: Vec<DscResource> = Vec::new();
    let mut i: usize = 0;
    while i < items.len()
        invariant
            i <= items@.len(),
            listing_well_formed(items@),
            out@.len() == listed_resource_items(items@.take(i as int)).len(),
            forall|k: int| 0 <= k < out@.len() ==> listed_resource_of(listed_resource_items(items@.take(i as int))[k], #[trigger] out@[k]),
        decreases items@.len() - i,
    {
        proof {
            let t = items@.take(i + 1);
            assert(t.drop_last() =~= items@.take(i as int));
            assert(t.last() == items@[i as int]);
        }
        let is_resource = match field_of(&items[i], "Name") {
            Some(JsonValue::String(_)) => true,
            _ => false,
        };
        if is_resource {
            assert(is_listed_resource(items@[i as int]));
            let res = listed_resource(&items[i]);
            out.push(res);
        }
        i = i + 1;
    }
    assert(items@.take(items@.len() as int) =~= items@);
    out
}

} // verus!
