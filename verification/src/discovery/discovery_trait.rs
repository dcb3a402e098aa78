use vstd::prelude::*;
use vstd::string::{StrSliceExecFns, StringExecFns};

use crate::strings::{lowercase, to_lowercase};

verus! {

/// What discovery looks for.
#[derive(Debug, Clone, Copy, PartialEq, Eq, Structural)]
pub enum DiscoveryKind {
    Resource,
    Extension,
}

/// A resource type, and optionally a version requirement, to look for.
#[derive(Debug)]
pub struct DiscoveryFilter {
    resource_type: String,
    version: Option<String>,
}

/// Whether `c` is an ASCII digit.
pub open spec fn is_ascii_digit(c: char) -> bool {
    '0' <= c <= '9'
}

/// A version that starts with a digit, made an exact requirement (`=`
/// before it); any other text as it is.
pub open spec fn exact_if_numeric(v: Seq<char>) -> Seq<char> {
    if v.len() > 0 && is_ascii_digit(v[0]) { seq!['='] + v } else { v }
}

impl DiscoveryFilter {
    /// The type, lower-cased, that the filter matches.
    pub closed spec fn spec_resource_type(&self) -> Seq<char> {
        self.resource_type@
    }

    /// The version requirement of the filter.
    pub closed spec fn spec_version(&self) -> Option<Seq<char>> {
        match self.version {
            Some(v) => Some(v@),
            None => None,
        }
    }

    /// A filter for the type in lower case; a version that starts with a
    /// digit becomes an exact requirement.
    pub fn new(resource_type: &str, version: Option<String>) -> (r: Self)
        ensures
            r.spec_resource_type() == lowercase(resource_type@),
            r.spec_version() == match version {
                Some(v) => Some(exact_if_numeric(v@)),
                None => None,
            },
    {
        let version = match version {
            Some(v) => {
                if v.as_str().unicode_len() > 0 {
                    let c = v.as_str().get_char(0);
                    if '0' <= c && c <= '9' {
                        let mut e = String::from_str("=");
                        e.append(v.as_str());
                        proof {
                            reveal_strlit("=");
                            assert(e@ =~= seq!['='] + v@);
                        }
                        Some(e)
                    } else {
                        Some(v)
                    }
                } else {
                    Some(v)
                }
            },
            None => None,
        };
        DiscoveryFilter { resource_type: to_lowercase(resource_type), version }
    }

    /// The type the filter matches.
    pub fn resource_type(&self) -> (r: &str)
        ensures
            r@ == self.spec_resource_type(),
    {
        self.resource_type.as_str()
    }

    /// The version requirement of the filter.
    pub fn version(&self) -> (r: Option<&String>)
        ensures
            match r {
                Some(v) => self.spec_version() == Some(v@),
                None => self.spec_version() is None,
            },
    {
        match &self.version {
            Some(v) => Some(v),
            None => None,
        }
    }
}

} // verus!
