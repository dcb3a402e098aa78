//! The `dependsOn` references between resources and the order in which the
//! resources of a configuration are invoked.

use vstd::prelude::*;
use vstd::string::{StrSliceExecFns, StringExecFns};

use crate::configure::config_doc::{Configuration, Resource};
use crate::dscerror::DscError;
use crate::dscresources::dscresource::{copy_opt_text, opt_text_eq};
use crate::json::{copy_members, members_same};

verus! {

/// Whether `c` is white space (the Unicode `White_Space` property, which
/// `\s` matches).
pub open spec fn is_ws(c: char) -> bool {
    ('\u{9}' <= c <= '\u{d}') || c == ' ' || c == '\u{85}' || c == '\u{a0}' || c == '\u{1680}'
        || ('\u{2000}' <= c <= '\u{200a}') || c == '\u{2028}' || c == '\u{2029}' || c == '\u{202f}'
        || c == '\u{205f}' || c == '\u{3000}'
}

fn ws(c: char) -> (r: bool)
    ensures
        r == is_ws(c),
{
    ('\u{9}' <= c && c <= '\u{d}') || c == ' ' || c == '\u{85}' || c == '\u{a0}' || c == '\u{1680}'
        || ('\u{2000}' <= c && c <= '\u{200a}') || c == '\u{2028}' || c == '\u{2029}' || c == '\u{202f}'
        || c == '\u{205f}' || c == '\u{3000}'
}

/// An ASCII letter or digit.
pub open spec fn is_alnum(c: char) -> bool {
    ('a' <= c <= 'z') || ('A' <= c <= 'Z') || ('0' <= c <= '9')
}

fn alnum(c: char) -> (r: bool)
    ensures
        r == is_alnum(c),
{
    ('a' <= c && c <= 'z') || ('A' <= c && c <= 'Z') || ('0' <= c && c <= '9')
}

/// A character of the part of a type name before the `/`.
pub open spec fn is_owner_char(c: char) -> bool {
    is_alnum(c) || c == '.'
}

/// Whether `t` splits at position `k` into `owner/name`.
pub open spec fn type_split_at(t: Seq<char>, k: int) -> bool {
    &&& 0 < k < t.len() - 1
    &&& t[k] == '/'
    &&& forall|i: int| 0 <= i < k ==> is_owner_char(#[trigger] t[i])
    &&& forall|i: int| k < i < t.len() ==> is_alnum(#[trigger] t[i])
}

/// A resource type: letters, digits and dots, a `/`, then letters and
/// digits.
pub open spec fn valid_type(t: Seq<char>) -> bool {
    exists|k: int| #[trigger] type_split_at(t, k)
}

/// A resource name: letters, digits and spaces.
pub open spec fn valid_name(n: Seq<char>) -> bool {
    n.len() > 0 && forall|i: int| 0 <= i < n.len() ==> (is_alnum(#[trigger] n[i]) || n[i] == ' ')
}

/// The end of the run of white space that starts at `i`.
pub open spec fn ws_end(s: Seq<char>, i: int) -> int
    decreases s.len() - i,
{
    if 0 <= i < s.len() && is_ws(s[i]) {
        ws_end(s, i + 1)
    } else {
        i
    }
}

/// The first position from `i` that holds a `'`, or the length.
pub open spec fn quote_end(s: Seq<char>, i: int) -> int
    decreases s.len() - i,
{
    if 0 <= i < s.len() && s[i] != '\'' {
        quote_end(s, i + 1)
    } else {
        i
    }
}

/// `[resourceId(`.
pub open spec fn open_token() -> Seq<char> {
    seq!['[', 'r', 'e', 's', 'o', 'u', 'r', 'c', 'e', 'I', 'd', '(']
}

/// The type and name that a `dependsOn` entry refers to: the text must be
/// `[resourceId(`, optional white space, the type in single quotes,
/// optional white space, a comma, optional white space, the name in single
/// quotes, optional white space and `)]`.
pub open spec fn parse_dep(s: Seq<char>) -> Option<(Seq<char>, Seq<char>)> {
    if s.len() < 12 || s.subrange(0, 12) != open_token() {
        None
    } else {
        let i1 = ws_end(s, 12);
        if i1 >= s.len() || s[i1] != '\'' {
            None
        } else {
            let j1 = quote_end(s, i1 + 1);
            let i2 = ws_end(s, j1 + 1);
            if j1 >= s.len() || i2 >= s.len() || s[i2] != ',' {
                None
            } else {
                let i3 = ws_end(s, i2 + 1);
                if i3 >= s.len() || s[i3] != '\'' {
                    None
                } else {
                    let j2 = quote_end(s, i3 + 1);
                    let i4 = ws_end(s, j2 + 1);
                    let t = s.subrange(i1 + 1, j1);
                    let n = s.subrange(i3 + 1, j2);
                    if j2 >= s.len() || i4 + 2 != s.len() || s[i4] != ')' || s[i4 + 1] != ']' {
                        None
                    } else if valid_type(t) && valid_name(n) {
                        Some((t, n))
                    } else {
                        None
                    }
                }
            }
        }
    }
}

fn ws_end_exec(s: &str, n: usize, i: usize) -> (r: usize)
    requires
        n == s@.len(),
        i <= n,
    ensures
        r == ws_end(s@, i as int),
        i <= r <= n,
    decreases n - i,
{
    if i < n && ws(s.get_char(i)) {
        ws_end_exec(s, n, i + 1)
    } else {
        i
    }
}

fn quote_end_exec(s: &str, n: usize, i: usize) -> (r: usize)
    requires
        n == s@.len(),
        i <= n,
    ensures
        r == quote_end(s@, i as int),
        i <= r <= n,
    decreases n - i,
{
    if i < n && s.get_char(i) != '\'' {
        quote_end_exec(s, n, i + 1)
    } else {
        i
    }
}

fn check_type(t: &str) -> (r: bool)
    ensures
        r == valid_type(t@),
{
    let n = t.unicode_len();
    let mut k: usize = 0;
    while k < n && is_owner(t.get_char(k))
        invariant
            n == t@.len(),
            k <= n,
            forall|i: int| 0 <= i < k ==> is_owner_char(#[trigger] t@[i]),
        decreases n - k,
    {
        k = k + 1;
    }
    if k == 0 || n - k <= 1 || t.get_char(k) != '/' {
        proof {
            assert forall|kk: int| !#[trigger] type_split_at(t@, kk) by {
                if type_split_at(t@, kk) {
                    if kk < k {
                        assert(is_owner_char(t@[kk]));
                    } else if kk > k {
                        assert(k < n);
                        assert(!is_owner_char(t@[k as int]));
                    }
                }
            }
        }
        return false;
    }
    let mut j: usize = k + 1;
    while j < n
        invariant
            n == t@.len(),
            0 < k < j <= n,
            t@[k as int] == '/',
            forall|i: int| 0 <= i < k ==> is_owner_char(#[trigger] t@[i]),
            forall|i: int| k < i < j ==> is_alnum(#[trigger] t@[i]),
        decreases n - j,
    {
        if !alnum(t.get_char(j)) {
            proof {
                assert forall|kk: int| !#[trigger] type_split_at(t@, kk) by {
                    if type_split_at(t@, kk) {
                        if kk < k {
                            assert(is_owner_char(t@[kk]));
                        } else if kk > k {
                            assert(!is_owner_char(t@[k as int]));
                        } else {
                            assert(is_alnum(t@[j as int]));
                        }
                    }
                }
            }
            return false;
        }
        j = j + 1;
    }
    assert(type_split_at(t@, k as int));
    true
}

fn is_owner(c: char) -> (r: bool)
    ensures
        r == is_owner_char(c),
{
    alnum(c) || c == '.'
}

fn check_name(s: &str) -> (r: bool)
    ensures
        r == valid_name(s@),
{
    let n = s.unicode_len();
    if n == 0 {
        return false;
    }
    let mut i: usize = 0;
    while i < n
        invariant
            n == s@.len(),
            i <= n,
            forall|k: int| 0 <= k < i ==> (is_alnum(#[trigger] s@[k]) || s@[k] == ' '),
        decreases n - i,
    {
        let c = s.get_char(i);
        if !(alnum(c) || c == ' ') {
            return false;
        }
        i = i + 1;
    }
    true
}

/// The type and the name that a `dependsOn` entry refers to, or `None`
/// when its syntax is wrong.
pub fn parse_depends_on(s: &str) -> (r: Option<(String, String)>)
    ensures
        match (r, parse_dep(s@)) {
            (Some((t, n)), Some((ts, ns))) => t@ == ts && n@ == ns,
            (None, None) => true,
            _ => false,
        },
{
    let len = s.unicode_len();
    if len < 12 {
        return None;
    }
    let head = s.substring_char(0, 12);
    let mut k: usize = 0;
    let open = ['[', 'r', 'e', 's', 'o', 'u', 'r', 'c', 'e', 'I', 'd', '('];
    while k < 12
        invariant
            k <= 12,
            s@.len() >= 12,
            head@ == s@.subrange(0, 12),
            open@ == open_token(),
            forall|t: int| 0 <= t < k ==> head@[t] == open_token()[t],
        decreases 12 - k,
    {
        if head.get_char(k) != open[k] {
            assert(s@.subrange(0, 12)[k as int] != open_token()[k as int]);
            return None;
        }
        k = k + 1;
    }
    assert(s@.subrange(0, 12) =~= open_token());
    let i1 = ws_end_exec(s, len, 12);
    if i1 >= len || s.get_char(i1) != '\'' {
        return None;
    }
    let j1 = quote_end_exec(s, len, i1 + 1);
    if j1 >= len {
        return None;
    }
    let i2 = ws_end_exec(s, len, j1 + 1);
    if i2 >= len || s.get_char(i2) != ',' {
        return None;
    }
    let i3 = ws_end_exec(s, len, i2 + 1);
    if i3 >= len || s.get_char(i3) != '\'' {
        return None;
    }
    let j2 = quote_end_exec(s, len, i3 + 1);
    if j2 >= len {
        return None;
    }
    let i4 = ws_end_exec(s, len, j2 + 1);
    if len < 2 || i4 != len - 2 || s.get_char(i4) != ')' || s.get_char(i4 + 1) != ']' {
        return None;
    }
    let t = s.substring_char(i1 + 1, j1);
    let n = s.substring_char(i3 + 1, j2);
    if check_type(t) && check_name(n) {
        Some((String::from_str(t), String::from_str(n)))
    } else {
        None
    }
}

/// Whether `r` has the name and the type.
pub open spec fn same_id(r: Resource, name: Seq<char>, rtype: Seq<char>) -> bool {
    r.name@ == name && r.resource_type@ == rtype
}

/// The first position of a resource named `name`, or -1.
pub open spec fn first_named(res: Seq<Resource>, name: Seq<char>) -> int
    decreases res.len(),
{
    if res.len() == 0 {
        -1
    } else {
        let p = first_named(res.drop_last(), name);
        if p >= 0 {
            p
        } else if res.last().name@ == name {
            res.len() - 1
        } else {
            -1
        }
    }
}

/// Whether another resource has the same name and type as resource `k`.
pub open spec fn has_twin(res: Seq<Resource>, k: int) -> bool {
    exists|j: int| 0 <= j < res.len() && j != k && #[trigger] same_id(res[j], res[k].name@, res[k].resource_type@)
}

/// The dependencies of a resource.
pub open spec fn deps_of(r: Resource) -> Seq<String> {
    match r.depends_on {
        Some(d) => d@,
        None => Seq::empty(),
    }
}

/// Whether two resources are the same.
pub open spec fn resource_same(a: Resource, b: Resource) -> bool {
    &&& a.name@ == b.name@
    &&& a.resource_type@ == b.resource_type@
    &&& match (a.depends_on, b.depends_on) {
        (Some(x), Some(y)) => x@.len() == y@.len() && forall|i: int| 0 <= i < x@.len() ==> (#[trigger] x@[i])@ == y@[i]@,
        (None, None) => true,
        _ => false,
    }
    &&& opt_text_eq(a.kind, b.kind)
    &&& match (a.properties, b.properties) {
        (Some(x), Some(y)) => members_same(x@, y@),
        (None, None) => true,
        _ => false,
    }
    &&& match (a.metadata, b.metadata) {
        (Some(x), Some(y)) => members_same(x@, y@),
        (None, None) => true,
        _ => false,
    }
}

fn copy_strings(v: &Vec<String>) -> (r: Vec<String>)
    ensures
        r@.len() == v@.len(),
        forall|i: int| 0 <= i < v@.len() ==> (#[trigger] r@[i])@ == v@[i]@,
{
    let mut out: Vec<String> = Vec::new();
    let mut i: usize = 0;
    while i < v.len()
        invariant
            i <= v@.len(),
            out@.len() == i,
            forall|k: int| 0 <= k < i ==> (#[trigger] out@[k])@ == v@[k]@,
        decreases v@.len() - i,
    {
        out.push(v[i].clone());
        i = i + 1;
    }
    out
}

impl Resource {
    /// A copy of the resource.
    pub fn deep_copy(&self) -> (r: Resource)
        ensures
            resource_same(r, *self),
    {
        Resource {
            resource_type: self.resource_type.clone(),
            name: self.name.clone(),
            depends_on: match &self.depends_on {
                Some(d) => Some(copy_strings(d)),
                None => None,
            },
            kind: copy_opt_text(&self.kind),
            properties: match &self.properties {
                Some(p) => Some(copy_members(p)),
                None => None,
            },
            metadata: match &self.metadata {
                Some(m) => Some(copy_members(m)),
                None => None,
            },
        }
    }
}

fn find_named(res: &Vec<Resource>, name: &String) -> (r: Option<usize>)
    ensures
        match r {
            Some(j) => j as int == first_named(res@, name@) && j < res@.len() && res@[j as int].name@ == name@,
            None => first_named(res@, name@) == -1,
        },
{
    let mut i: usize = 0;
    while i < res.len()
        invariant
            i <= res@.len(),
            first_named(res@.take(i as int), name@) == -1,
        decreases res@.len() - i,
    {
        proof {
            let t = res@.take(i + 1);
            assert(t.drop_last() =~= res@.take(i as int));
        }
        if res[i].name == *name {
            proof { lemma_first_named_prefix(res@, name@, i + 1); }
            return Some(i);
        }
        i = i + 1;
    }
    assert(res@.take(i as int) =~= res@);
    None
}

proof fn lemma_first_named_prefix(res: Seq<Resource>, name: Seq<char>, k: int)
    requires
        0 < k <= res.len(),
        first_named(res.take(k), name) >= 0,
    ensures
        first_named(res, name) == first_named(res.take(k), name),
    decreases res.len() - k,
{
    if k < res.len() {
        let t = res.take(k + 1);
        assert(t.drop_last() =~= res.take(k));
        lemma_first_named_prefix(res, name, k + 1);
    } else {
        assert(res.take(k) =~= res);
    }
}

fn validation(text: &str, name: &String) -> (r: DscError)
    ensures
        r is Validation,
{
    let mut m = String::from_str(text);
    m.append(" '");
    m.append(name.as_str());
    m.append("'");
    DscError::Validation(m)
}

/// The resource that a `dependsOn` entry names: the first resource with
/// the entry's name, when the entry is well formed and that resource has
/// the entry's type.
pub open spec fn dep_target(res: Seq<Resource>, d: Seq<char>) -> Option<int> {
    match parse_dep(d) {
        None => None,
        Some((t, n)) => {
            let j = first_named(res, n);
            if j >= 0 && res[j].resource_type@ == t { Some(j) } else { None }
        },
    }
}

/// Whether every `dependsOn` entry of every resource names a resource.
pub open spec fn deps_valid(res: Seq<Resource>) -> bool {
    forall|k: int, i: int| 0 <= k < res.len() && 0 <= i < deps_of(res[k]).len()
        ==> #[trigger] dep_target(res, deps_of(res[k])[i]@) is Some
}

/// Whether no two resources have the same name and type.
pub open spec fn no_twins(res: Seq<Resource>) -> bool {
    forall|k: int| 0 <= k < res.len() ==> !#[trigger] has_twin(res, k)
}

/// Whether resource `k` depends on resource `j`.
pub open spec fn depends(res: Seq<Resource>, k: int, j: int) -> bool {
    exists|i: int| 0 <= i < deps_of(res[k]).len() && #[trigger] dep_target(res, deps_of(res[k])[i]@) == Some(j)
}

/// Whether no position occurs twice.
pub open spec fn no_repeats(o: Seq<int>) -> bool {
    forall|a: int, b: int| 0 <= a < b < o.len() ==> o[a] != o[b]
}

/// Whether every entry is a position of `res`.
pub open spec fn positions_of(o: Seq<int>, n: int) -> bool {
    forall|a: int| 0 <= a < o.len() ==> 0 <= #[trigger] o[a] < n
}

/// Whether position `k` occurs in `o`.
pub open spec fn occurs(o: Seq<int>, k: int) -> bool {
    exists|a: int| 0 <= a < o.len() && o[a] == k
}

/// Whether `o` is an order in which the resources can be invoked: each
/// resource exactly once, and every resource after each resource it
/// depends on.
pub open spec fn dependency_order(res: Seq<Resource>, o: Seq<int>) -> bool {
    &&& no_repeats(o)
    &&& positions_of(o, res.len() as int)
    &&& forall|q: int| 0 <= q < res.len() ==> #[trigger] occurs(o, q)
    &&& forall|a: int, b: int| 0 <= a < o.len() && 0 <= b < o.len() && #[trigger] depends(res, o[b], o[a]) ==> a < b
}

/// Whether `p` is a chain of resources, each depending on the next, the
/// last on the first.
pub open spec fn is_cycle(res: Seq<Resource>, p: Seq<int>) -> bool {
    &&& p.len() > 0
    &&& positions_of(p, res.len() as int)
    &&& forall|i: int| 0 <= i < p.len() - 1 ==> #[trigger] depends(res, p[i], p[i + 1])
    &&& depends(res, p[p.len() - 1], p[0])
}

/// Whether some resources depend on each other in a circle.
pub open spec fn has_cycle(res: Seq<Resource>) -> bool {
    exists|p: Seq<int>| #[trigger] is_cycle(res, p)
}

/// Whether `p` is a chain of resources, each depending on the next.
pub open spec fn is_chain(res: Seq<Resource>, p: Seq<int>) -> bool {
    &&& p.len() > 0
    &&& positions_of(p, res.len() as int)
    &&& forall|i: int| 0 <= i < p.len() - 1 ==> #[trigger] depends(res, p[i], p[i + 1])
}

/// Whether resource `u` leads to resource `v` through its dependencies
/// (every resource leads to itself).
pub open spec fn leads_to(res: Seq<Resource>, u: int, v: int) -> bool {
    exists|p: Seq<int>| #[trigger] is_chain(res, p) && p[0] == u && p[p.len() - 1] == v
}

/// Whether `i` is invoked before `j` in the order `o`.
pub open spec fn invoked_before(o: Seq<int>, i: int, j: int) -> bool {
    exists|a: int, b: int| #![trigger o[a], o[b]] 0 <= a < b < o.len() && o[a] == i && o[b] == j
}

/// Whether the order keeps the listing order where dependencies do not ask
/// otherwise: a resource comes before a later-listed one unless that one is
/// a dependency, direct or not, of it or of a resource listed before it.
pub open spec fn keeps_listing_order(res: Seq<Resource>, o: Seq<int>) -> bool {
    forall|i: int, j: int| 0 <= i < j < res.len() && (forall|q: int| 0 <= q <= i ==> !#[trigger] leads_to(res, q, j))
        ==> #[trigger] invoked_before(o, i, j)
}

/// Along a chain of dependencies, positions in an invocation order fall.
proof fn lemma_chain_falls(res: Seq<Resource>, o: Seq<int>, p: Seq<int>, i: int, pos: spec_fn(int) -> int)
    requires
        dependency_order(res, o),
        is_cycle(res, p),
        0 <= i < p.len(),
        forall|q: int| 0 <= q < res.len() ==> 0 <= #[trigger] pos(q) < o.len() && o[pos(q)] == q,
    ensures
        pos(p[i]) >= pos(p[p.len() - 1]),
    decreases p.len() - i,
{
    if i < p.len() - 1 {
        lemma_chain_falls(res, o, p, i + 1, pos);
        assert(depends(res, p[i], p[i + 1]));
        assert(depends(res, o[pos(p[i])], o[pos(p[i + 1])]));
    }
}

/// Resources that depend on each other in a circle have no invocation
/// order.
pub proof fn lemma_cycle_has_no_order(res: Seq<Resource>, p: Seq<int>, o: Seq<int>)
    requires
        is_cycle(res, p),
    ensures
        !dependency_order(res, o),
{
    if dependency_order(res, o) {
        let pos = |q: int| choose|a: int| 0 <= a < o.len() && o[a] == q;
        assert forall|q: int| 0 <= q < res.len() implies 0 <= #[trigger] pos(q) < o.len() && o[pos(q)] == q by {
            assert(occurs(o, q));
        }
        lemma_chain_falls(res, o, p, 0, pos);
        let l = p[p.len() - 1];
        assert(depends(res, l, p[0]));
        assert(depends(res, o[pos(l)], o[pos(p[0])]));
    }
}

/// Whether the graph `g` has an edge from `u` to `t`.
pub open spec fn edge(g: Seq<Vec<usize>>, u: int, t: int) -> bool {
    exists|i: int| 0 <= i < g[u]@.len() && #[trigger] g[u]@[i] as int == t
}

/// Whether every edge of `g` leads to a node of `g`.
pub open spec fn graph_ok(g: Seq<Vec<usize>>) -> bool {
    forall|u: int, i: int| 0 <= u < g.len() && 0 <= i < g[u]@.len() ==> (#[trigger] g[u]@[i] as int) < g.len()
}

/// Whether `p` is a cycle of `g`.
pub open spec fn graph_cycle(g: Seq<Vec<usize>>, p: Seq<int>) -> bool {
    &&& p.len() > 0
    &&& forall|i: int| 0 <= i < p.len() ==> 0 <= #[trigger] p[i] < g.len()
    &&& forall|i: int| 0 <= i < p.len() - 1 ==> #[trigger] edge(g, p[i], p[i + 1])
    &&& edge(g, p[p.len() - 1], p[0])
}

/// The first position of `x` in `o`, or -1.
pub open spec fn index_in(o: Seq<usize>, x: int) -> int
    decreases o.len(),
{
    if o.len() == 0 {
        -1
    } else {
        let p = index_in(o.drop_last(), x);
        if p >= 0 { p } else if o.last() as int == x { o.len() - 1 } else { -1 }
    }
}

proof fn lemma_index_in(o: Seq<usize>, x: int)
    ensures
        -1 <= index_in(o, x) < o.len(),
        index_in(o, x) >= 0 ==> o[index_in(o, x)] as int == x,
        forall|a: int| 0 <= a < o.len() && o[a] as int == x ==> 0 <= index_in(o, x) <= a,
    decreases o.len(),
{
    if o.len() > 0 {
        lemma_index_in(o.drop_last(), x);
        assert forall|a: int| 0 <= a < o.len() && o[a] as int == x implies 0 <= index_in(o, x) <= a by {
            if a < o.len() - 1 {
                assert(o.drop_last()[a] == o[a]);
            }
        }
        if index_in(o.drop_last(), x) >= 0 {
            assert(o.drop_last()[index_in(o.drop_last(), x)] == o[index_in(o.drop_last(), x)]);
        }
    }
}

proof fn lemma_index_in_push(o: Seq<usize>, y: usize, x: int)
    ensures
        index_in(o.push(y), x) == if index_in(o, x) >= 0 { index_in(o, x) } else if y as int == x { o.len() as int } else { -1 },
{
    assert(o.push(y).drop_last() =~= o);
}

/// How many nodes are not yet visited.
pub open spec fn unvisited(s: Seq<u8>) -> nat
    decreases s.len(),
{
    if s.len() == 0 { 0 } else { unvisited(s.drop_last()) + if s.last() == 0 { 1nat } else { 0nat } }
}

proof fn lemma_unvisited_le(s1: Seq<u8>, s2: Seq<u8>)
    requires
        s1.len() == s2.len(),
        forall|x: int| 0 <= x < s2.len() && s2[x] == 0 ==> s1[x] == 0,
    ensures
        unvisited(s2) <= unvisited(s1),
    decreases s1.len(),
{
    if s1.len() > 0 {
        assert forall|x: int| 0 <= x < s2.drop_last().len() && s2.drop_last()[x] == 0 implies s1.drop_last()[x] == 0 by {
            assert(s2[x] == 0);
        }
        lemma_unvisited_le(s1.drop_last(), s2.drop_last());
    }
}

proof fn lemma_unvisited_lt(s1: Seq<u8>, s2: Seq<u8>, k: int)
    requires
        s1.len() == s2.len(),
        forall|x: int| 0 <= x < s2.len() && s2[x] == 0 ==> s1[x] == 0,
        0 <= k < s1.len(),
        s1[k] == 0,
        s2[k] != 0,
    ensures
        unvisited(s2) < unvisited(s1),
    decreases s1.len(),
{
    assert forall|x: int| 0 <= x < s2.drop_last().len() && s2.drop_last()[x] == 0 implies s1.drop_last()[x] == 0 by {
        assert(s2[x] == 0);
    }
    if k == s1.len() - 1 {
        lemma_unvisited_le(s1.drop_last(), s2.drop_last());
    } else {
        lemma_unvisited_lt(s1.drop_last(), s2.drop_last(), k);
    }
}

/// Whether `p` is a path of `g`: nodes of `g`, each with an edge to the next.
pub open spec fn g_path(g: Seq<Vec<usize>>, p: Seq<int>) -> bool {
    &&& p.len() > 0
    &&& forall|i: int| 0 <= i < p.len() ==> 0 <= #[trigger] p[i] < g.len()
    &&& forall|i: int| 0 <= i < p.len() - 1 ==> #[trigger] edge(g, p[i], p[i + 1])
}

/// Whether a path of `g` leads from `u` to `v`.
pub open spec fn g_reach(g: Seq<Vec<usize>>, u: int, v: int) -> bool {
    exists|p: Seq<int>| #[trigger] g_path(g, p) && p[0] == u && p[p.len() - 1] == v
}

proof fn lemma_g_reach_self(g: Seq<Vec<usize>>, u: int)
    requires
        0 <= u < g.len(),
    ensures
        g_reach(g, u, u),
{
    let p = seq![u];
    assert(g_path(g, p));
}

proof fn lemma_g_reach_prepend(g: Seq<Vec<usize>>, k: int, t: int, v: int)
    requires
        0 <= k < g.len(),
        edge(g, k, t),
        g_reach(g, t, v),
    ensures
        g_reach(g, k, v),
{
    let p = choose|p: Seq<int>| #[trigger] g_path(g, p) && p[0] == t && p[p.len() - 1] == v;
    let q = seq![k] + p;
    assert forall|i: int| 0 <= i < q.len() implies 0 <= #[trigger] q[i] < g.len() by {
        if i > 0 {
            assert(q[i] == p[i - 1]);
        }
    }
    assert forall|i: int| 0 <= i < q.len() - 1 implies #[trigger] edge(g, q[i], q[i + 1]) by {
        if i > 0 {
            let j = i - 1;
            assert(q[i] == p[j] && q[i + 1] == p[j + 1]);
            assert(edge(g, p[j], p[j + 1]));
        }
    }
    assert(g_path(g, q));
}

/// What holds while the graph is searched: nodes are unvisited (0), being
/// visited (1: exactly those on `stack`, a path of the graph) or done (2:
/// exactly those in `order`, once each, each after every node it has an
/// edge to).
pub open spec fn search_inv(g: Seq<Vec<usize>>, st: Seq<u8>, order: Seq<usize>, stack: Seq<int>) -> bool {
    &&& graph_ok(g)
    &&& st.len() == g.len()
    &&& forall|x: int| 0 <= x < g.len() ==> #[trigger] st[x] <= 2
    &&& forall|x: int| 0 <= x < g.len() ==> (#[trigger] st[x] == 1 <==> stack.contains(x))
    &&& forall|j: int| 0 <= j < stack.len() ==> 0 <= #[trigger] stack[j] < g.len()
    &&& forall|j: int| 0 <= j < stack.len() - 1 ==> #[trigger] edge(g, stack[j], stack[j + 1])
    &&& forall|a: int| 0 <= a < order.len() ==> (#[trigger] order[a] as int) < g.len()
    &&& forall|x: int| 0 <= x < g.len() ==> (#[trigger] st[x] == 2 <==> index_in(order, x) >= 0)
    &&& forall|a: int, b: int| 0 <= a < b < order.len() ==> order[a] != order[b]
    &&& forall|a: int, i: int| 0 <= a < order.len() && 0 <= i < g[order[a] as int]@.len()
        ==> 0 <= #[trigger] index_in(order, g[order[a] as int]@[i] as int) < a
}

/// Visits node `k` and, first, every node it leads to: on success `k` and
/// all of them are done, each placed after the nodes it has edges to; a
/// node met again while it is being visited shows a cycle.
fn visit(g: &Vec<Vec<usize>>, k: usize, st: &mut Vec<u8>, order: &mut Vec<usize>, Ghost(stack): Ghost<Seq<int>>) -> (ok: bool)
    requires
        search_inv(g@, old(st)@, old(order)@, stack),
        k < g@.len(),
        old(st)@[k as int] == 0,
        stack.len() > 0 ==> edge(g@, stack[stack.len() - 1], k as int),
    ensures
        final(st)@.len() == g@.len(),
        ok ==> search_inv(g@, final(st)@, final(order)@, stack),
        ok ==> final(st)@[k as int] == 2,
        ok ==> forall|x: int| 0 <= x < g@.len() && old(st)@[x] != 0 ==> #[trigger] final(st)@[x] == old(st)@[x],
        ok ==> forall|x: int| 0 <= x < g@.len() && #[trigger] final(st)@[x] == 0 ==> old(st)@[x] == 0,
        ok ==> final(order)@.len() >= old(order)@.len(),
        ok ==> forall|a: int| 0 <= a < old(order)@.len() ==> #[trigger] final(order)@[a] == old(order)@[a],
        ok ==> forall|a: int| old(order)@.len() <= a < final(order)@.len() ==> g_reach(g@, k as int, #[trigger] final(order)@[a] as int),
        !ok ==> exists|p: Seq<int>| #[trigger] graph_cycle(g@, p),
    decreases unvisited(old(st)@),
{
    let ghost st0 = st@;
    let ghost o0 = order@;
    let ghost n = g@.len();
    st.set(k, 1);
    let ghost s2 = stack.push(k as int);
    proof {
        assert forall|x: int| 0 <= x < n implies (#[trigger] st@[x] == 1 <==> s2.contains(x)) by {
            if s2.contains(x) && x != k {
                let j = choose|j: int| 0 <= j < s2.len() && s2[j] == x;
                assert(stack[j] == x);
            }
            if x == k {
                assert(s2[stack.len() as int] == x);
            } else if stack.contains(x) {
                let j = choose|j: int| 0 <= j < stack.len() && stack[j] == x;
                assert(s2[j] == x);
            }
        }
        assert forall|j: int| 0 <= j < s2.len() - 1 implies #[trigger] edge(g@, s2[j], s2[j + 1]) by {
            if j < stack.len() - 1 {
                assert(edge(g@, stack[j], stack[j + 1]));
            }
        }
        assert forall|x: int| 0 <= x < n implies (#[trigger] st@[x] == 2 <==> index_in(order@, x) >= 0) by {
            if x != k {
                assert(st@[x] == st0[x]);
            }
        }
        lemma_unvisited_lt(st0, st@, k as int);
    }
    let mut i: usize = 0;
    while i < g[k].len()
        invariant
            n == g@.len(),
            k < n,
            st0.len() == n,
            st0 == old(st)@,
            st0[k as int] == 0,
            s2 == stack.push(k as int),
            search_inv(g@, st@, order@, s2),
            st@[k as int] == 1,
            i <= g@[k as int]@.len(),
            forall|j: int| 0 <= j < i ==> st@[#[trigger] g@[k as int]@[j] as int] == 2,
            forall|x: int| 0 <= x < n && st0[x] != 0 ==> #[trigger] st@[x] == st0[x],
            forall|x: int| 0 <= x < n && #[trigger] st@[x] == 0 ==> st0[x] == 0,
            unvisited(st@) < unvisited(st0),
            o0 == old(order)@,
            order@.len() >= o0.len(),
            forall|a: int| 0 <= a < o0.len() ==> #[trigger] order@[a] == o0[a],
            forall|a: int| o0.len() <= a < order@.len() ==> g_reach(g@, k as int, #[trigger] order@[a] as int),
        decreases g@[k as int]@.len() - i,
    {
        let t = g[k][i];
        proof {
            assert(g@[k as int]@[i as int] == t);
            assert(edge(g@, k as int, t as int));
        }
        if st[t] == 2 {
        } else if st[t] == 1 {
            proof {
                assert(st@[t as int] == 1);
                let j = choose|j: int| 0 <= j < s2.len() && s2[j] == t as int;
                let p = s2.subrange(j, s2.len() as int);
                assert(p[p.len() - 1] == k as int);
                assert(p[0] == t as int);
                assert forall|q: int| 0 <= q < p.len() - 1 implies #[trigger] edge(g@, p[q], p[q + 1]) by {
                    assert(edge(g@, s2[j + q], s2[j + q + 1]));
                }
                assert forall|q: int| 0 <= q < p.len() implies 0 <= #[trigger] p[q] < g@.len() by {
                    assert(p[q] == s2[j + q]);
                }
                assert(graph_cycle(g@, p));
            }
            return false;
        } else {
            let ghost before = st@;
            let ghost ob = order@;
            proof {
                assert(s2[s2.len() - 1] == k as int);
            }
            let ok = visit(g, t, st, order, Ghost(s2));
            if !ok {
                return false;
            }
            proof {
                assert forall|a: int| 0 <= a < o0.len() implies #[trigger] order@[a] == o0[a] by {
                    assert(order@[a] == ob[a]);
                }
                assert forall|a: int| o0.len() <= a < order@.len() implies g_reach(g@, k as int, #[trigger] order@[a] as int) by {
                    if a < ob.len() {
                        assert(order@[a] == ob[a]);
                    } else {
                        lemma_g_reach_prepend(g@, k as int, t as int, order@[a] as int);
                    }
                }
                assert forall|x: int| 0 <= x < n && st0[x] != 0 implies #[trigger] st@[x] == st0[x] by {
                    assert(before[x] == st0[x]);
                }
                assert forall|x: int| 0 <= x < n && #[trigger] st@[x] == 0 implies st0[x] == 0 by {
                    assert(before[x] == 0);
                }
                lemma_unvisited_lt(st0, st@, k as int);
                assert forall|j: int| 0 <= j < i + 1 implies st@[#[trigger] g@[k as int]@[j] as int] == 2 by {
                    if j < i {
                        assert(before[g@[k as int]@[j] as int] == 2);
                    }
                }
            }
        }
        i = i + 1;
    }
    let ghost st1 = st@;
    let ghost o1 = order@;
    st.set(k, 2);
    order.push(k);
    proof {
        assert(!stack.contains(k as int)) by {
            if stack.contains(k as int) {
                let j = choose|j: int| 0 <= j < stack.len() && stack[j] == k as int;
                assert(s2[j] == k as int);
            }
        }
        assert(index_in(o1, k as int) < 0);
        lemma_index_in(o1, k as int);
        assert forall|x: int| 0 <= x < n implies #[trigger] index_in(order@, x) == if index_in(o1, x) >= 0 { index_in(o1, x) } else if k as int == x { o1.len() as int } else { -1 } by {
            lemma_index_in_push(o1, k, x);
        }
        assert forall|x: int| 0 <= x < n implies (#[trigger] st@[x] == 1 <==> stack.contains(x)) by {
            if x != k {
                assert(st1[x] == st@[x]);
                if stack.contains(x) {
                    let j = choose|j: int| 0 <= j < stack.len() && stack[j] == x;
                    assert(s2[j] == x);
                }
                if s2.contains(x) {
                    let j = choose|j: int| 0 <= j < s2.len() && s2[j] == x;
                    if j < stack.len() {
                        assert(stack[j] == x);
                    }
                }
            }
        }
        assert forall|a: int, b: int| 0 <= a < b < order@.len() implies order@[a] != order@[b] by {
            if b == o1.len() {
                lemma_index_in(o1, o1[a] as int);
                assert(o1[a] < n);
                if o1[a] == k {
                    assert(index_in(o1, k as int) >= 0);
                }
            } else {
                assert(o1[a] == order@[a] && o1[b] == order@[b]);
            }
        }
        assert forall|a: int, j: int| 0 <= a < order@.len() && 0 <= j < g@[order@[a] as int]@.len()
            implies 0 <= #[trigger] index_in(order@, g@[order@[a] as int]@[j] as int) < a by {
            let y = g@[order@[a] as int]@[j] as int;
            assert(y < n);
            lemma_index_in(o1, y);
            assert(index_in(order@, y) == if index_in(o1, y) >= 0 { index_in(o1, y) } else if k as int == y { o1.len() as int } else { -1 });
            if a < o1.len() {
                assert(order@[a] == o1[a]);
                assert(0 <= index_in(o1, g@[o1[a] as int]@[j] as int) < a);
            } else {
                assert(order@[a] == k);
                assert(st1[g@[k as int]@[j] as int] == 2);
                assert(index_in(o1, y) >= 0);
            }
        }
        assert forall|x: int| 0 <= x < n implies (#[trigger] st@[x] == 2 <==> index_in(order@, x) >= 0) by {
            if x != k {
                assert(st1[x] == st@[x]);
            }
        }
        assert forall|x: int| 0 <= x < n && st0[x] != 0 implies #[trigger] st@[x] == st0[x] by {
            assert(x != k);
        }
        assert forall|x: int| 0 <= x < n && #[trigger] st@[x] == 0 implies st0[x] == 0 by {
            assert(x != k);
            assert(st1[x] == 0);
        }
        assert forall|a: int| 0 <= a < order@.len() implies (#[trigger] order@[a] as int) < g@.len() by {
            if a < o1.len() {
                assert(order@[a] == o1[a]);
            }
        }
        assert forall|a: int| 0 <= a < o0.len() implies #[trigger] order@[a] == o0[a] by {
            assert(order@[a] == o1[a]);
        }
        assert forall|a: int| o0.len() <= a < order@.len() implies g_reach(g@, k as int, #[trigger] order@[a] as int) by {
            if a < o1.len() {
                assert(order@[a] == o1[a]);
            } else {
                lemma_g_reach_self(g@, k as int);
            }
        }
    }
    true
}

/// The first resource named `name`, if any, has that name.
proof fn lemma_first_named_range(res: Seq<Resource>, name: Seq<char>)
    ensures
        -1 <= first_named(res, name) < res.len(),
        first_named(res, name) >= 0 ==> res[first_named(res, name)].name@ == name,
    decreases res.len(),
{
    if res.len() > 0 {
        lemma_first_named_range(res.drop_last(), name);
        if first_named(res.drop_last(), name) >= 0 {
            assert(res.drop_last()[first_named(res.drop_last(), name)] == res[first_named(res.drop_last(), name)]);
        }
    }
}

/// Whether `g` holds, for each resource, the resources its `dependsOn`
/// entries name, in order.
pub open spec fn targets_of(res: Seq<Resource>, g: Seq<Vec<usize>>) -> bool {
    &&& g.len() == res.len()
    &&& forall|k: int| 0 <= k < res.len() ==> #[trigger] g[k]@.len() == deps_of(res[k]).len()
    &&& forall|k: int, i: int| 0 <= k < res.len() && 0 <= i < deps_of(res[k]).len()
        ==> dep_target(res, deps_of(res[k])[i]@) == Some(#[trigger] g[k]@[i] as int)
}

proof fn lemma_reach_leads(res: Seq<Resource>, g: Seq<Vec<usize>>, u: int, v: int)
    requires
        targets_of(res, g),
        g_reach(g, u, v),
    ensures
        leads_to(res, u, v),
{
    let p = choose|p: Seq<int>| #[trigger] g_path(g, p) && p[0] == u && p[p.len() - 1] == v;
    assert forall|i: int| 0 <= i < p.len() - 1 implies #[trigger] depends(res, p[i], p[i + 1]) by {
        assert(edge(g, p[i], p[i + 1]));
        let w = choose|w: int| 0 <= w < g[p[i]]@.len() && #[trigger] g[p[i]]@[w] as int == p[i + 1];
        assert(dep_target(res, deps_of(res[p[i]])[w]@) == Some(g[p[i]]@[w] as int));
    }
    assert(is_chain(res, p));
}

/// The resources of the configuration in the order in which they are
/// invoked: each resource exactly once, after every resource it depends on,
/// and otherwise in the order in which they are listed.
/// An error when a name and type occur twice, a `dependsOn` entry is
/// malformed, names no resource or another type, or resources depend on
/// each other in a circle.
pub fn get_resource_invocation_order(config: &Configuration) -> (r: Result<Vec<Resource>, DscError>)
    ensures
        match r {
            Ok(v) => no_twins(config.resources@) && deps_valid(config.resources@) && exists|o: Seq<int>| #[trigger] dependency_order(config.resources@, o)
                && keeps_listing_order(config.resources@, o) && v@.len() == o.len() && forall|i: int| 0 <= i < v@.len() ==> resource_same(#[trigger] v@[i], config.resources@[o[i]]),
            Err(e) => e is Validation && (!no_twins(config.resources@) || !deps_valid(config.resources@) || has_cycle(config.resources@)),
        },
{
    let res = &config.resources;
    let ghost rs = res@;
    let n = res.len();
    // a name and type given twice
    let mut k: usize = 0;
    while k < n
        invariant
            n == rs.len(),
            rs == res@,
            rs == config.resources@,
            forall|q: int| 0 <= q < k ==> !#[trigger] has_twin(rs, q),
        decreases n - k,
    {
        let mut j: usize = 0;
        while j < n
            invariant
                n == rs.len(),
                rs == res@,
                rs == config.resources@,
                k < n,
                forall|t: int| 0 <= t < j && t != k ==> !#[trigger] same_id(rs[t], rs[k as int].name@, rs[k as int].resource_type@),
            decreases n - j,
        {
            if j != k && res[j].name == res[k].name && res[j].resource_type == res[k].resource_type {
                proof {
                    assert(same_id(rs[j as int], rs[k as int].name@, rs[k as int].resource_type@));
                    assert(has_twin(rs, k as int));
                    assert(!no_twins(rs));
                }
                return Err(validation("Resource is specified more than once in the configuration", &res[k].name));
            }
            j = j + 1;
        }
        k = k + 1;
    }
    // the resources each one depends on
    let mut g: Vec<Vec<usize>> = Vec::new();
    let mut k: usize = 0;
    while k < n
        invariant
            n == rs.len(),
            rs == res@,
            rs == config.resources@,
            no_twins(rs),
            g@.len() == k,
            k <= n,
            forall|q: int| 0 <= q < k ==> #[trigger] g@[q]@.len() == deps_of(rs[q]).len(),
            forall|q: int, i: int| 0 <= q < k && 0 <= i < deps_of(rs[q]).len()
                ==> dep_target(rs, deps_of(rs[q])[i]@) == Some(#[trigger] g@[q]@[i] as int),
        decreases n - k,
    {
        let resource = &res[k];
        let empty: Vec<String> = Vec::new();
        let deps: &Vec<String> = match &resource.depends_on {
            Some(d) => d,
            None => &empty,
        };
        assert(deps@ == deps_of(rs[k as int]));
        let mut row: Vec<usize> = Vec::new();
        let mut d: usize = 0;
        while d < deps.len()
            invariant
                n == rs.len(),
                rs == res@,
                rs == config.resources@,
                k < n,
                deps@ == deps_of(rs[k as int]),
                row@.len() == d,
                d <= deps@.len(),
                forall|i: int| 0 <= i < d ==> dep_target(rs, deps@[i]@) == Some(#[trigger] row@[i] as int),
            decreases deps@.len() - d,
        {
            let (dtype, dname) = match parse_depends_on(deps[d].as_str()) {
                Some(p) => p,
                None => {
                    proof {
                        assert(dep_target(rs, deps_of(rs[k as int])[d as int]@) is None);
                        assert(!deps_valid(rs));
                    }
                    return Err(validation("The 'dependsOn' syntax is incorrect for resource name", &resource.name));
                },
            };
            let dj = match find_named(res, &dname) {
                Some(x) => x,
                None => {
                    proof {
                        assert(dep_target(rs, deps_of(rs[k as int])[d as int]@) is None);
                        assert(!deps_valid(rs));
                    }
                    return Err(validation("The 'dependsOn' resource name does not exist", &dname));
                },
            };
            if res[dj].resource_type != dtype {
                proof {
                    assert(dep_target(rs, deps_of(rs[k as int])[d as int]@) is None);
                    assert(!deps_valid(rs));
                }
                return Err(validation("The 'dependsOn' resource type does not match for resource named", &dname));
            }
            row.push(dj);
            d = d + 1;
        }
        g.push(row);
        proof {
            assert forall|q: int, i: int| 0 <= q < k + 1 && 0 <= i < deps_of(rs[q]).len()
                implies dep_target(rs, deps_of(rs[q])[i]@) == Some(#[trigger] g@[q]@[i] as int) by {
                if q < k {
                    assert(g@[q] == g@.drop_last()[q]);
                }
            }
        }
        k = k + 1;
    }
    proof {
        assert(targets_of(rs, g@));
        assert forall|u: int, i: int| 0 <= u < g@.len() && 0 <= i < g@[u]@.len() implies (#[trigger] g@[u]@[i] as int) < g@.len() by {
            let d = deps_of(rs[u])[i];
            let (t, nm) = parse_dep(d@)->Some_0;
            lemma_first_named_range(rs, nm);
        }
    }
    // visit every resource, dependencies first
    let mut st: Vec<u8> = Vec::new();
    let mut k: usize = 0;
    while k < n
        invariant
            st@.len() == k,
            k <= n,
            forall|x: int| 0 <= x < k ==> #[trigger] st@[x] == 0,
        decreases n - k,
    {
        st.push(0);
        k = k + 1;
    }
    let mut order: Vec<usize> = Vec::new();
    proof {
        assert(search_inv(g@, st@, order@, Seq::empty()));
    }
    let ghost mut marks: Seq<int> = Seq::empty();
    let ghost mut pos: Seq<int> = Seq::empty();
    let ghost mut roots: Seq<int> = Seq::empty();
    let mut k: usize = 0;
    while k < n
        invariant
            n == rs.len(),
            rs == res@,
            rs == config.resources@,
            no_twins(rs),
            targets_of(rs, g@),
            k <= n,
            search_inv(g@, st@, order@, Seq::empty()),
            forall|x: int| 0 <= x < k ==> #[trigger] st@[x] != 0,
            marks.len() == k,
            pos.len() == k,
            forall|q: int| 0 <= q < k ==> #[trigger] marks[q] <= order@.len(),
            forall|q: int| 0 <= q < k ==> 0 <= #[trigger] pos[q] < marks[q] && order@[pos[q]] as int == q,
            roots.len() == order@.len(),
            forall|a: int| 0 <= a < order@.len() ==> 0 <= #[trigger] roots[a] < k && g_reach(g@, roots[a], order@[a] as int),
            forall|q: int, a: int| 0 <= q < k && 0 <= a < #[trigger] marks[q] ==> #[trigger] roots[a] <= q,
        decreases n - k,
    {
        let ghost ob = order@;
        if st[k] == 0 {
            let ghost before = st@;
            let ok = visit(&g, k, &mut st, &mut order, Ghost(Seq::empty()));
            if !ok {
                proof {
                    let p = choose|p: Seq<int>| #[trigger] graph_cycle(g@, p);
                    assert forall|i: int| 0 <= i < p.len() - 1 implies #[trigger] depends(rs, p[i], p[i + 1]) by {
                        assert(edge(g@, p[i], p[i + 1]));
                        let w = choose|w: int| 0 <= w < g@[p[i]]@.len() && #[trigger] g@[p[i]]@[w] as int == p[i + 1];
                        assert(dep_target(rs, deps_of(rs[p[i]])[w]@) == Some(g@[p[i]]@[w] as int));
                    }
                    let l = p[p.len() - 1];
                    let w = choose|w: int| 0 <= w < g@[l]@.len() && #[trigger] g@[l]@[w] as int == p[0];
                    assert(dep_target(rs, deps_of(rs[l])[w]@) == Some(g@[l]@[w] as int));
                    assert(depends(rs, l, p[0]));
                    assert(is_cycle(rs, p));
                }
                return Err(validation("Circular dependency detected for resource named", &res[k].name));
            }
            proof {
                assert forall|x: int| 0 <= x < k + 1 implies #[trigger] st@[x] != 0 by {
                    if x < k {
                        assert(before[x] != 0);
                    }
                }
            }
        }
        proof {
            let kk = k as int;
            assert(st@[kk] != 0 && st@[kk] != 1);
            assert(st@[kk] == 2);
            lemma_index_in(order@, kk);
            let pk = index_in(order@, kk);
            assert(0 <= pk < order@.len() && order@[pk] as int == kk);
            assert forall|a: int| 0 <= a < ob.len() implies #[trigger] order@[a] == ob[a] by {}
            let r2 = Seq::new(order@.len(), |a: int| if a < ob.len() { roots[a] } else { kk });
            assert forall|a: int| 0 <= a < order@.len() implies 0 <= #[trigger] r2[a] < kk + 1 && g_reach(g@, r2[a], order@[a] as int) by {
                if a < ob.len() {
                    assert(order@[a] == ob[a]);
                    assert(r2[a] == roots[a]);
                }
            }
            let m2 = marks.push(order@.len() as int);
            let p2 = pos.push(pk);
            assert forall|q: int, a: int| 0 <= q < kk + 1 && 0 <= a < #[trigger] m2[q] implies #[trigger] r2[a] <= q by {
                if q < kk {
                    assert(m2[q] == marks[q]);
                    assert(a < ob.len());
                    assert(r2[a] == roots[a]);
                }
            }
            assert forall|q: int| 0 <= q < kk + 1 implies 0 <= #[trigger] p2[q] < m2[q] && order@[p2[q]] as int == q by {
                if q < kk {
                    assert(p2[q] == pos[q] && m2[q] == marks[q]);
                    assert(order@[pos[q]] == ob[pos[q]]);
                }
            }
            assert forall|q: int| 0 <= q < kk + 1 implies #[trigger] m2[q] <= order@.len() by {
                if q < kk {
                    assert(m2[q] == marks[q]);
                }
            }
            marks = m2;
            pos = p2;
            roots = r2;
        }
        k = k + 1;
    }
    let ghost o = order@.map_values(|x: usize| x as int);
    proof {
        assert forall|q: int| 0 <= q < rs.len() implies #[trigger] occurs(o, q) by {
            assert(st@[q] != 0);
            assert(st@[q] != 1);
            lemma_index_in(order@, q);
            assert(o[index_in(order@, q)] == q);
        }
        assert forall|a: int, b: int| 0 <= a < o.len() && 0 <= b < o.len() && #[trigger] depends(rs, o[b], o[a]) implies a < b by {
            let i = choose|i: int| 0 <= i < deps_of(rs[o[b]]).len() && #[trigger] dep_target(rs, deps_of(rs[o[b]])[i]@) == Some(o[a]);
            assert(g@[o[b]]@[i] as int == o[a]);
            assert(order@[b] as int == o[b]);
            assert(0 <= index_in(order@, g@[order@[b] as int]@[i] as int) < b);
            lemma_index_in(order@, o[a]);
            let f = index_in(order@, o[a]);
            if f != a {
                assert(order@[f] == order@[a]);
            }
        }
        assert(no_repeats(o)) by {
            assert forall|a: int, b: int| 0 <= a < b < o.len() implies o[a] != o[b] by {
                assert(order@[a] != order@[b]);
            }
        }
        assert(dependency_order(rs, o));
        assert forall|i: int, j: int| 0 <= i < j < rs.len() && (forall|q: int| 0 <= q <= i ==> !#[trigger] leads_to(rs, q, j))
            implies #[trigger] invoked_before(o, i, j) by {
            assert(st@[j] != 0 && st@[j] != 1);
            lemma_index_in(order@, j);
            let b = index_in(order@, j);
            let a = pos[i];
            assert(order@[a] as int == i);
            if b < marks[i] {
                let q2 = roots[b];
                assert(q2 <= i);
                lemma_reach_leads(rs, g@, q2, j);
                assert(leads_to(rs, q2, j));
                assert(false);
            }
            assert(o[a] == i && o[b] == j);
        }
        assert(keeps_listing_order(rs, o));
    }
    let mut out: Vec<Resource> = Vec::new();
    let mut i: usize = 0;
    while i < order.len()
        invariant
            i <= order@.len(),
            rs == res@,
            rs == config.resources@,
            o == order@.map_values(|x: usize| x as int),
            forall|t: int| 0 <= t < order@.len() ==> (#[trigger] order@[t] as int) < rs.len(),
            out@.len() == i,
            forall|t: int| 0 <= t < i ==> resource_same(#[trigger] out@[t], rs[o[t]]),
        decreases order@.len() - i,
    {
        out.push(res[order[i]].deep_copy());
        i = i + 1;
    }
    proof {
        assert(dependency_order(rs, o));
        assert(keeps_listing_order(rs, o));
        assert(out@.len() == o.len());
        assert(deps_valid(rs)) by {
            assert forall|q: int, i: int| 0 <= q < rs.len() && 0 <= i < deps_of(rs[q]).len()
                implies #[trigger] dep_target(rs, deps_of(rs[q])[i]@) is Some by {
                assert(dep_target(rs, deps_of(rs[q])[i]@) == Some(g@[q]@[i] as int));
            }
        }
    }
    Ok(out)
}

/// Every resource is invoked after each resource that it depends on, and
/// each resource exactly once; resources that depend on each other in a
/// circle have no such order.
pub proof fn lemma_dependencies_first(res: Seq<Resource>, o: Seq<int>, p: Seq<int>, j: int, k: int)
    requires
        dependency_order(res, o),
        0 <= j < o.len(),
        0 <= k < o.len(),
        depends(res, o[k], o[j]),
    ensures
        j < k,
        !is_cycle(res, p),
{
    if is_cycle(res, p) {
        lemma_cycle_has_no_order(res, p, o);
    }
}

} // verus!
