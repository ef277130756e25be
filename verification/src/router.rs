//! The request router.
//!
//! One session serves exactly one resource.  A request is served only
//! when its method is GET and its path, with every leading slash
//! stripped, equals the resource name byte for byte; any other method or
//! path is answered "not found".  There is no directory listing, no
//! wildcard and no query handling.

use vstd::prelude::*;

verus! {

/// The request method, as far as routing cares: GET serves, everything
/// else does not.
#[derive(PartialEq, Eq, Structural, Clone, Copy, Debug)]
pub enum Method {
    Get,
    Other,
}

/// Where a request is routed.
#[derive(PartialEq, Eq, Structural, Clone, Copy, Debug)]
pub enum RouteKind {
    Serve,
    NotFound,
}

/// A request path with every leading slash removed.
pub open spec fn strip_leading_slashes(p: Seq<u8>) -> Seq<u8>
    decreases p.len(),
{
    if p.len() > 0 && crate::naming::is_separator(p[0]) {
        strip_leading_slashes(p.subrange(1, p.len() as int))
    } else {
        p
    }
}

/// The routing rule: serve exactly the GET whose stripped path is the
/// resource name.
pub open spec fn route_spec(method: Method, path: Seq<u8>, resource_name: Seq<u8>) -> RouteKind {
    if method == Method::Get && strip_leading_slashes(path) == resource_name {
        RouteKind::Serve
    } else {
        RouteKind::NotFound
    }
}

/// Stripping leaves the suffix that opens at the first non-slash byte.
proof fn lemma_strip_at(p: Seq<u8>, start: int)
    requires
        0 <= start <= p.len(),
        forall|j: int| 0 <= j < start ==> crate::naming::is_separator(p[j]),
        start == p.len() || !crate::naming::is_separator(p[start]),
    ensures
        strip_leading_slashes(p) == p.subrange(start, p.len() as int),
    decreases start,
{
    if start == 0 {
        assert(strip_leading_slashes(p) =~= p.subrange(0, p.len() as int));
    } else {
        let rest = p.subrange(1, p.len() as int);
        lemma_strip_at(rest, start - 1);
        assert(rest.subrange(start - 1, rest.len() as int) =~= p.subrange(start, p.len() as int));
    }
}

/// Route one request against the session's resource name.
pub fn route(method: Method, path: &Vec<u8>, resource_name: &Vec<u8>) -> (r: RouteKind)
    ensures
        r == route_spec(method, path@, resource_name@),
{
    let n = path.len();
    let mut start: usize = 0;
    while start < n && path[start] == 47u8
        invariant
            0 <= start <= n,
            n == path@.len(),
            forall|j: int| 0 <= j < start ==> crate::naming::is_separator(path@[j]),
        decreases n - start,
    {
        start = start + 1;
    }
    proof {
        lemma_strip_at(path@, start as int);
    }
    let matches_get = match method {
        Method::Get => true,
        Method::Other => false,
    };
    if !matches_get {
        return RouteKind::NotFound;
    }
    if n - start != resource_name.len() {
        assert(strip_leading_slashes(path@).len() == n - start);
        return RouteKind::NotFound;
    }
    let mut i: usize = 0;
    while i < resource_name.len()
        invariant
            0 <= i <= resource_name@.len(),
            n == path@.len(),
            0 <= start <= n,
            n - start == resource_name@.len(),
            strip_leading_slashes(path@) == path@.subrange(start as int, n as int),
            forall|j: int| 0 <= j < i ==> path@[start + j] == resource_name@[j],
        decreases resource_name@.len() - i,
    {
        if path[start + i] != resource_name[i] {
            assert(strip_leading_slashes(path@)[i as int] == path@[start + i]);
            return RouteKind::NotFound;
        }
        i = i + 1;
    }
    proof {
        assert(strip_leading_slashes(path@) =~= resource_name@);
    }
    RouteKind::Serve
}

/// Any path other than the resource name is answered "not found",
/// whatever the method — and the rule consults nothing else, so the
/// answer is the same in every session state.
pub proof fn lemma_foreign_path_not_found(method: Method, path: Seq<u8>, resource_name: Seq<u8>)
    requires
        strip_leading_slashes(path) != resource_name,
    ensures
        route_spec(method, path, resource_name) == RouteKind::NotFound,
{
}

} // verus!
