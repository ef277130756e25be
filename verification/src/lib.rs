//! One-shot (or N-shot) file distribution: a bounded-session transfer
//! engine.  A session serves a single resource over HTTP for a fixed
//! number of requests and then terminates; a companion download path
//! streams a remote file to disk while counting the bytes it writes.
//!
//! This crate holds the verified core: the admission counter that bounds
//! a session's length, the derivation of resource and archive names, the
//! request router, the response builder, the session state machine, the
//! download bookkeeping, and the request-count parser.  The surrounding
//! process (sockets, filesystem, progress display) lives outside and
//! hands these functions plain values.

pub mod counter;
pub mod download;
pub mod naming;
pub mod parse;
pub mod router;
pub mod session;
pub mod transfer;

use vstd::prelude::*;

use crate::download::url_accepts;
use crate::download::url_is_valid;

verus! {

/// What one invocation does with its target argument.
#[derive(PartialEq, Eq, Structural, Clone, Copy, Debug)]
pub enum Action {
    /// The target names something on disk: serve it.
    ServeLocal,
    /// The target is a well-formed URL: download it.
    FetchRemote,
    /// Neither a local path nor a URL: nothing to do.
    Unusable,
}

/// Decide what to do with the target the caller supplied: a target that
/// exists on disk is served, a remaining well-formed URL is downloaded,
/// and anything else is rejected.  Existence wins over URL shape.
pub fn dispatch(target: &str, target_exists: bool) -> (a: Action)
    ensures
        target_exists ==> a == Action::ServeLocal,
        !target_exists && url_accepts(target@) ==> a == Action::FetchRemote,
        !target_exists && !url_accepts(target@) ==> a == Action::Unusable,
{
    if target_exists {
        Action::ServeLocal
    } else if url_is_valid(target) {
        Action::FetchRemote
    } else {
        Action::Unusable
    }
}

} // verus!
