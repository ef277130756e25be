//! The session: one run of the server from startup to process exit,
//! bounded by a fixed request count.
//!
//! Starting resolves what will be served: a directory goes through the
//! archiver first, a file is served as it is, and the resource name is
//! derived from the resulting path.  Listening answers requests, one
//! admission-counter decrement per request, until the counter signals
//! exhaustion; the session then drains — the process exits right after
//! the last admitted request — and any call that still arrives is
//! refused and terminates the session at once.

use vstd::prelude::*;

use crate::counter::Counter;
use crate::counter::admits;
use crate::counter::signals_exhaustion;
use crate::naming::archive_path;
use crate::naming::archive_path_spec;
use crate::naming::make_file_name;
use crate::naming::names_a_file;
use crate::naming::resource_name_spec;
use crate::router::Method;
use crate::router::RouteKind;
use crate::router::route;
use crate::router::route_spec;

verus! {

/// Where a session stands in its life.
#[derive(PartialEq, Eq, Structural, Clone, Copy, Debug)]
pub enum SessionState {
    /// Accepting requests; the budget has something left.
    Listening,
    /// The last admitted request is being answered; the process exit is
    /// already under way.
    Draining,
    /// The process has exited; nothing is serviced any more.
    Terminated,
}

/// The path that will actually be served for a caller-supplied path: a
/// directory is served through its derived archive, a plain file as it
/// is.
pub fn prepare_resource(path: &Vec<u8>, is_directory: bool) -> (r: Vec<u8>)
    requires
        names_a_file(path@),
    ensures
        is_directory ==> r@ == archive_path_spec(path@),
        !is_directory ==> r@ == path@,
        names_a_file(r@),
{
    if is_directory {
        archive_path(path)
    } else {
        path.clone()
    }
}

/// The outcome of one request against the session.
#[derive(PartialEq, Eq, Structural, Clone, Copy, Debug)]
pub enum Admission {
    /// The budget was already exhausted before this request: no
    /// response; the process exits at once.
    Refused,
    /// The request was admitted.  `was_last` marks the single request
    /// that exhausts the budget; `kind` says whether the resource is
    /// transmitted or the request is answered "not found".
    Granted { was_last: bool, kind: RouteKind },
}

/// One bounded serving session: the resource name clients must request
/// and the admission counter shared by every request.
pub struct Session {
    resource_name: Vec<u8>,
    counter: Counter,
    state: SessionState,
}

impl Session {
    /// The single path segment clients must request.
    pub closed spec fn spec_resource_name(self) -> Seq<u8> {
        self.resource_name@
    }

    /// The admission counter's current value.
    pub closed spec fn spec_remaining(self) -> int {
        self.counter.spec_remaining()
    }

    /// Where the session stands.
    pub closed spec fn spec_state(self) -> SessionState {
        self.state
    }

    /// The session invariant: while listening the budget has something
    /// left, and from draining on it is spent.
    pub closed spec fn wf(self) -> bool {
        &&& self.spec_resource_name().len() > 0
        &&& (self.state == SessionState::Listening ==> self.spec_remaining() >= 1)
        &&& (self.state != SessionState::Listening ==> self.spec_remaining() <= 0)
    }

    /// Start a session over the resolved resource path, to be served
    /// `count` times.  The resource name is the path's file name with
    /// whitespace replaced by underscores.
    pub fn new(resource_path: &Vec<u8>, count: u64) -> (s: Session)
        requires
            names_a_file(resource_path@),
            1 <= count <= i64::MAX as u64,
        ensures
            s.wf(),
            s.spec_resource_name() == resource_name_spec(resource_path@),
            s.spec_remaining() == count as int,
            s.spec_state() == SessionState::Listening,
    {
        let resource_name = make_file_name(resource_path);
        let counter = Counter::new(count);
        Session { resource_name, counter, state: SessionState::Listening }
    }

    /// Answer one request: decrement the admission counter, and when the
    /// request is admitted, route it against the resource name.  The
    /// request that exhausts the budget is reported `was_last` and moves
    /// the session to draining; a request arriving once the budget is
    /// spent is refused and terminates the session.
    pub fn on_request(&mut self, method: Method, path: &Vec<u8>) -> (r: Admission)
        requires
            old(self).wf(),
            old(self).spec_state() != SessionState::Terminated,
            old(self).spec_remaining() > i64::MIN as int,
        ensures
            final(self).wf(),
            final(self).spec_resource_name() == old(self).spec_resource_name(),
            final(self).spec_remaining() == old(self).spec_remaining() - 1,
            admits(old(self).spec_remaining()) ==> r == (Admission::Granted {
                was_last: signals_exhaustion(old(self).spec_remaining()),
                kind: route_spec(method, path@, old(self).spec_resource_name()),
            }),
            !admits(old(self).spec_remaining()) ==> r == Admission::Refused,
            !admits(old(self).spec_remaining()) ==> final(self).spec_state()
                == SessionState::Terminated,
            signals_exhaustion(old(self).spec_remaining()) ==> final(self).spec_state()
                == SessionState::Draining,
            admits(old(self).spec_remaining()) && !signals_exhaustion(old(self).spec_remaining())
                ==> final(self).spec_state() == old(self).spec_state(),
    {
        let (admitted, was_last) = self.counter.admit_one();
        if !admitted {
            self.state = SessionState::Terminated;
            return Admission::Refused;
        }
        if was_last {
            self.state = SessionState::Draining;
        }
        let kind = route(method, path, &self.resource_name);
        Admission::Granted { was_last, kind }
    }

    /// The resource name, for the caller that announces the serving URL.
    pub fn resource_name(&self) -> (r: &Vec<u8>)
        ensures
            r@ == self.spec_resource_name(),
    {
        &self.resource_name
    }

    /// The counter's current value.
    pub fn remaining_requests(&self) -> (r: i64)
        ensures
            r as int == self.spec_remaining(),
    {
        self.counter.remaining()
    }

    /// Where the session stands.
    pub fn state(&self) -> (r: SessionState)
        ensures
            r == self.spec_state(),
    {
        self.state
    }
}

} // verus!
