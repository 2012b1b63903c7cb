//! Decisions while an actor opens its sockets: whether to retry a connect,
//! and what becomes of the client requests that arrive meanwhile.
use vstd::prelude::*;
use crate::error::Error;

verus! {

/// How long a daemon's socket is waited for, in seconds.
pub const RETRY_SECONDS: u64 = 300;

/// What one connect attempt to the daemon's socket gave.
#[derive(Debug, Clone, Copy, PartialEq, Eq, Structural)]
pub enum ConnectAttempt {
    Connected,
    PermissionDenied,
    Failed,
}

/// What the opener does next.
#[derive(Debug, Clone, PartialEq, Eq)]
pub enum ConnectStep {
    /// The socket is connected.
    Done,
    /// Wait a second and try again.
    Retry,
    /// Stop with this error.
    GiveUp(Error),
}

/// Decides after a connect attempt made `elapsed_secs` seconds into the wait
/// for the daemon at `path`. A refused permission ends the wait at once.
pub fn connect_step(elapsed_secs: u64, attempt: ConnectAttempt, path: &String) -> (r: ConnectStep)
    ensures
        attempt == ConnectAttempt::Connected ==> r == ConnectStep::Done,
        attempt == ConnectAttempt::PermissionDenied ==> (r matches ConnectStep::GiveUp(
            Error::PermissionDeniedOpeningSocket(p),
        ) && p@ == path@),
        attempt == ConnectAttempt::Failed && elapsed_secs < RETRY_SECONDS ==> r
            == ConnectStep::Retry,
        attempt == ConnectAttempt::Failed && elapsed_secs >= RETRY_SECONDS ==> (r matches ConnectStep::GiveUp(
            Error::TimeoutOpeningSocket(p),
        ) && p@ == path@),
{
    match attempt {
        ConnectAttempt::Connected => ConnectStep::Done,
        ConnectAttempt::PermissionDenied => ConnectStep::GiveUp(
            Error::PermissionDeniedOpeningSocket(path.clone()),
        ),
        ConnectAttempt::Failed => {
            if elapsed_secs < RETRY_SECONDS {
                ConnectStep::Retry
            } else {
                ConnectStep::GiveUp(Error::TimeoutOpeningSocket(path.clone()))
            }
        },
    }
}

/// Client requests that arrived before the actor could serve them.
pub struct StartupQueue<R> {
    deferred: Vec<R>,
}

/// What becomes of a request that arrives while the sockets open.
pub enum StartupStep<R> {
    /// The request was kept for replay; keep waiting.
    Wait,
    /// Shutdown was asked: stop opening, and answer each of these kept
    /// requests with `StartupAborted`.
    Abort(Vec<R>),
}

/// The transition on a request: the kept requests after it, and those to
/// abort if it asks for shutdown.
pub open spec fn startup_step<R>(kept: Seq<R>, r: R, is_shutdown: bool) -> (Seq<R>, Option<Seq<R>>) {
    if is_shutdown {
        (Seq::empty(), Some(kept))
    } else {
        (kept.push(r), None)
    }
}

/// The kept requests after the requests `rs`, none of them a shutdown.
pub open spec fn defer_all<R>(kept: Seq<R>, rs: Seq<R>) -> Seq<R>
    decreases rs.len(),
{
    if rs.len() == 0 {
        kept
    } else {
        startup_step(defer_all(kept, rs.drop_last()), rs.last(), false).0
    }
}

impl<R> StartupQueue<R> {
    pub closed spec fn kept(&self) -> Seq<R> {
        self.deferred@
    }

    pub fn new() -> (r: Self)
        ensures
            r.kept().len() == 0,
    {
        StartupQueue { deferred: Vec::new() }
    }

    /// Acts on a request that arrived while the sockets open.
    pub fn on_request(&mut self, r: R, is_shutdown: bool) -> (out: StartupStep<R>)
        ensures
            final(self).kept() == startup_step(old(self).kept(), r, is_shutdown).0,
            startup_step(old(self).kept(), r, is_shutdown).1 matches Some(a) ==> (out matches StartupStep::Abort(v) && v@ == a),
            startup_step(old(self).kept(), r, is_shutdown).1 is None ==> out is Wait,
    {
        if is_shutdown {
            let mut aborted = Vec::new();
            std::mem::swap(&mut aborted, &mut self.deferred);
            StartupStep::Abort(aborted)
        } else {
            self.deferred.push(r);
            StartupStep::Wait
        }
    }

    /// The kept requests, in order of arrival, to replay once the sockets
    /// are open.
    pub fn into_deferred(self) -> (r: Vec<R>)
        ensures
            r@ == self.kept(),
    {
        self.deferred
    }
}

proof fn lemma_defer_all<R>(kept: Seq<R>, rs: Seq<R>)
    ensures
        defer_all(kept, rs) == kept + rs,
    decreases rs.len(),
{
    if rs.len() > 0 {
        lemma_defer_all(kept, rs.drop_last());
        assert(kept + rs =~= (kept + rs.drop_last()).push(rs.last()));
    } else {
        assert(kept + rs =~= kept);
    }
}

/// A shutdown asked while the sockets open answers every request that came
/// before it, in order, with `StartupAborted`, and keeps none; without a
/// shutdown every request is kept, in order, for replay.
pub proof fn lemma_shutdown_aborts_every_kept_request<R>(rs: Seq<R>, shutdown: R)
    ensures
        startup_step(defer_all(Seq::empty(), rs), shutdown, true) == (Seq::<R>::empty(), Some(rs)),
        defer_all(Seq::empty(), rs) == rs,
{
    lemma_defer_all(Seq::<R>::empty(), rs);
    assert(Seq::<R>::empty() + rs =~= rs);
}

} // verus!
