//! The session state machine: token restoration at construction, the
//! login exchange, and the one re-login with one retry that an
//! unauthorized answer triggers.
//!
//! The decisions live here, verified; the runner around the library
//! performs the sends the actions call for and feeds the statuses back.

use vstd::prelude::*;
use crate::ClientError;

verus! {

/// Whether an HTTP status code reports success.
pub open spec fn spec_is_success(status: u16) -> bool {
    200 <= status < 300
}

/// Whether an HTTP status code reports an unauthorized request.
pub open spec fn spec_is_unauthorized(status: u16) -> bool {
    status == 401
}

/// What the client does next with the status of an authorized request.
#[derive(Debug, Clone, Copy, PartialEq, Eq, Structural)]
pub enum ReplyStep {
    /// The status reported success: deliver the body.
    Deliver,
    /// A first unauthorized answer: log in again, resend the request.
    ReloginAndRetry,
    /// Unauthorized again after the one retry: give up on the session.
    FailAuth,
    /// A non-success status other than unauthorized: a fetch failure.
    FailFetch(u16),
}

/// The decision on a status: success delivers; unauthorized spends the
/// one retry, or is terminal when it is already spent; anything else
/// fails the fetch.
pub open spec fn spec_reply_step(retried: bool, status: u16) -> ReplyStep {
    if spec_is_success(status) {
        ReplyStep::Deliver
    } else if spec_is_unauthorized(status) {
        if retried {
            ReplyStep::FailAuth
        } else {
            ReplyStep::ReloginAndRetry
        }
    } else {
        ReplyStep::FailFetch(status)
    }
}

/// Tracks one authorized request across its at most two sendings.
pub struct RequestFsm {
    /// Whether the one re-login and retry has been spent.
    pub retried: bool,
}

impl RequestFsm {
    /// A fresh request: no retry spent yet.
    pub fn new() -> (r: RequestFsm)
        ensures
            !r.retried,
    {
        RequestFsm { retried: false }
    }

    /// Decides on one response status and records a spent retry.
    pub fn on_status(&mut self, status: u16) -> (step: ReplyStep)
        ensures
            step == spec_reply_step(old(self).retried, status),
            final(self).retried == (old(self).retried || spec_is_unauthorized(status)),
    {
        let success = status >= 200 && status < 300;
        let unauthorized = status == 401;
        let step = if success {
            ReplyStep::Deliver
        } else if unauthorized {
            if self.retried {
                ReplyStep::FailAuth
            } else {
                ReplyStep::ReloginAndRetry
            }
        } else {
            ReplyStep::FailFetch(status)
        };
        self.retried = self.retried || unauthorized;
        step
    }
}

/// The error a step surfaces, if any: the terminal unauthorized end is
/// an authentication error; any other non-success status a fetch error
/// carrying the requested URI and the status.
pub fn reply_error(step: ReplyStep, uri: &str) -> (r: Option<ClientError>)
    ensures
        match step {
            ReplyStep::Deliver => r is None,
            ReplyStep::ReloginAndRetry => r is None,
            ReplyStep::FailAuth => r matches Some(e) && e is Authentication,
            ReplyStep::FailFetch(status) => r matches Some(e) && (e matches ClientError::Fetch {
                uri: u,
                status: s,
            } && u@ == uri@ && s == status),
        },
{
    match step {
        ReplyStep::Deliver => None,
        ReplyStep::ReloginAndRetry => None,
        ReplyStep::FailAuth => Some(ClientError::Authentication),
        ReplyStep::FailFetch(status) => Some(
            ClientError::Fetch { uri: uri.to_owned(), status },
        ),
    }
}

/// The outcome of a login exchange: well exactly on a success status,
/// an authentication error on any other.
pub fn login_outcome(status: u16) -> (r: Result<(), ClientError>)
    ensures
        r is Ok <==> spec_is_success(status),
        r matches Err(e) ==> e is Authentication,
{
    if status >= 200 && status < 300 {
        Ok(())
    } else {
        Err(ClientError::Authentication)
    }
}

/// The session token as the client holds it across one run.
#[derive(Debug, Clone, Copy, PartialEq, Eq, Structural)]
pub enum SessionState {
    /// No token is stored; a login must come before any request.
    Missing,
    /// A stored token was restored, not yet tested against the server.
    Cached,
    /// A login during this run produced the token.
    Authenticated,
}

/// What the session layer observes.
#[derive(Debug, Clone, Copy, PartialEq, Eq, Structural)]
pub enum SessionEvent {
    /// The credential store held a token at construction.
    Restored,
    /// The credential store held no token at construction.
    Absent,
    /// A login exchange answered with a success status.
    LoginOk,
    /// A login exchange answered with a non-success status.
    LoginRejected,
    /// An authorized request answered unauthorized.
    Unauthorized,
}

/// What the runner must do next.
#[derive(Debug, Clone, Copy, PartialEq, Eq, Structural)]
pub enum SessionAction {
    /// Requests may be sent with the token as held.
    Proceed,
    /// Perform a login exchange and report its outcome.
    Login,
    /// Persist the fresh token, then go on.
    StoreToken,
    /// Give up with an authentication error.
    Abort,
}

/// The token lifecycle: restore-or-login at construction, persistence
/// of a fresh token, re-login on unauthorized, abort on a rejected
/// login.
pub open spec fn spec_session_step(s: SessionState, e: SessionEvent) -> (SessionState,
    SessionAction) {
    match e {
        SessionEvent::Restored => (SessionState::Cached, SessionAction::Proceed),
        SessionEvent::Absent => (SessionState::Missing, SessionAction::Login),
        SessionEvent::LoginOk => (SessionState::Authenticated, SessionAction::StoreToken),
        SessionEvent::LoginRejected => (s, SessionAction::Abort),
        SessionEvent::Unauthorized => (s, SessionAction::Login),
    }
}

/// Steps the token lifecycle on one observation.
pub fn session_step(s: SessionState, e: SessionEvent) -> (r: (SessionState, SessionAction))
    ensures
        r == spec_session_step(s, e),
{
    match e {
        SessionEvent::Restored => (SessionState::Cached, SessionAction::Proceed),
        SessionEvent::Absent => (SessionState::Missing, SessionAction::Login),
        SessionEvent::LoginOk => (SessionState::Authenticated, SessionAction::StoreToken),
        SessionEvent::LoginRejected => (s, SessionAction::Abort),
        SessionEvent::Unauthorized => (s, SessionAction::Login),
    }
}

/// A first unauthorized answer triggers exactly one re-login and one
/// retry; a second unauthorized answer is terminal, and a success on
/// the retry delivers.
pub proof fn lemma_single_retry(first: u16, second: u16)
    requires
        spec_is_unauthorized(first),
    ensures
        spec_reply_step(false, first) == ReplyStep::ReloginAndRetry,
        spec_is_unauthorized(second) ==> spec_reply_step(true, second) == ReplyStep::FailAuth,
        spec_is_success(second) ==> spec_reply_step(true, second) == ReplyStep::Deliver,
{
}

} // verus!
