//! Per-connection session state: where a connection stands in the
//! protocol, the last tag it sent, and the identity it has proved.

use vstd::prelude::*;

use crate::mailbox::{Mailbox, SpecMailbox};

verus! {

/// The mathematical value of a session's protocol position.
pub enum SpecSessionState {
    Unauthenticated,
    AuthenticatingPlain(Seq<char>),
    Authenticated,
    MailboxSelected(Seq<char>),
}

/// Where a connection stands in the protocol.  A pending AUTHENTICATE
/// exchange carries the tag that started it; a selected mailbox
/// carries its name.
#[derive(Debug, PartialEq)]
pub enum SessionState {
    Unauthenticated,
    AuthenticatingPlain(String),
    Authenticated,
    MailboxSelected(String),
}

impl View for SessionState {
    type V = SpecSessionState;

    open spec fn view(&self) -> SpecSessionState {
        match self {
            SessionState::Unauthenticated => SpecSessionState::Unauthenticated,
            SessionState::AuthenticatingPlain(t) => SpecSessionState::AuthenticatingPlain(t@),
            SessionState::Authenticated => SpecSessionState::Authenticated,
            SessionState::MailboxSelected(m) => SpecSessionState::MailboxSelected(m@),
        }
    }
}

/// The mathematical value of one session.
#[verifier::ext_equal]
pub struct SpecSession {
    pub state: SpecSessionState,
    pub identifier: Seq<char>,
    pub identity: Option<SpecMailbox>,
}

impl SpecSession {
    /// A session is well formed when it holds an identity exactly in
    /// the states that presuppose one, and that identity is itself
    /// well formed.
    pub open spec fn wf(&self) -> bool {
        &&& (self.identity is Some <==> (self.state is Authenticated
            || self.state is MailboxSelected))
        &&& match self.identity {
            Some(m) => m.password_hash.len() == 128,
            None => true,
        }
    }
}

/// One connection's session.
pub struct Session {
    /// Protocol position.
    pub state: SessionState,
    /// The last tag the client sent, kept to correlate out-of-band
    /// replies.
    pub identifier: String,
    /// The proved mailbox identity, present exactly once
    /// authenticated.
    pub identity: Option<Mailbox>,
}

impl View for Session {
    type V = SpecSession;

    open spec fn view(&self) -> SpecSession {
        SpecSession {
            state: self.state@,
            identifier: self.identifier@,
            identity: match self.identity {
                Some(m) => Some(m@),
                None => None,
            },
        }
    }
}

impl Session {
    /// Well-formedness, stated of the session's mathematical value.
    pub open spec fn wf(&self) -> bool {
        self@.wf()
    }

    /// A fresh session: unauthenticated, no tag seen, no identity.
    pub fn new() -> (s: Session)
        ensures
            s@.state is Unauthenticated,
            s@.identifier.len() == 0,
            s@.identity is None,
            s.wf(),
    {
        Session { state: SessionState::Unauthenticated, identifier: String::new(), identity: None }
    }
}

} // verus!
