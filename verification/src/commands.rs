//! The per-command handlers and, as spec functions, the step relation
//! of the session state machine: for each command, what the connection
//! looks like afterwards.  Every handler emits any untagged
//! informational lines first and exactly one tagged completion line
//! last, and touches no connection but the addressed one.

use vstd::prelude::*;
use vstd::string::StringSliceAdditionalSpecFns;

use crate::database::Database;
use crate::mailbox::{list_lines, lsub_lines, Mailbox, SpecMailbox};
use crate::passwords;
use crate::registry::{Connection, Registry, SpecConnection};
use crate::session::{SessionState, SpecSession, SpecSessionState};

verus! {

/// A tagged response line: the client's tag, a space, and the text.
pub open spec fn tagged(tag: Seq<char>, rest: Seq<char>) -> Seq<char> {
    tag + " "@ + rest
}

/// The untagged capability listing.
pub open spec fn capability_untagged() -> Seq<char> {
    "* CAPABILITY IMAP4rev1 AUTH=PLAIN UTF8=ONLY NAMESPACE ID LIST-EXTENDED ENABLE"@
}

/// The refusal sent when a command presupposes a login the session
/// has not performed.
pub open spec fn no_login_line(tag: Seq<char>) -> Seq<char> {
    tagged(tag, "NO Please Login first!"@)
}

/// The completion sent on a successful LOGIN or AUTHENTICATE.
pub open spec fn auth_ok_line(tag: Seq<char>) -> Seq<char> {
    tagged(tag, "OK [CAPABILITY IMAP4rev1 LITERAL+ AUTH=PLAIN] AUTHENTICATE completed"@)
}

/// Whether a session state grants access to mailbox commands.
pub open spec fn is_authed(st: SpecSessionState) -> bool {
    st is Authenticated || st is MailboxSelected
}

/// The connection with `lines` appended to its outbox, session
/// untouched.
pub open spec fn with_lines(c: SpecConnection, lines: Seq<Seq<char>>) -> SpecConnection {
    SpecConnection { session: c.session, outbox: c.outbox + lines }
}

/// After CAPABILITY: the listing and its completion.
pub open spec fn after_capability(c: SpecConnection, tag: Seq<char>) -> SpecConnection {
    with_lines(c, seq![capability_untagged(), tagged(tag, "OK CAPABILITY completed"@)])
}

/// After NOOP.
pub open spec fn after_noop(c: SpecConnection, tag: Seq<char>) -> SpecConnection {
    with_lines(c, seq![tagged(tag, "OK NOOP completed"@)])
}

/// After ENABLE: acknowledged, nothing switched on.
pub open spec fn after_enable(c: SpecConnection, tag: Seq<char>) -> SpecConnection {
    with_lines(c, seq![tagged(tag, "OK enabled"@)])
}

/// After NAMESPACE in an authenticated state.
pub open spec fn after_namespace(c: SpecConnection, tag: Seq<char>) -> SpecConnection {
    with_lines(
        c,
        seq!["* NAMESPACE ((\"\" \".\")) NIL NIL"@, tagged(tag, "OK Namespace completed."@)],
    )
}

/// After ID in an authenticated state.
pub open spec fn after_id(c: SpecConnection, tag: Seq<char>) -> SpecConnection {
    with_lines(
        c,
        seq![
            "* ID (\"name\" \"IMAPServer-rs\" \"version\" \"0.1.0\")"@,
            tagged(tag, "OK ID Completed"@),
        ],
    )
}

/// After STATUS in an authenticated state: a canned counters line for
/// the named mailbox and the completion.
pub open spec fn after_status(c: SpecConnection, tag: Seq<char>, mailbox: Seq<char>) -> SpecConnection {
    with_lines(
        c,
        seq![
            "* STATUS "@ + mailbox + " (MESSAGES 2 UIDNEXT 2 UNSEEN 0 RECENT 0)"@,
            tagged(tag, "OK STATUS Completed"@),
        ],
    )
}

/// After SUBSCRIBE in an authenticated state.
pub open spec fn after_subscribe(c: SpecConnection, tag: Seq<char>) -> SpecConnection {
    with_lines(c, seq![tagged(tag, "OK SUBSCRIBE Completed"@)])
}

/// The untagged lines a SELECT emits before its completion.
pub open spec fn select_untagged() -> Seq<Seq<char>> {
    seq![
        "* FLAGS (\\Answered \\Flagged \\Deleted \\Seen \\Draft)"@,
        "* OK [PERMANENTFLAGS (\\*)] Limited"@,
        "* OK [UIDVALIDITY 1] UIDs valid"@,
        "* OK [UIDNEXT 2] Predicted next UID"@,
        "* 1 EXISTS"@,
        "* 0 RECENT"@,
    ]
}

/// After SELECT/EXAMINE in an authenticated state: the mailbox
/// becomes selected and the canned status lines precede the
/// completion, read-write or read-only as requested.
pub open spec fn after_select(
    c: SpecConnection,
    tag: Seq<char>,
    mailbox: Seq<char>,
    readwrite: bool,
) -> SpecConnection {
    SpecConnection {
        session: SpecSession {
            state: SpecSessionState::MailboxSelected(mailbox),
            identifier: c.session.identifier,
            identity: c.session.identity,
        },
        outbox: c.outbox + select_untagged() + seq![
            tagged(
                tag,
                if readwrite {
                    "OK [READ-WRITE] SELECT completed"@
                } else {
                    "OK [READ-ONLY] SELECT completed"@
                },
            ),
        ],
    }
}

/// After CLOSE with a mailbox selected: back to plain authenticated.
pub open spec fn after_close(c: SpecConnection, tag: Seq<char>) -> SpecConnection {
    SpecConnection {
        session: SpecSession {
            state: SpecSessionState::Authenticated,
            identifier: c.session.identifier,
            identity: c.session.identity,
        },
        outbox: c.outbox.push(tagged(tag, "OK CLOSE completed"@)),
    }
}

/// After LIST in an authenticated state: one line per passing folder,
/// then the completion.
pub open spec fn after_list(
    c: SpecConnection,
    tag: Seq<char>,
    pattern: Seq<char>,
    folders: Seq<Seq<char>>,
) -> SpecConnection {
    with_lines(c, list_lines(folders, pattern).push(tagged(tag, "OK LIST Completed"@)))
}

/// After LSUB in an authenticated state.
pub open spec fn after_lsub(
    c: SpecConnection,
    tag: Seq<char>,
    pattern: Seq<char>,
    folders: Seq<Seq<char>>,
) -> SpecConnection {
    with_lines(c, lsub_lines(folders, pattern).push(tagged(tag, "OK LSUB Completed"@)))
}

/// After the store has answered a CREATE.
pub open spec fn after_create(c: SpecConnection, tag: Seq<char>, created: bool) -> SpecConnection {
    with_lines(
        c,
        seq![
            tagged(
                tag,
                if created {
                    "OK CREATE Completed"@
                } else {
                    "NO CREATE failed"@
                },
            ),
        ],
    )
}

/// After a failed LOGIN: back to square one, credentials refused.
pub open spec fn login_fail(c: SpecConnection, tag: Seq<char>) -> SpecConnection {
    SpecConnection {
        session: SpecSession {
            state: SpecSessionState::Unauthenticated,
            identifier: c.session.identifier,
            identity: None,
        },
        outbox: c.outbox.push(tagged(tag, "NO credentials invalid"@)),
    }
}

/// After a LOGIN attempt against the looked-up record `m`: the
/// session authenticates exactly when the verifier accepts the
/// password against the stored hash.
pub open spec fn spec_login_attempt(
    c: SpecConnection,
    m: Option<SpecMailbox>,
    tag: Seq<char>,
    pass: Seq<u8>,
) -> SpecConnection {
    match m {
        Some(mb) => if passwords::verify_ok(mb.password_hash, pass) {
            SpecConnection {
                session: SpecSession {
                    state: SpecSessionState::Authenticated,
                    identifier: c.session.identifier,
                    identity: Some(mb),
                },
                outbox: c.outbox.push(auth_ok_line(tag)),
            }
        } else {
            login_fail(c, tag)
        },
        None => login_fail(c, tag),
    }
}

/// Builds a tagged response line.
pub fn tag_line(tag: &str, rest: &str) -> (r: String)
    ensures
        r@ == tagged(tag@, rest@),
{
    let mut s = tag.to_owned();
    s.append(" ");
    s.append(rest);
    s
}

/// Appends one line to a connection's outbox.
fn push_line(conn: &mut Connection, line: String)
    ensures
        final(conn).session == old(conn).session,
        final(conn)@.outbox == old(conn)@.outbox.push(line@),
{
    conn.outbox.push(line);
    proof {
        assert(conn@.outbox =~~= old(conn)@.outbox.push(line@));
    }
}

/// The command handlers.  Each resolves the acting session by
/// connection identity, enforces the state-gated authorization rules,
/// and emits informational lines before the one tagged completion.
pub struct Commands;

impl Commands {
    /// CAPABILITY: allowed in every state.
    pub fn capability(reg: &mut Registry, id: u64, tag: &str)
        ensures
            !old(reg)@.contains_key(id) ==> final(reg)@ == old(reg)@,
            old(reg)@.contains_key(id) ==> final(reg)@ == old(reg)@.insert(
                id,
                after_capability(old(reg)@[id], tag@),
            ),
    {
        match reg.take(id) {
            None => {},
            Some(mut conn) => {
                push_line(
                    &mut conn,
                    String::from_str(
                        "* CAPABILITY IMAP4rev1 AUTH=PLAIN UTF8=ONLY NAMESPACE ID LIST-EXTENDED ENABLE",
                    ),
                );
                push_line(&mut conn, tag_line(tag, "OK CAPABILITY completed"));
                proof {
                    assert(conn@.outbox =~~= old(reg)@[id].outbox + seq![
                        capability_untagged(),
                        tagged(tag@, "OK CAPABILITY completed"@),
                    ]);
                }
                reg.insert(id, conn);
                proof {
                    assert(reg@ =~~= old(reg)@.insert(id, after_capability(old(reg)@[id], tag@)));
                }
            },
        }
    }

    /// NOOP: allowed in every state.
    pub fn noop(reg: &mut Registry, id: u64, tag: &str)
        ensures
            !old(reg)@.contains_key(id) ==> final(reg)@ == old(reg)@,
            old(reg)@.contains_key(id) ==> final(reg)@ == old(reg)@.insert(
                id,
                after_noop(old(reg)@[id], tag@),
            ),
    {
        match reg.take(id) {
            None => {},
            Some(mut conn) => {
                push_line(&mut conn, tag_line(tag, "OK NOOP completed"));
                proof {
                    assert(conn@.outbox =~~= old(reg)@[id].outbox + seq![
                        tagged(tag@, "OK NOOP completed"@),
                    ]);
                }
                reg.insert(id, conn);
                proof {
                    assert(reg@ =~~= old(reg)@.insert(id, after_noop(old(reg)@[id], tag@)));
                }
            },
        }
    }

    /// ENABLE: acknowledged and ignored, in every state.
    pub fn enable(reg: &mut Registry, id: u64, tag: &str)
        ensures
            !old(reg)@.contains_key(id) ==> final(reg)@ == old(reg)@,
            old(reg)@.contains_key(id) ==> final(reg)@ == old(reg)@.insert(
                id,
                after_enable(old(reg)@[id], tag@),
            ),
    {
        match reg.take(id) {
            None => {},
            Some(mut conn) => {
                push_line(&mut conn, tag_line(tag, "OK enabled"));
                proof {
                    assert(conn@.outbox =~~= old(reg)@[id].outbox + seq![
                        tagged(tag@, "OK enabled"@),
                    ]);
                }
                reg.insert(id, conn);
                proof {
                    assert(reg@ =~~= old(reg)@.insert(id, after_enable(old(reg)@[id], tag@)));
                }
            },
        }
    }

    /// LOGOUT: says goodbye and removes the connection from the
    /// registry exactly once; everything still queued comes back to
    /// the caller for delivery.  A second LOGOUT for the same
    /// identity finds nothing and is a no-op.
    pub fn logout(reg: &mut Registry, id: u64, tag: &str) -> (lines: Vec<String>)
        ensures
            final(reg)@ == old(reg)@.remove(id),
            old(reg)@.contains_key(id) ==> lines@.map_values(|s: String| s@) == old(
                reg,
            )@[id].outbox + seq![
                "* BYE IMAP4rev1 Server logging out"@,
                tagged(tag@, "OK LOGOUT completed"@),
            ],
            !old(reg)@.contains_key(id) ==> lines@.len() == 0,
    {
        match reg.take(id) {
            None => Vec::new(),
            Some(mut conn) => {
                push_line(&mut conn, String::from_str("* BYE IMAP4rev1 Server logging out"));
                push_line(&mut conn, tag_line(tag, "OK LOGOUT completed"));
                proof {
                    assert(conn@.outbox =~~= old(reg)@[id].outbox + seq![
                        "* BYE IMAP4rev1 Server logging out"@,
                        tagged(tag@, "OK LOGOUT completed"@),
                    ]);
                }
                conn.outbox
            },
        }
    }

    /// NAMESPACE: gated on authentication.
    pub fn namespace(reg: &mut Registry, id: u64, tag: &str)
        ensures
            !old(reg)@.contains_key(id) ==> final(reg)@ == old(reg)@,
            old(reg)@.contains_key(id) ==> final(reg)@ == old(reg)@.insert(
                id,
                if is_authed(old(reg)@[id].session.state) {
                    after_namespace(old(reg)@[id], tag@)
                } else {
                    with_lines(old(reg)@[id], seq![no_login_line(tag@)])
                },
            ),
    {
        match reg.take(id) {
            None => {},
            Some(mut conn) => {
                let authed = match &conn.session.state {
                    SessionState::Authenticated => true,
                    SessionState::MailboxSelected(_) => true,
                    _ => false,
                };
                if authed {
                    push_line(&mut conn, String::from_str("* NAMESPACE ((\"\" \".\")) NIL NIL"));
                    push_line(&mut conn, tag_line(tag, "OK Namespace completed."));
                    proof {
                        assert(conn@.outbox =~~= old(reg)@[id].outbox + seq![
                            "* NAMESPACE ((\"\" \".\")) NIL NIL"@,
                            tagged(tag@, "OK Namespace completed."@),
                        ]);
                    }
                } else {
                    push_line(&mut conn, tag_line(tag, "NO Please Login first!"));
                    proof {
                        assert(conn@.outbox =~~= old(reg)@[id].outbox + seq![no_login_line(tag@)]);
                    }
                }
                reg.insert(id, conn);
                proof {
                    assert(reg@ =~~= old(reg)@.insert(
                        id,
                        if is_authed(old(reg)@[id].session.state) {
                            after_namespace(old(reg)@[id], tag@)
                        } else {
                            with_lines(old(reg)@[id], seq![no_login_line(tag@)])
                        },
                    ));
                }
            },
        }
    }

    /// ID: gated on authentication.
    pub fn id(reg: &mut Registry, id: u64, tag: &str)
        ensures
            !old(reg)@.contains_key(id) ==> final(reg)@ == old(reg)@,
            old(reg)@.contains_key(id) ==> final(reg)@ == old(reg)@.insert(
                id,
                if is_authed(old(reg)@[id].session.state) {
                    after_id(old(reg)@[id], tag@)
                } else {
                    with_lines(old(reg)@[id], seq![no_login_line(tag@)])
                },
            ),
    {
        match reg.take(id) {
            None => {},
            Some(mut conn) => {
                let authed = match &conn.session.state {
                    SessionState::Authenticated => true,
                    SessionState::MailboxSelected(_) => true,
                    _ => false,
                };
                if authed {
                    push_line(
                        &mut conn,
                        String::from_str("* ID (\"name\" \"IMAPServer-rs\" \"version\" \"0.1.0\")"),
                    );
                    push_line(&mut conn, tag_line(tag, "OK ID Completed"));
                    proof {
                        assert(conn@.outbox =~~= old(reg)@[id].outbox + seq![
                            "* ID (\"name\" \"IMAPServer-rs\" \"version\" \"0.1.0\")"@,
                            tagged(tag@, "OK ID Completed"@),
                        ]);
                    }
                } else {
                    push_line(&mut conn, tag_line(tag, "NO Please Login first!"));
                    proof {
                        assert(conn@.outbox =~~= old(reg)@[id].outbox + seq![no_login_line(tag@)]);
                    }
                }
                reg.insert(id, conn);
                proof {
                    assert(reg@ =~~= old(reg)@.insert(
                        id,
                        if is_authed(old(reg)@[id].session.state) {
                            after_id(old(reg)@[id], tag@)
                        } else {
                            with_lines(old(reg)@[id], seq![no_login_line(tag@)])
                        },
                    ));
                }
            },
        }
    }

    /// STATUS: gated on authentication; counters are canned.
    pub fn status(reg: &mut Registry, id: u64, tag: &str, mailbox: &str)
        ensures
            !old(reg)@.contains_key(id) ==> final(reg)@ == old(reg)@,
            old(reg)@.contains_key(id) ==> final(reg)@ == old(reg)@.insert(
                id,
                if is_authed(old(reg)@[id].session.state) {
                    after_status(old(reg)@[id], tag@, mailbox@)
                } else {
                    with_lines(old(reg)@[id], seq![no_login_line(tag@)])
                },
            ),
    {
        match reg.take(id) {
            None => {},
            Some(mut conn) => {
                let authed = match &conn.session.state {
                    SessionState::Authenticated => true,
                    SessionState::MailboxSelected(_) => true,
                    _ => false,
                };
                if authed {
                    let mut first = String::from_str("* STATUS ");
                    first.append(mailbox);
                    first.append(" (MESSAGES 2 UIDNEXT 2 UNSEEN 0 RECENT 0)");
                    push_line(&mut conn, first);
                    push_line(&mut conn, tag_line(tag, "OK STATUS Completed"));
                    proof {
                        assert(conn@.outbox =~~= old(reg)@[id].outbox + seq![
                            "* STATUS "@ + mailbox@ + " (MESSAGES 2 UIDNEXT 2 UNSEEN 0 RECENT 0)"@,
                            tagged(tag@, "OK STATUS Completed"@),
                        ]);
                    }
                } else {
                    push_line(&mut conn, tag_line(tag, "NO Please Login first!"));
                    proof {
                        assert(conn@.outbox =~~= old(reg)@[id].outbox + seq![no_login_line(tag@)]);
                    }
                }
                reg.insert(id, conn);
                proof {
                    assert(reg@ =~~= old(reg)@.insert(
                        id,
                        if is_authed(old(reg)@[id].session.state) {
                            after_status(old(reg)@[id], tag@, mailbox@)
                        } else {
                            with_lines(old(reg)@[id], seq![no_login_line(tag@)])
                        },
                    ));
                }
            },
        }
    }

    /// SUBSCRIBE: gated on authentication; acknowledged without
    /// bookkeeping.
    pub fn subscribe(reg: &mut Registry, id: u64, tag: &str)
        ensures
            !old(reg)@.contains_key(id) ==> final(reg)@ == old(reg)@,
            old(reg)@.contains_key(id) ==> final(reg)@ == old(reg)@.insert(
                id,
                if is_authed(old(reg)@[id].session.state) {
                    after_subscribe(old(reg)@[id], tag@)
                } else {
                    with_lines(old(reg)@[id], seq![no_login_line(tag@)])
                },
            ),
    {
        match reg.take(id) {
            None => {},
            Some(mut conn) => {
                let authed = match &conn.session.state {
                    SessionState::Authenticated => true,
                    SessionState::MailboxSelected(_) => true,
                    _ => false,
                };
                if authed {
                    push_line(&mut conn, tag_line(tag, "OK SUBSCRIBE Completed"));
                    proof {
                        assert(conn@.outbox =~~= old(reg)@[id].outbox + seq![
                            tagged(tag@, "OK SUBSCRIBE Completed"@),
                        ]);
                    }
                } else {
                    push_line(&mut conn, tag_line(tag, "NO Please Login first!"));
                    proof {
                        assert(conn@.outbox =~~= old(reg)@[id].outbox + seq![no_login_line(tag@)]);
                    }
                }
                reg.insert(id, conn);
                proof {
                    assert(reg@ =~~= old(reg)@.insert(
                        id,
                        if is_authed(old(reg)@[id].session.state) {
                            after_subscribe(old(reg)@[id], tag@)
                        } else {
                            with_lines(old(reg)@[id], seq![no_login_line(tag@)])
                        },
                    ));
                }
            },
        }
    }

    /// SELECT/EXAMINE: gated on authentication; selects the mailbox
    /// read-write or read-only.
    pub fn select(reg: &mut Registry, id: u64, tag: &str, mailbox: &str, readwrite: bool)
        ensures
            !old(reg)@.contains_key(id) ==> final(reg)@ == old(reg)@,
            old(reg)@.contains_key(id) ==> final(reg)@ == old(reg)@.insert(
                id,
                if is_authed(old(reg)@[id].session.state) {
                    after_select(old(reg)@[id], tag@, mailbox@, readwrite)
                } else {
                    with_lines(old(reg)@[id], seq![no_login_line(tag@)])
                },
            ),
    {
        match reg.take(id) {
            None => {},
            Some(mut conn) => {
                let authed = match &conn.session.state {
                    SessionState::Authenticated => true,
                    SessionState::MailboxSelected(_) => true,
                    _ => false,
                };
                if authed {
                    push_line(
                        &mut conn,
                        String::from_str("* FLAGS (\\Answered \\Flagged \\Deleted \\Seen \\Draft)"),
                    );
                    push_line(&mut conn, String::from_str("* OK [PERMANENTFLAGS (\\*)] Limited"));
                    push_line(&mut conn, String::from_str("* OK [UIDVALIDITY 1] UIDs valid"));
                    push_line(&mut conn, String::from_str("* OK [UIDNEXT 2] Predicted next UID"));
                    push_line(&mut conn, String::from_str("* 1 EXISTS"));
                    push_line(&mut conn, String::from_str("* 0 RECENT"));
                    if readwrite {
                        push_line(&mut conn, tag_line(tag, "OK [READ-WRITE] SELECT completed"));
                    } else {
                        push_line(&mut conn, tag_line(tag, "OK [READ-ONLY] SELECT completed"));
                    }
                    conn.session.state = SessionState::MailboxSelected(mailbox.to_owned());
                    proof {
                        assert(conn@ =~~= after_select(old(reg)@[id], tag@, mailbox@, readwrite));
                    }
                } else {
                    push_line(&mut conn, tag_line(tag, "NO Please Login first!"));
                    proof {
                        assert(conn@.outbox =~~= old(reg)@[id].outbox + seq![no_login_line(tag@)]);
                    }
                }
                reg.insert(id, conn);
                proof {
                    assert(reg@ =~~= old(reg)@.insert(
                        id,
                        if is_authed(old(reg)@[id].session.state) {
                            after_select(old(reg)@[id], tag@, mailbox@, readwrite)
                        } else {
                            with_lines(old(reg)@[id], seq![no_login_line(tag@)])
                        },
                    ));
                }
            },
        }
    }

    /// CLOSE: only sensible with a mailbox selected; then the session
    /// returns to plain authenticated.
    pub fn close(reg: &mut Registry, id: u64, tag: &str)
        ensures
            !old(reg)@.contains_key(id) ==> final(reg)@ == old(reg)@,
            old(reg)@.contains_key(id) ==> final(reg)@ == old(reg)@.insert(
                id,
                match old(reg)@[id].session.state {
                    SpecSessionState::MailboxSelected(_) => after_close(old(reg)@[id], tag@),
                    SpecSessionState::Authenticated => with_lines(
                        old(reg)@[id],
                        seq![tagged(tag@, "NO no mailbox selected"@)],
                    ),
                    _ => with_lines(old(reg)@[id], seq![no_login_line(tag@)]),
                },
            ),
    {
        match reg.take(id) {
            None => {},
            Some(mut conn) => {
                let selected = match &conn.session.state {
                    SessionState::MailboxSelected(_) => true,
                    _ => false,
                };
                let authed = match &conn.session.state {
                    SessionState::Authenticated => true,
                    _ => false,
                };
                if selected {
                    push_line(&mut conn, tag_line(tag, "OK CLOSE completed"));
                    conn.session.state = SessionState::Authenticated;
                    proof {
                        assert(conn@ =~~= after_close(old(reg)@[id], tag@));
                    }
                } else if authed {
                    push_line(&mut conn, tag_line(tag, "NO no mailbox selected"));
                    proof {
                        assert(conn@.outbox =~~= old(reg)@[id].outbox + seq![
                            tagged(tag@, "NO no mailbox selected"@),
                        ]);
                    }
                } else {
                    push_line(&mut conn, tag_line(tag, "NO Please Login first!"));
                    proof {
                        assert(conn@.outbox =~~= old(reg)@[id].outbox + seq![no_login_line(tag@)]);
                    }
                }
                reg.insert(id, conn);
                proof {
                    assert(reg@ =~~= old(reg)@.insert(
                        id,
                        match old(reg)@[id].session.state {
                            SpecSessionState::MailboxSelected(_) => after_close(
                                old(reg)@[id],
                                tag@,
                            ),
                            SpecSessionState::Authenticated => with_lines(
                                old(reg)@[id],
                                seq![tagged(tag@, "NO no mailbox selected"@)],
                            ),
                            _ => with_lines(old(reg)@[id], seq![no_login_line(tag@)]),
                        },
                    ));
                }
            },
        }
    }

    /// LIST: gated on authentication; formats one line per folder that
    /// passes the pattern, then the completion.  The folder names are
    /// whatever the store reported for the user's root.
    pub fn list(reg: &mut Registry, id: u64, tag: &str, pattern: &str, folders: &Vec<String>)
        ensures
            !old(reg)@.contains_key(id) ==> final(reg)@ == old(reg)@,
            old(reg)@.contains_key(id) ==> final(reg)@ == old(reg)@.insert(
                id,
                if is_authed(old(reg)@[id].session.state) {
                    after_list(
                        old(reg)@[id],
                        tag@,
                        pattern@,
                        folders@.map_values(|s: String| s@),
                    )
                } else {
                    with_lines(old(reg)@[id], seq![no_login_line(tag@)])
                },
            ),
    {
        match reg.take(id) {
            None => {},
            Some(mut conn) => {
                let authed = match &conn.session.state {
                    SessionState::Authenticated => true,
                    SessionState::MailboxSelected(_) => true,
                    _ => false,
                };
                if authed {
                    let ghost fs = folders@.map_values(|s: String| s@);
                    let ghost before = conn@.outbox;
                    let ghost sess0 = conn@.session;
                    let formatted = match crate::mailbox::format_list(pattern, folders) {
                        Some(v) => v,
                        None => Vec::new(),
                    };
                    proof {
                        assert(formatted@.map_values(|s: String| s@) =~~= list_lines(fs, pattern@));
                    }
                    let mut i: usize = 0;
                    proof {
                        assert(conn@.outbox =~~= before + list_lines(fs, pattern@).take(0));
                    }
                    while i < formatted.len()
                        invariant
                            0 <= i <= formatted@.len(),
                            formatted@.map_values(|s: String| s@) == list_lines(fs, pattern@),
                            conn@.session == sess0,
                            conn@.outbox == before + list_lines(fs, pattern@).take(i as int),
                        decreases formatted@.len() - i,
                    {
                        let line = formatted[i].clone();
                        proof {
                            assert(line@ == formatted@.map_values(|s: String| s@)[i as int]);
                        }
                        push_line(&mut conn, line);
                        proof {
                            assert(conn@.outbox =~~= before + list_lines(fs, pattern@).take(
                                i + 1,
                            ));
                        }
                        i = i + 1;
                    }
                    push_line(&mut conn, tag_line(tag, "OK LIST Completed"));
                    proof {
                        assert(list_lines(fs, pattern@).take(list_lines(fs, pattern@).len() as int)
                            =~~= list_lines(fs, pattern@));
                        assert(conn@.outbox =~~= before + list_lines(fs, pattern@).push(
                            tagged(tag@, "OK LIST Completed"@),
                        ));
                    }
                } else {
                    push_line(&mut conn, tag_line(tag, "NO Please Login first!"));
                    proof {
                        assert(conn@.outbox =~~= old(reg)@[id].outbox + seq![no_login_line(tag@)]);
                    }
                }
                reg.insert(id, conn);
                proof {
                    assert(reg@ =~~= old(reg)@.insert(
                        id,
                        if is_authed(old(reg)@[id].session.state) {
                            after_list(
                                old(reg)@[id],
                                tag@,
                                pattern@,
                                folders@.map_values(|s: String| s@),
                            )
                        } else {
                            with_lines(old(reg)@[id], seq![no_login_line(tag@)])
                        },
                    ));
                }
            },
        }
    }

    /// LSUB: the subscription flavour of LIST.
    pub fn lsub(reg: &mut Registry, id: u64, tag: &str, pattern: &str, folders: &Vec<String>)
        ensures
            !old(reg)@.contains_key(id) ==> final(reg)@ == old(reg)@,
            old(reg)@.contains_key(id) ==> final(reg)@ == old(reg)@.insert(
                id,
                if is_authed(old(reg)@[id].session.state) {
                    after_lsub(
                        old(reg)@[id],
                        tag@,
                        pattern@,
                        folders@.map_values(|s: String| s@),
                    )
                } else {
                    with_lines(old(reg)@[id], seq![no_login_line(tag@)])
                },
            ),
    {
        match reg.take(id) {
            None => {},
            Some(mut conn) => {
                let authed = match &conn.session.state {
                    SessionState::Authenticated => true,
                    SessionState::MailboxSelected(_) => true,
                    _ => false,
                };
                if authed {
                    let ghost fs = folders@.map_values(|s: String| s@);
                    let ghost before = conn@.outbox;
                    let ghost sess0 = conn@.session;
                    let formatted = match crate::mailbox::format_lsub(pattern, folders) {
                        Some(v) => v,
                        None => Vec::new(),
                    };
                    proof {
                        assert(formatted@.map_values(|s: String| s@) =~~= lsub_lines(fs, pattern@));
                    }
                    let mut i: usize = 0;
                    proof {
                        assert(conn@.outbox =~~= before + lsub_lines(fs, pattern@).take(0));
                    }
                    while i < formatted.len()
                        invariant
                            0 <= i <= formatted@.len(),
                            formatted@.map_values(|s: String| s@) == lsub_lines(fs, pattern@),
                            conn@.session == sess0,
                            conn@.outbox == before + lsub_lines(fs, pattern@).take(i as int),
                        decreases formatted@.len() - i,
                    {
                        let line = formatted[i].clone();
                        proof {
                            assert(line@ == formatted@.map_values(|s: String| s@)[i as int]);
                        }
                        push_line(&mut conn, line);
                        proof {
                            assert(conn@.outbox =~~= before + lsub_lines(fs, pattern@).take(
                                i + 1,
                            ));
                        }
                        i = i + 1;
                    }
                    push_line(&mut conn, tag_line(tag, "OK LSUB Completed"));
                    proof {
                        assert(lsub_lines(fs, pattern@).take(lsub_lines(fs, pattern@).len() as int)
                            =~~= lsub_lines(fs, pattern@));
                        assert(conn@.outbox =~~= before + lsub_lines(fs, pattern@).push(
                            tagged(tag@, "OK LSUB Completed"@),
                        ));
                    }
                } else {
                    push_line(&mut conn, tag_line(tag, "NO Please Login first!"));
                    proof {
                        assert(conn@.outbox =~~= old(reg)@[id].outbox + seq![no_login_line(tag@)]);
                    }
                }
                reg.insert(id, conn);
                proof {
                    assert(reg@ =~~= old(reg)@.insert(
                        id,
                        if is_authed(old(reg)@[id].session.state) {
                            after_lsub(
                                old(reg)@[id],
                                tag@,
                                pattern@,
                                folders@.map_values(|s: String| s@),
                            )
                        } else {
                            with_lines(old(reg)@[id], seq![no_login_line(tag@)])
                        },
                    ));
                }
            },
        }
    }

    /// CREATE, second half: once the store has (or has not) made the
    /// folder, reports the outcome to the client.
    pub fn create(reg: &mut Registry, id: u64, tag: &str, created: bool)
        ensures
            !old(reg)@.contains_key(id) ==> final(reg)@ == old(reg)@,
            old(reg)@.contains_key(id) ==> final(reg)@ == old(reg)@.insert(
                id,
                after_create(old(reg)@[id], tag@, created),
            ),
    {
        match reg.take(id) {
            None => {},
            Some(mut conn) => {
                if created {
                    push_line(&mut conn, tag_line(tag, "OK CREATE Completed"));
                } else {
                    push_line(&mut conn, tag_line(tag, "NO CREATE failed"));
                }
                proof {
                    assert(conn@.outbox =~~= after_create(old(reg)@[id], tag@, created).outbox);
                }
                reg.insert(id, conn);
                proof {
                    assert(reg@ =~~= old(reg)@.insert(
                        id,
                        after_create(old(reg)@[id], tag@, created),
                    ));
                }
            },
        }
    }

    /// LOGIN, the one-shot authentication: looks the user up and
    /// verifies the password.  Only sensible before authentication.
    pub fn login(
        reg: &mut Registry,
        id: u64,
        db: &Database,
        root_base: &str,
        tag: &str,
        user: &str,
        pass: &str,
    )
        ensures
            !old(reg)@.contains_key(id) ==> final(reg)@ == old(reg)@,
            old(reg)@.contains_key(id) && is_authed(old(reg)@[id].session.state) ==> final(reg)@
                == old(reg)@.insert(
                id,
                with_lines(old(reg)@[id], seq![tagged(tag@, "NO already authenticated"@)]),
            ),
            old(reg)@.contains_key(id) && !is_authed(old(reg)@[id].session.state) ==> ({
                ||| (exists|m: SpecMailbox|
                    m.user == user@ && m.mailbox_root == root_base@ + "/"@ + user@
                        && m.password_hash.len() == 128 && final(reg)@ == old(reg)@.insert(
                        id,
                        spec_login_attempt(old(reg)@[id], Some(m), tag@, pass.spec_bytes()),
                    ))
                ||| final(reg)@ == old(reg)@.insert(
                    id,
                    spec_login_attempt(old(reg)@[id], None, tag@, pass.spec_bytes()),
                )
            }),
    {
        match reg.take(id) {
            None => {},
            Some(mut conn) => {
                let authed = match &conn.session.state {
                    SessionState::Authenticated => true,
                    SessionState::MailboxSelected(_) => true,
                    _ => false,
                };
                if authed {
                    push_line(&mut conn, tag_line(tag, "NO already authenticated"));
                    proof {
                        assert(conn@.outbox =~~= old(reg)@[id].outbox + seq![
                            tagged(tag@, "NO already authenticated"@),
                        ]);
                    }
                    reg.insert(id, conn);
                    proof {
                        assert(reg@ =~~= old(reg)@.insert(
                            id,
                            with_lines(
                                old(reg)@[id],
                                seq![tagged(tag@, "NO already authenticated"@)],
                            ),
                        ));
                    }
                    return ;
                }
                match Mailbox::load(db, root_base, user) {
                    Some(m) => {
                        let ghost mv = m@;
                        let accepted = m.check_password_plain(pass).is_ok();
                        if accepted {
                            push_line(
                                &mut conn,
                                tag_line(
                                    tag,
                                    "OK [CAPABILITY IMAP4rev1 LITERAL+ AUTH=PLAIN] AUTHENTICATE completed",
                                ),
                            );
                            conn.session.state = SessionState::Authenticated;
                            conn.session.identity = Some(m);
                            proof {
                                assert(conn@ =~~= spec_login_attempt(
                                    old(reg)@[id],
                                    Some(mv),
                                    tag@,
                                    pass.spec_bytes(),
                                ));
                            }
                        } else {
                            push_line(&mut conn, tag_line(tag, "NO credentials invalid"));
                            conn.session.state = SessionState::Unauthenticated;
                            conn.session.identity = None;
                            proof {
                                assert(conn@ =~~= spec_login_attempt(
                                    old(reg)@[id],
                                    Some(mv),
                                    tag@,
                                    pass.spec_bytes(),
                                ));
                            }
                        }
                        reg.insert(id, conn);
                        proof {
                            assert(reg@ =~~= old(reg)@.insert(
                                id,
                                spec_login_attempt(old(reg)@[id], Some(mv), tag@, pass.spec_bytes()),
                            ));
                        }
                    },
                    None => {
                        push_line(&mut conn, tag_line(tag, "NO credentials invalid"));
                        conn.session.state = SessionState::Unauthenticated;
                        conn.session.identity = None;
                        proof {
                            assert(conn@ =~~= spec_login_attempt(
                                old(reg)@[id],
                                None,
                                tag@,
                                pass.spec_bytes(),
                            ));
                        }
                        reg.insert(id, conn);
                        proof {
                            assert(reg@ =~~= old(reg)@.insert(
                                id,
                                spec_login_attempt(old(reg)@[id], None, tag@, pass.spec_bytes()),
                            ));
                        }
                    },
                }
            },
        }
    }
}

} // verus!
