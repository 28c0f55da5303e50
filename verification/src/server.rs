//! The per-connection dispatcher: one received line in, the session's
//! transition and queued responses out.  Work that only the folder
//! store can do (reading or creating directories) is handed back to
//! the caller as a [`StoreAction`]; everything else is settled here.

use vstd::prelude::*;
use vstd::utf8::encode_utf8;

use crate::authenticate::{
    after_auth_continue, plain_bad, spec_plain_attempt, spec_sasl_creds, Authentication,
};
use crate::commands::{
    after_capability, after_close, after_id, after_namespace, after_noop, after_select,
    after_status, after_subscribe, is_authed, no_login_line, spec_login_attempt, tag_line, tagged,
    with_lines, Commands,
};
use crate::database::Database;
use crate::mailbox::{dot_to_slash, SpecMailbox};
use crate::parser::{commands, spec_command, ParserResult, SpecCommand};
use crate::registry::{Registry, SpecConnection};
use crate::session::{SessionState, SpecSessionState};

verus! {

/// The mathematical value of a pending store action.
pub enum SpecStoreAction {
    CreateFolder { tag: Seq<char>, path: Seq<char> },
    ListFolders { tag: Seq<char>, reference: Seq<char>, pattern: Seq<char>, lsub: bool, root: Seq<char> },
}

/// Folder-store work a command needs before it can complete: the
/// caller performs it and reports back through [`Commands::list`],
/// [`Commands::lsub`] or [`Commands::create`].
#[derive(Debug, PartialEq)]
pub enum StoreAction {
    /// Make the folder at `path` (inside the user's root), if missing.
    CreateFolder { tag: String, path: String },
    /// Read the folder names under `root`.
    ListFolders { tag: String, reference: String, pattern: String, lsub: bool, root: String },
}

impl View for StoreAction {
    type V = SpecStoreAction;

    open spec fn view(&self) -> SpecStoreAction {
        match self {
            StoreAction::CreateFolder { tag, path } => SpecStoreAction::CreateFolder {
                tag: tag@,
                path: path@,
            },
            StoreAction::ListFolders { tag, reference, pattern, lsub, root } => {
                SpecStoreAction::ListFolders {
                    tag: tag@,
                    reference: reference@,
                    pattern: pattern@,
                    lsub: *lsub,
                    root: root@,
                }
            },
        }
    }
}

/// What one dispatched line came to, mathematically: the connection
/// stays with a new entry (and perhaps a pending store action), or
/// the connection closes with farewell lines to deliver.
pub enum SpecDispatch {
    Stay(SpecConnection, Option<SpecStoreAction>),
    Close(Seq<Seq<char>>),
}

/// What one dispatched line came to.
#[derive(Debug, PartialEq)]
pub enum DispatchOutcome {
    /// Handled; responses are queued in the connection's outbox.
    Done,
    /// The store must act before the command can complete.
    NeedsStore(StoreAction),
    /// LOGOUT: the registry entry is gone; these lines remain to be
    /// written, then the connection closes.
    Closing(Vec<String>),
    /// The connection identity was not registered.
    UnknownConnection,
}

/// The identity the session has proved, available only once
/// authenticated.
pub open spec fn authed_identity(c: SpecConnection) -> Option<SpecMailbox> {
    if is_authed(c.session.state) {
        c.session.identity
    } else {
        None
    }
}

/// The session state machine, as a relation between the connection
/// before a line, the line, and what dispatching it came to.  The
/// relation is loose only where an outside answer decides (the user
/// lookup in LOGIN and AUTHENTICATE); everywhere else it pins the
/// outcome exactly.
pub open spec fn dispatch_rel(
    c: SpecConnection,
    line: Seq<char>,
    root: Seq<char>,
    res: SpecDispatch,
) -> bool {
    match c.session.state {
        SpecSessionState::AuthenticatingPlain(tag) => (match spec_sasl_creds(line) {
            None => res == SpecDispatch::Stay(plain_bad(c, tag), None::<SpecStoreAction>),
            Some((u, p)) => {
                ||| (exists|m: SpecMailbox|
                    m.user == u && m.mailbox_root == root + "/"@ + u && m.password_hash.len()
                        == 128 && res == SpecDispatch::Stay(
                        spec_plain_attempt(c, Some(m), tag, p),
                        None::<SpecStoreAction>,
                    ))
                ||| res == SpecDispatch::Stay(
                    spec_plain_attempt(c, None, tag, p),
                    None::<SpecStoreAction>,
                )
            },
        }),
        _ => (match spec_command(line) {
            SpecCommand::Capability { tag } => res == SpecDispatch::Stay(
                after_capability(c, tag),
                None::<SpecStoreAction>,
            ),
            SpecCommand::AuthPlainContinue { tag } => res == SpecDispatch::Stay(
                if is_authed(c.session.state) {
                    with_lines(c, seq![tagged(tag, "NO already authenticated"@)])
                } else {
                    after_auth_continue(c, tag)
                },
                None::<SpecStoreAction>,
            ),
            SpecCommand::Login { tag, user, pass } => if is_authed(c.session.state) {
                res == SpecDispatch::Stay(
                    with_lines(c, seq![tagged(tag, "NO already authenticated"@)]),
                    None::<SpecStoreAction>,
                )
            } else {
                ||| (exists|m: SpecMailbox|
                    m.user == user && m.mailbox_root == root + "/"@ + user
                        && m.password_hash.len() == 128 && res == SpecDispatch::Stay(
                        spec_login_attempt(c, Some(m), tag, encode_utf8(pass)),
                        None::<SpecStoreAction>,
                    ))
                ||| res == SpecDispatch::Stay(
                    spec_login_attempt(c, None, tag, encode_utf8(pass)),
                    None::<SpecStoreAction>,
                )
            },
            SpecCommand::Logout { tag } => res == SpecDispatch::Close(
                c.outbox + seq![
                    "* BYE IMAP4rev1 Server logging out"@,
                    tagged(tag, "OK LOGOUT completed"@),
                ],
            ),
            SpecCommand::Noop { tag } => res == SpecDispatch::Stay(
                after_noop(c, tag),
                None::<SpecStoreAction>,
            ),
            SpecCommand::Close { tag } => res == SpecDispatch::Stay(
                match c.session.state {
                    SpecSessionState::MailboxSelected(_) => after_close(c, tag),
                    SpecSessionState::Authenticated => with_lines(
                        c,
                        seq![tagged(tag, "NO no mailbox selected"@)],
                    ),
                    _ => with_lines(c, seq![no_login_line(tag)]),
                },
                None::<SpecStoreAction>,
            ),
            SpecCommand::Namespace { tag } => res == SpecDispatch::Stay(
                if is_authed(c.session.state) {
                    after_namespace(c, tag)
                } else {
                    with_lines(c, seq![no_login_line(tag)])
                },
                None::<SpecStoreAction>,
            ),
            SpecCommand::Id { tag } => res == SpecDispatch::Stay(
                if is_authed(c.session.state) {
                    after_id(c, tag)
                } else {
                    with_lines(c, seq![no_login_line(tag)])
                },
                None::<SpecStoreAction>,
            ),
            SpecCommand::Status { tag, mailbox } => res == SpecDispatch::Stay(
                if is_authed(c.session.state) {
                    after_status(c, tag, mailbox)
                } else {
                    with_lines(c, seq![no_login_line(tag)])
                },
                None::<SpecStoreAction>,
            ),
            SpecCommand::Subscribe { tag, name } => res == SpecDispatch::Stay(
                if is_authed(c.session.state) {
                    after_subscribe(c, tag)
                } else {
                    with_lines(c, seq![no_login_line(tag)])
                },
                None::<SpecStoreAction>,
            ),
            SpecCommand::Select { tag, mailbox, readwrite } => res == SpecDispatch::Stay(
                if is_authed(c.session.state) {
                    after_select(c, tag, mailbox, readwrite)
                } else {
                    with_lines(c, seq![no_login_line(tag)])
                },
                None::<SpecStoreAction>,
            ),
            SpecCommand::List { tag, reference, pattern } => (match authed_identity(c) {
                Some(m) => res == SpecDispatch::Stay(
                    c,
                    Some(
                        SpecStoreAction::ListFolders {
                            tag,
                            reference,
                            pattern,
                            lsub: false,
                            root: m.mailbox_root,
                        },
                    ),
                ),
                None => res == SpecDispatch::Stay(
                    with_lines(c, seq![no_login_line(tag)]),
                    None::<SpecStoreAction>,
                ),
            }),
            SpecCommand::Lsub { tag, reference, pattern } => (match authed_identity(c) {
                Some(m) => res == SpecDispatch::Stay(
                    c,
                    Some(
                        SpecStoreAction::ListFolders {
                            tag,
                            reference,
                            pattern,
                            lsub: true,
                            root: m.mailbox_root,
                        },
                    ),
                ),
                None => res == SpecDispatch::Stay(
                    with_lines(c, seq![no_login_line(tag)]),
                    None::<SpecStoreAction>,
                ),
            }),
            SpecCommand::Create { tag, name } => (match authed_identity(c) {
                Some(m) => res == SpecDispatch::Stay(
                    c,
                    Some(
                        SpecStoreAction::CreateFolder {
                            tag,
                            path: m.mailbox_root + "/"@ + dot_to_slash(name),
                        },
                    ),
                ),
                None => res == SpecDispatch::Stay(
                    with_lines(c, seq![no_login_line(tag)]),
                    None::<SpecStoreAction>,
                ),
            }),
            SpecCommand::Unrecognized { raw } => res == SpecDispatch::Stay(
                with_lines(c, seq!["* BAD unknown command"@]),
                None::<SpecStoreAction>,
            ),
        }),
    }
}

/// The banner sent to every connection on accept.
pub fn greeting() -> (r: String)
    ensures
        r@ == "* OK [CAPABILITY IMAP4rev1 LITERAL+ AUTH=PLAIN] Rust Imap-Server ready."@,
{
    String::from_str("* OK [CAPABILITY IMAP4rev1 LITERAL+ AUTH=PLAIN] Rust Imap-Server ready.")
}

/// Queues the not-logged-in refusal for `id`.
fn refuse(reg: &mut Registry, id: u64, tag: &str)
    ensures
        !old(reg)@.contains_key(id) ==> final(reg)@ == old(reg)@,
        old(reg)@.contains_key(id) ==> final(reg)@ == old(reg)@.insert(
            id,
            with_lines(old(reg)@[id], seq![no_login_line(tag@)]),
        ),
{
    match reg.take(id) {
        None => {},
        Some(mut conn) => {
            conn.outbox.push(tag_line(tag, "NO Please Login first!"));
            proof {
                assert(conn@ =~~= with_lines(old(reg)@[id], seq![no_login_line(tag@)]));
            }
            reg.insert(id, conn);
            proof {
                assert(reg@ =~~= old(reg)@.insert(
                    id,
                    with_lines(old(reg)@[id], seq![no_login_line(tag@)]),
                ));
            }
        },
    }
}

/// Queues the unknown-command report for `id`.
fn bad_command(reg: &mut Registry, id: u64)
    ensures
        !old(reg)@.contains_key(id) ==> final(reg)@ == old(reg)@,
        old(reg)@.contains_key(id) ==> final(reg)@ == old(reg)@.insert(
            id,
            with_lines(old(reg)@[id], seq!["* BAD unknown command"@]),
        ),
{
    match reg.take(id) {
        None => {},
        Some(mut conn) => {
            conn.outbox.push(String::from_str("* BAD unknown command"));
            proof {
                assert(conn@ =~~= with_lines(old(reg)@[id], seq!["* BAD unknown command"@]));
            }
            reg.insert(id, conn);
            proof {
                assert(reg@ =~~= old(reg)@.insert(
                    id,
                    with_lines(old(reg)@[id], seq!["* BAD unknown command"@]),
                ));
            }
        },
    }
}

/// Dispatches one received line for the connection `id`: advances the
/// session, queues the responses, and reports any store work still
/// needed.  Touches no entry but `id`'s, so concurrent connections
/// never see each other's state.
pub fn handle_line(
    reg: &mut Registry,
    id: u64,
    db: &Database,
    root_base: &str,
    line: &str,
) -> (r: DispatchOutcome)
    ensures
        !old(reg)@.contains_key(id) ==> final(reg)@ == old(reg)@ && r is UnknownConnection,
        forall|k: u64|
            k != id ==> final(reg)@.contains_key(k) == old(reg)@.contains_key(k),
        forall|k: u64|
            k != id && old(reg)@.contains_key(k) ==> final(reg)@[k] == old(reg)@[k],
        old(reg)@.contains_key(id) ==> match r {
            DispatchOutcome::UnknownConnection => false,
            DispatchOutcome::Done => final(reg)@.contains_key(id) && dispatch_rel(
                old(reg)@[id],
                line@,
                root_base@,
                SpecDispatch::Stay(final(reg)@[id], None::<SpecStoreAction>),
            ) && final(reg)@ == old(reg)@.insert(id, final(reg)@[id]),
            DispatchOutcome::NeedsStore(a) => final(reg)@.contains_key(id) && dispatch_rel(
                old(reg)@[id],
                line@,
                root_base@,
                SpecDispatch::Stay(final(reg)@[id], Some(a@)),
            ) && final(reg)@ == old(reg)@.insert(id, final(reg)@[id]),
            DispatchOutcome::Closing(lines) => dispatch_rel(
                old(reg)@[id],
                line@,
                root_base@,
                SpecDispatch::Close(lines@.map_values(|s: String| s@)),
            ) && final(reg)@ == old(reg)@.remove(id),
        },
{
    let authing = match reg.get(id) {
        None => {
            return DispatchOutcome::UnknownConnection;
        },
        Some(c) => match &c.session.state {
            SessionState::AuthenticatingPlain(_) => true,
            _ => false,
        },
    };
    if authing {
        Authentication::parse_login_data(reg, id, db, root_base, line);
        proof {
            assert(reg@ =~~= old(reg)@.insert(id, reg@[id]));
        }
        return DispatchOutcome::Done;
    }
    let cmd = commands(line);
    match cmd {
        ParserResult::CapabilityRequest(tag) => {
            Commands::capability(reg, id, tag.as_str());
            proof {
                assert(reg@ =~~= old(reg)@.insert(id, reg@[id]));
            }
            DispatchOutcome::Done
        },
        ParserResult::AuthPlainContinueRequest(tag) => {
            Authentication::authenticate(reg, id, tag.as_str());
            proof {
                assert(reg@ =~~= old(reg)@.insert(id, reg@[id]));
            }
            DispatchOutcome::Done
        },
        ParserResult::LoginRequest(tag, user, pass) => {
            Commands::login(reg, id, db, root_base, tag.as_str(), user.as_str(), pass.as_str());
            proof {
                assert(reg@ =~~= old(reg)@.insert(id, reg@[id]));
            }
            DispatchOutcome::Done
        },
        ParserResult::LogoutRequest(tag) => {
            let lines = Commands::logout(reg, id, tag.as_str());
            DispatchOutcome::Closing(lines)
        },
        ParserResult::NoopRequest(tag) => {
            Commands::noop(reg, id, tag.as_str());
            proof {
                assert(reg@ =~~= old(reg)@.insert(id, reg@[id]));
            }
            DispatchOutcome::Done
        },
        ParserResult::CloseRequest(tag) => {
            Commands::close(reg, id, tag.as_str());
            proof {
                assert(reg@ =~~= old(reg)@.insert(id, reg@[id]));
            }
            DispatchOutcome::Done
        },
        ParserResult::NamespaceRequest(tag) => {
            Commands::namespace(reg, id, tag.as_str());
            proof {
                assert(reg@ =~~= old(reg)@.insert(id, reg@[id]));
            }
            DispatchOutcome::Done
        },
        ParserResult::IdRequest(tag) => {
            Commands::id(reg, id, tag.as_str());
            proof {
                assert(reg@ =~~= old(reg)@.insert(id, reg@[id]));
            }
            DispatchOutcome::Done
        },
        ParserResult::StatusRequest(tag, mailbox) => {
            Commands::status(reg, id, tag.as_str(), mailbox.as_str());
            proof {
                assert(reg@ =~~= old(reg)@.insert(id, reg@[id]));
            }
            DispatchOutcome::Done
        },
        ParserResult::SubscribeRequest(tag, _name) => {
            Commands::subscribe(reg, id, tag.as_str());
            proof {
                assert(reg@ =~~= old(reg)@.insert(id, reg@[id]));
            }
            DispatchOutcome::Done
        },
        ParserResult::SelectRequest(tag, mailbox, readwrite) => {
            Commands::select(reg, id, tag.as_str(), mailbox.as_str(), readwrite);
            proof {
                assert(reg@ =~~= old(reg)@.insert(id, reg@[id]));
            }
            DispatchOutcome::Done
        },
        ParserResult::ListRequest(tag, reference, pattern) => {
            let root = match reg.get(id) {
                Some(c) => match &c.session.state {
                    SessionState::Authenticated | SessionState::MailboxSelected(_) => {
                        match &c.session.identity {
                            Some(m) => Some(m.root().clone()),
                            None => None,
                        }
                    },
                    _ => None,
                },
                None => None,
            };
            match root {
                Some(root) => {
                    proof {
                        assert(reg@ =~~= old(reg)@.insert(id, reg@[id]));
                    }
                    DispatchOutcome::NeedsStore(
                        StoreAction::ListFolders { tag, reference, pattern, lsub: false, root },
                    )
                },
                None => {
                    refuse(reg, id, tag.as_str());
                    proof {
                        assert(reg@ =~~= old(reg)@.insert(id, reg@[id]));
                    }
                    DispatchOutcome::Done
                },
            }
        },
        ParserResult::LSUBRequest(tag, reference, pattern) => {
            let root = match reg.get(id) {
                Some(c) => match &c.session.state {
                    SessionState::Authenticated | SessionState::MailboxSelected(_) => {
                        match &c.session.identity {
                            Some(m) => Some(m.root().clone()),
                            None => None,
                        }
                    },
                    _ => None,
                },
                None => None,
            };
            match root {
                Some(root) => {
                    proof {
                        assert(reg@ =~~= old(reg)@.insert(id, reg@[id]));
                    }
                    DispatchOutcome::NeedsStore(
                        StoreAction::ListFolders { tag, reference, pattern, lsub: true, root },
                    )
                },
                None => {
                    refuse(reg, id, tag.as_str());
                    proof {
                        assert(reg@ =~~= old(reg)@.insert(id, reg@[id]));
                    }
                    DispatchOutcome::Done
                },
            }
        },
        ParserResult::CreateRequest(tag, name) => {
            let path = match reg.get(id) {
                Some(c) => match &c.session.state {
                    SessionState::Authenticated | SessionState::MailboxSelected(_) => {
                        match &c.session.identity {
                            Some(m) => Some(m.create_folder_path(name.as_str())),
                            None => None,
                        }
                    },
                    _ => None,
                },
                None => None,
            };
            match path {
                Some(path) => {
                    proof {
                        assert(reg@ =~~= old(reg)@.insert(id, reg@[id]));
                    }
                    DispatchOutcome::NeedsStore(StoreAction::CreateFolder { tag, path })
                },
                None => {
                    refuse(reg, id, tag.as_str());
                    proof {
                        assert(reg@ =~~= old(reg)@.insert(id, reg@[id]));
                    }
                    DispatchOutcome::Done
                },
            }
        },
        ParserResult::Unrecognized(_raw) => {
            bad_command(reg, id);
            proof {
                assert(reg@ =~~= old(reg)@.insert(id, reg@[id]));
            }
            DispatchOutcome::Done
        },
    }
}

} // verus!
