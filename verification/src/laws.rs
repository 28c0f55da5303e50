//! Properties of the protocol engine, stated of the spec-level step
//! functions and proved once and for all.

use vstd::prelude::*;
use vstd::utf8::encode_utf8;

use crate::authenticate::{after_auth_continue, spec_plain_attempt};
use crate::commands::{
    auth_ok_line, is_authed, no_login_line, spec_login_attempt, tagged, with_lines,
};
use crate::mailbox::{dot_to_slash, SpecMailbox};
use crate::parser::{spec_command, SpecCommand};
use crate::passwords::verify_ok;
use crate::registry::SpecConnection;
use crate::server::{dispatch_rel, SpecDispatch, SpecStoreAction};
use crate::session::SpecSessionState;

verus! {

/// The commands that presuppose a login.
pub open spec fn gated_command(cmd: SpecCommand) -> bool {
    ||| cmd is List
    ||| cmd is Lsub
    ||| cmd is Select
    ||| cmd is Create
    ||| cmd is Subscribe
    ||| cmd is Status
    ||| cmd is Namespace
    ||| cmd is Id
    ||| cmd is Close
}

/// The tag a command carries.
pub open spec fn cmd_tag(cmd: SpecCommand) -> Seq<char> {
    match cmd {
        SpecCommand::Capability { tag } => tag,
        SpecCommand::AuthPlainContinue { tag } => tag,
        SpecCommand::Login { tag, .. } => tag,
        SpecCommand::Logout { tag } => tag,
        SpecCommand::Noop { tag } => tag,
        SpecCommand::Close { tag } => tag,
        SpecCommand::Namespace { tag } => tag,
        SpecCommand::Id { tag } => tag,
        SpecCommand::Select { tag, .. } => tag,
        SpecCommand::List { tag, .. } => tag,
        SpecCommand::Lsub { tag, .. } => tag,
        SpecCommand::Create { tag, .. } => tag,
        SpecCommand::Subscribe { tag, .. } => tag,
        SpecCommand::Status { tag, .. } => tag,
        SpecCommand::Unrecognized { .. } => Seq::empty(),
    }
}

/// State gating: dispatching any login-requiring command on an
/// unauthenticated session refuses it with `NO Please Login first!`
/// under the command's tag, changes no session state, and asks the
/// store for nothing.
pub proof fn lemma_state_gating(
    c: SpecConnection,
    line: Seq<char>,
    root: Seq<char>,
    res: SpecDispatch,
)
    requires
        c.session.state is Unauthenticated,
        dispatch_rel(c, line, root, res),
        gated_command(spec_command(line)),
    ensures
        res == SpecDispatch::Stay(
            with_lines(c, seq![no_login_line(cmd_tag(spec_command(line)))]),
            None::<SpecStoreAction>,
        ),
        (match res {
            SpecDispatch::Stay(e, a) => e.session == c.session && a is None,
            SpecDispatch::Close(_) => false,
        }),
{
}

/// Authentication round trip: against a stored record whose verifier
/// accepts password `good` and refuses password `bad`, a LOGIN with
/// `good` authenticates the session and completes `OK` under the
/// client's tag, while a LOGIN with `bad` leaves it unauthenticated
/// and answers `NO`.
pub proof fn lemma_auth_round_trip(
    c: SpecConnection,
    m: SpecMailbox,
    tag: Seq<char>,
    good: Seq<u8>,
    bad: Seq<u8>,
)
    requires
        verify_ok(m.password_hash, good),
        !verify_ok(m.password_hash, bad),
    ensures
        spec_login_attempt(c, Some(m), tag, good).session.state is Authenticated,
        spec_login_attempt(c, Some(m), tag, good).session.identity == Some(m),
        spec_login_attempt(c, Some(m), tag, good).outbox == c.outbox.push(auth_ok_line(tag)),
        spec_login_attempt(c, Some(m), tag, bad).session.state is Unauthenticated,
        spec_login_attempt(c, Some(m), tag, bad).session.identity is None,
        spec_login_attempt(c, Some(m), tag, bad).outbox == c.outbox.push(
            tagged(tag, "NO credentials invalid"@),
        ),
{
}

/// The AUTHENTICATE PLAIN exchange, both steps: the first step
/// answers exactly `+` and remembers the tag; the second, against a
/// stored record, authenticates on an accepted password and falls
/// back to `Unauthenticated` on a refused one — in both cases
/// completing under the tag stored in step one.
pub proof fn lemma_auth_plain_two_step(
    c: SpecConnection,
    tag: Seq<char>,
    m: SpecMailbox,
    good: Seq<char>,
    bad: Seq<char>,
)
    requires
        verify_ok(m.password_hash, encode_utf8(good)),
        !verify_ok(m.password_hash, encode_utf8(bad)),
    ensures
        ({
            let c1 = after_auth_continue(c, tag);
            &&& c1.outbox == c.outbox.push("+"@)
            &&& c1.session.state == SpecSessionState::AuthenticatingPlain(tag)
            &&& spec_plain_attempt(c1, Some(m), tag, good).session.state is Authenticated
            &&& spec_plain_attempt(c1, Some(m), tag, good).outbox == c1.outbox.push(
                auth_ok_line(tag),
            )
            &&& spec_plain_attempt(c1, Some(m), tag, bad).session.state is Unauthenticated
            &&& spec_plain_attempt(c1, Some(m), tag, bad).outbox == c1.outbox.push(
                tagged(tag, "NO credentials rejected"@),
            )
        }),
{
}

/// Logout is idempotent at the registry: removing a connection twice
/// is the same as removing it once, and afterwards the key is gone.
pub proof fn lemma_logout_idempotent(m: Map<u64, SpecConnection>, id: u64)
    ensures
        m.remove(id).remove(id) == m.remove(id),
        !m.remove(id).contains_key(id),
{
    assert(m.remove(id).remove(id) =~= m.remove(id));
}

/// Connections are independent: whatever dispatching does for one
/// connection — rewriting its entry or removing it — every other
/// connection's entry is exactly what it was.
pub proof fn lemma_connection_isolation(
    m: Map<u64, SpecConnection>,
    id: u64,
    e: SpecConnection,
    k: u64,
)
    requires
        k != id,
    ensures
        m.insert(id, e).contains_key(k) == m.contains_key(k),
        m.contains_key(k) ==> m.insert(id, e)[k] == m[k],
        m.remove(id).contains_key(k) == m.contains_key(k),
        m.contains_key(k) ==> m.remove(id)[k] == m[k],
{
}

/// Dot translation: the path a folder name maps to is the name,
/// character for character, with each hierarchy dot turned into a
/// path slash.
pub proof fn lemma_dot_to_slash(s: Seq<char>)
    ensures
        dot_to_slash(s).len() == s.len(),
        forall|i: int|
            0 <= i < s.len() ==> dot_to_slash(s)[i] == (if s[i] == '.' {
                '/'
            } else {
                s[i]
            }),
{
}

/// CREATE path translation: dispatching `CREATE name` on an
/// authenticated session with identity `m` asks the store for exactly
/// the folder `m.mailbox_root + "/" + dot_to_slash(name)`, and moves
/// no session state.
pub proof fn lemma_create_path(
    c: SpecConnection,
    line: Seq<char>,
    root: Seq<char>,
    res: SpecDispatch,
    m: SpecMailbox,
    tag: Seq<char>,
    name: Seq<char>,
)
    requires
        dispatch_rel(c, line, root, res),
        spec_command(line) == (SpecCommand::Create { tag, name }),
        is_authed(c.session.state),
        c.session.identity == Some(m),
    ensures
        res == SpecDispatch::Stay(
            c,
            Some(
                SpecStoreAction::CreateFolder { tag, path: m.mailbox_root + "/"@ + dot_to_slash(name) },
            ),
        ),
{
}

/// The session invariant is preserved by every dispatch step: an
/// identity is held exactly in the authenticated states, and it is
/// always a well-formed record.
pub proof fn lemma_dispatch_preserves_wf(
    c: SpecConnection,
    line: Seq<char>,
    root: Seq<char>,
    res: SpecDispatch,
)
    requires
        c.session.wf(),
        dispatch_rel(c, line, root, res),
    ensures
        (match res {
            SpecDispatch::Stay(e, _) => e.session.wf(),
            SpecDispatch::Close(_) => true,
        }),
{
}

} // verus!
