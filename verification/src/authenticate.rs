//! The two-step AUTHENTICATE PLAIN exchange.  Step one stores the
//! client's tag and answers with a bare `+` continuation; step two
//! takes one base64 line of SASL-PLAIN data (`authzid NUL user NUL
//! password`), decodes it, and verifies the credentials.  Every
//! malformed or refused attempt puts the session back to
//! `Unauthenticated`; it never sticks mid-exchange.

use vstd::prelude::*;
use vstd::utf8::{decode_utf8, encode_utf8, valid_utf8};

use crate::commands::{auth_ok_line, tag_line, tagged};
use crate::database::Database;
use crate::mailbox::{Mailbox, SpecMailbox};
use crate::passwords;
use crate::registry::{Registry, SpecConnection};
use crate::session::{SessionState, SpecSession, SpecSessionState};

verus! {

/// What base64 decoding returns for a given text: a function of the
/// text alone.
pub uninterp spec fn b64_decoded(s: Seq<char>) -> Option<Seq<u8>>;

/// Relies on `base64::decode` (standard alphabet, padding): the
/// result is a function of the input text alone.
#[verifier::external_body]
fn decode_b64(s: &str) -> (r: Option<Vec<u8>>)
    ensures
        b64_decoded(s@) == (match r {
            Some(v) => Some(v@),
            None => None::<Seq<u8>>,
        }),
{
    base64::decode(s).ok()
}

/// The length of the longest NUL-free prefix of `s`.
pub open spec fn nul_free_prefix(s: Seq<u8>) -> nat
    decreases s.len(),
{
    if s.len() == 0 || s[0] == 0 {
        0
    } else {
        1 + nul_free_prefix(s.skip(1))
    }
}

/// A cut below which every byte is nonzero, and at which (if inside
/// the sequence) a NUL stands, can only be `nul_free_prefix` itself.
pub proof fn lemma_nul_prefix_unique(s: Seq<u8>, n: int)
    requires
        0 <= n <= s.len(),
        forall|i: int| 0 <= i < n ==> s[i] != 0,
        n < s.len() ==> s[n] == 0,
    ensures
        n == nul_free_prefix(s),
    decreases s.len(),
{
    if s.len() == 0 || s[0] == 0 {
    } else {
        assert forall|i: int| 0 <= i < n - 1 implies s.skip(1)[i] != 0 by {
            assert(s.skip(1)[i] == s[i + 1]);
        }
        if n - 1 < s.skip(1).len() {
            assert(s.skip(1)[n - 1] == s[n]);
        }
        lemma_nul_prefix_unique(s.skip(1), n - 1);
    }
}

/// Splits SASL-PLAIN data on its NUL bytes.  The data must hold
/// exactly three parts — authzid (which may be empty), login name and
/// password — so exactly two NULs; the name and password come back.
pub open spec fn spec_sasl(bytes: Seq<u8>) -> Option<(Seq<u8>, Seq<u8>)> {
    let i = nul_free_prefix(bytes) as int;
    if i == bytes.len() {
        None
    } else {
        let after1 = bytes.skip(i + 1);
        let j = nul_free_prefix(after1) as int;
        if j == after1.len() {
            None
        } else {
            let user = after1.take(j);
            let pass = after1.skip(j + 1);
            if nul_free_prefix(pass) == pass.len() {
                Some((user, pass))
            } else {
                None
            }
        }
    }
}

/// The credentials one base64 line carries, if it decodes, splits,
/// and reads as text.
pub open spec fn spec_sasl_creds(line: Seq<char>) -> Option<(Seq<char>, Seq<char>)> {
    match b64_decoded(line) {
        None => None,
        Some(bytes) => match spec_sasl(bytes) {
            None => None,
            Some((u, p)) => if valid_utf8(u) && valid_utf8(p) {
                Some((decode_utf8(u), decode_utf8(p)))
            } else {
                None
            },
        },
    }
}

/// After step one of AUTHENTICATE PLAIN: the tag is remembered, the
/// client is prompted to continue.
pub open spec fn after_auth_continue(c: SpecConnection, tag: Seq<char>) -> SpecConnection {
    SpecConnection {
        session: SpecSession {
            state: SpecSessionState::AuthenticatingPlain(tag),
            identifier: tag,
            identity: None,
        },
        outbox: c.outbox.push("+"@),
    }
}

/// After a credentials line that cannot even be read: back to square
/// one with a BAD reply under the stored tag.
pub open spec fn plain_bad(c: SpecConnection, tag: Seq<char>) -> SpecConnection {
    SpecConnection {
        session: SpecSession {
            state: SpecSessionState::Unauthenticated,
            identifier: c.session.identifier,
            identity: None,
        },
        outbox: c.outbox.push(tagged(tag, "BAD invalid credentials"@)),
    }
}

/// After refused credentials: back to square one with a NO reply
/// under the stored tag.
pub open spec fn plain_fail(c: SpecConnection, tag: Seq<char>) -> SpecConnection {
    SpecConnection {
        session: SpecSession {
            state: SpecSessionState::Unauthenticated,
            identifier: c.session.identifier,
            identity: None,
        },
        outbox: c.outbox.push(tagged(tag, "NO credentials rejected"@)),
    }
}

/// After the credential check of step two, against the looked-up
/// record `m`: authenticated exactly when the verifier accepts the
/// password, refused otherwise.
pub open spec fn spec_plain_attempt(
    c: SpecConnection,
    m: Option<SpecMailbox>,
    tag: Seq<char>,
    pass: Seq<char>,
) -> SpecConnection {
    match m {
        Some(mb) => if passwords::verify_ok(mb.password_hash, encode_utf8(pass)) {
            SpecConnection {
                session: SpecSession {
                    state: SpecSessionState::Authenticated,
                    identifier: c.session.identifier,
                    identity: Some(mb),
                },
                outbox: c.outbox.push(auth_ok_line(tag)),
            }
        } else {
            plain_fail(c, tag)
        },
        None => plain_fail(c, tag),
    }
}

/// Finds the end of the NUL-free run starting at `from`.
fn scan_nul(v: &Vec<u8>, from: usize) -> (r: usize)
    requires
        from <= v@.len(),
    ensures
        from <= r <= v@.len(),
        r - from == nul_free_prefix(v@.skip(from as int)),
{
    let n = v.len();
    let mut i = from;
    while i < n && v[i] != 0
        invariant
            from <= i <= n,
            n == v@.len(),
            forall|j: int| from <= j < i ==> v@[j] != 0,
        decreases n - i,
    {
        i = i + 1;
    }
    proof {
        let body = v@.skip(from as int);
        assert forall|k: int| 0 <= k < i - from implies body[k] != 0 by {
            assert(body[k] == v@[from + k]);
        }
        if i - from < body.len() {
            assert(body[i - from] == v@[i as int]);
        }
        lemma_nul_prefix_unique(body, i - from);
    }
    i
}

/// Splits decoded SASL-PLAIN bytes into login name and password, as
/// `spec_sasl` reads them.
pub fn sasl_parts(v: &Vec<u8>) -> (r: Option<(Vec<u8>, Vec<u8>)>)
    ensures
        match r {
            Some(pr) => (match spec_sasl(v@) {
                Some(q) => q.0 == pr.0@ && q.1 == pr.1@,
                None => false,
            }),
            None => spec_sasl(v@) is None,
        },
{
    let n = v.len();
    proof {
        assert(v@.skip(0) =~= v@);
    }
    let i = scan_nul(v, 0);
    if i == n {
        return None;
    }
    proof {
        assert(v@.skip(i + 1) =~= v@.skip(0).skip(i + 1));
    }
    let j = scan_nul(v, i + 1);
    let ghost after1 = v@.skip(i as int + 1);
    proof {
        assert(after1.skip(j - (i + 1)) =~= v@.skip(j as int));
    }
    if j == n {
        return None;
    }
    proof {
        assert(v@.skip(j + 1) =~= after1.skip(j - i));
    }
    let k = scan_nul(v, j + 1);
    let ghost pass_s = after1.skip(j - i);
    if k < n {
        proof {
            assert(nul_free_prefix(pass_s) < pass_s.len());
        }
        return None;
    }
    let user = crate::helper::sub_bytes(v, i + 1, j);
    let pass = crate::helper::sub_bytes(v, j + 1, n);
    proof {
        assert(after1.take(j - (i + 1)) =~= v@.subrange(i as int + 1, j as int));
        assert(pass_s =~= v@.subrange(j as int + 1, n as int));
        assert(nul_free_prefix(pass_s) == pass_s.len());
    }
    Some((user, pass))
}

/// The AUTHENTICATE PLAIN handlers.
pub struct Authentication;

impl Authentication {
    /// Step one: remember the tag, prompt with `+`.  A session that
    /// is already authenticated is refused instead.
    pub fn authenticate(reg: &mut Registry, id: u64, tag: &str)
        ensures
            !old(reg)@.contains_key(id) ==> final(reg)@ == old(reg)@,
            old(reg)@.contains_key(id) ==> final(reg)@ == old(reg)@.insert(
                id,
                if crate::commands::is_authed(old(reg)@[id].session.state) {
                    crate::commands::with_lines(
                        old(reg)@[id],
                        seq![tagged(tag@, "NO already authenticated"@)],
                    )
                } else {
                    after_auth_continue(old(reg)@[id], tag@)
                },
            ),
    {
        match reg.take(id) {
            None => {},
            Some(mut conn) => {
                let authed = match &conn.session.state {
                    SessionState::Authenticated => true,
                    SessionState::MailboxSelected(_) => true,
                    _ => false,
                };
                if authed {
                    conn.outbox.push(tag_line(tag, "NO already authenticated"));
                    proof {
                        assert(conn@ =~~= crate::commands::with_lines(
                            old(reg)@[id],
                            seq![tagged(tag@, "NO already authenticated"@)],
                        ));
                    }
                } else {
                    conn.outbox.push(String::from_str("+"));
                    conn.session.state = SessionState::AuthenticatingPlain(tag.to_owned());
                    conn.session.identifier = tag.to_owned();
                    conn.session.identity = None;
                    proof {
                        assert(conn@ =~~= after_auth_continue(old(reg)@[id], tag@));
                    }
                }
                reg.insert(id, conn);
                proof {
                    assert(reg@ =~~= old(reg)@.insert(
                        id,
                        if crate::commands::is_authed(old(reg)@[id].session.state) {
                            crate::commands::with_lines(
                                old(reg)@[id],
                                seq![tagged(tag@, "NO already authenticated"@)],
                            )
                        } else {
                            after_auth_continue(old(reg)@[id], tag@)
                        },
                    ));
                }
            },
        }
    }

    /// Step two: reads one line of base64 SASL-PLAIN credentials.
    /// Acts only on a session that is mid-exchange; whatever happens,
    /// the exchange ends here.
    pub fn parse_login_data(reg: &mut Registry, id: u64, db: &Database, root_base: &str, line: &str)
        ensures
            !old(reg)@.contains_key(id) ==> final(reg)@ == old(reg)@,
            old(reg)@.contains_key(id) && !(old(reg)@[id].session.state is AuthenticatingPlain)
                ==> final(reg)@ == old(reg)@,
            old(reg)@.contains_key(id) && old(reg)@[id].session.state is AuthenticatingPlain ==> ({
                let c = old(reg)@[id];
                let tag = match c.session.state {
                    SpecSessionState::AuthenticatingPlain(t) => t,
                    _ => Seq::empty(),
                };
                match spec_sasl_creds(line@) {
                    None => final(reg)@ == old(reg)@.insert(id, plain_bad(c, tag)),
                    Some((u, p)) => {
                        ||| (exists|m: SpecMailbox|
                            m.user == u && m.mailbox_root == root_base@ + "/"@ + u
                                && m.password_hash.len() == 128 && final(reg)@ == old(
                                reg,
                            )@.insert(id, spec_plain_attempt(c, Some(m), tag, p)))
                        ||| final(reg)@ == old(reg)@.insert(
                            id,
                            spec_plain_attempt(c, None, tag, p),
                        )
                    },
                }
            }),
    {
        match reg.take(id) {
            None => {},
            Some(mut conn) => {
                let tag = match &conn.session.state {
                    SessionState::AuthenticatingPlain(t) => t.clone(),
                    _ => {
                        reg.insert(id, conn);
                        proof {
                            assert(reg@ =~~= old(reg)@);
                        }
                        return ;
                    },
                };
                let ghost c = old(reg)@[id];
                let creds = match decode_b64(line) {
                    None => None,
                    Some(bytes) => match sasl_parts(&bytes) {
                        None => None,
                        Some((u, p)) => match (
                            crate::helper::utf8_to_string(&u),
                            crate::helper::utf8_to_string(&p),
                        ) {
                            (Some(us), Some(ps)) => Some((us, ps)),
                            _ => None,
                        },
                    },
                };
                match creds {
                    None => {
                        conn.outbox.push(tag_line(tag.as_str(), "BAD invalid credentials"));
                        conn.session.state = SessionState::Unauthenticated;
                        conn.session.identity = None;
                        proof {
                            assert(conn@ =~~= plain_bad(c, tag@));
                        }
                        reg.insert(id, conn);
                        proof {
                            assert(reg@ =~~= old(reg)@.insert(id, plain_bad(c, tag@)));
                        }
                    },
                    Some((us, ps)) => {
                        match Mailbox::load(db, root_base, us.as_str()) {
                            Some(m) => {
                                let ghost mv = m@;
                                let accepted = m.check_password_plain(ps.as_str()).is_ok();
                                if accepted {
                                    conn.outbox.push(
                                        tag_line(
                                            tag.as_str(),
                                            "OK [CAPABILITY IMAP4rev1 LITERAL+ AUTH=PLAIN] AUTHENTICATE completed",
                                        ),
                                    );
                                    conn.session.state = SessionState::Authenticated;
                                    conn.session.identity = Some(m);
                                } else {
                                    conn.outbox.push(
                                        tag_line(tag.as_str(), "NO credentials rejected"),
                                    );
                                    conn.session.state = SessionState::Unauthenticated;
                                    conn.session.identity = None;
                                }
                                proof {
                                    assert(conn@ =~~= spec_plain_attempt(
                                        c,
                                        Some(mv),
                                        tag@,
                                        decode_utf8(
                                            (match b64_decoded(line@) {
                                                Some(bytes) => (match spec_sasl(bytes) {
                                                    Some(q) => q.1,
                                                    None => Seq::empty(),
                                                }),
                                                None => Seq::empty(),
                                            }),
                                        ),
                                    ));
                                }
                                reg.insert(id, conn);
                                proof {
                                    assert(reg@ =~~= old(reg)@.insert(
                                        id,
                                        spec_plain_attempt(
                                            c,
                                            Some(mv),
                                            tag@,
                                            (match spec_sasl_creds(line@) {
                                                Some(q) => q.1,
                                                None => Seq::empty(),
                                            }),
                                        ),
                                    ));
                                }
                            },
                            None => {
                                conn.outbox.push(tag_line(tag.as_str(), "NO credentials rejected"));
                                conn.session.state = SessionState::Unauthenticated;
                                conn.session.identity = None;
                                proof {
                                    assert(conn@ =~~= plain_fail(c, tag@));
                                }
                                reg.insert(id, conn);
                                proof {
                                    assert(reg@ =~~= old(reg)@.insert(
                                        id,
                                        spec_plain_attempt(
                                            c,
                                            None,
                                            tag@,
                                            (match spec_sasl_creds(line@) {
                                                Some(q) => q.1,
                                                None => Seq::empty(),
                                            }),
                                        ),
                                    ));
                                }
                            },
                        }
                    },
                }
            },
        }
    }
}

} // verus!
