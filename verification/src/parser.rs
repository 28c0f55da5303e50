//! The command grammar: one text line is parsed into a tagged command.
//!
//! A line is `tag SP verb [SP args]`, where the tag is a run of
//! alphanumeric characters, verbs are matched case-insensitively, and
//! arguments are quoted strings.  Anything else parses to
//! `Unrecognized`, which is never fatal to a connection.

use vstd::prelude::*;

verus! {

/// Characters permitted in an IMAP tag: ASCII letters and digits.
pub open spec fn is_tag_char(c: char) -> bool {
    (97 <= c as u32 && c as u32 <= 122)  // 'a'..='z'
    || (65 <= c as u32 && c as u32 <= 90)  // 'A'..='Z'
    || (48 <= c as u32 && c as u32 <= 57)  // '0'..='9'
}

/// Separator characters between the tag, the verb and the arguments.
pub open spec fn is_sp_char(c: char) -> bool {
    c == ' ' || c == '\t'
}

/// Characters permitted inside a plain quoted string: alphanumerics,
/// the wildcard star, and the dot that separates mailbox hierarchy
/// levels (`CREATE "A.B"` names a nested folder).
pub open spec fn is_qstring_char(c: char) -> bool {
    is_tag_char(c) || c == '*' || c == '.'
}

/// Characters permitted inside a login-name quoted string: the
/// alphanumerics widened by the address characters.
pub open spec fn is_astring_char(c: char) -> bool {
    is_tag_char(c) || c == '@' || c == '_' || c == '-' || c == '.'
}

/// The length of the longest prefix of `s` whose characters all
/// satisfy `pred`.
pub open spec fn run_len(s: Seq<char>, pred: spec_fn(char) -> bool) -> nat
    decreases s.len(),
{
    if s.len() == 0 || !pred(s[0]) {
        0
    } else {
        1 + run_len(s.skip(1), pred)
    }
}

/// A cut below which every character satisfies the predicate, and at
/// which (if inside the sequence) the predicate fails, can only be
/// `run_len` itself.
pub proof fn lemma_run_len_unique(s: Seq<char>, pred: spec_fn(char) -> bool, n: int)
    requires
        0 <= n <= s.len(),
        forall|i: int| 0 <= i < n ==> pred(s[i]),
        n < s.len() ==> !pred(s[n]),
    ensures
        n == run_len(s, pred),
    decreases s.len(),
{
    if s.len() == 0 || !pred(s[0]) {
    } else {
        assert forall|i: int| 0 <= i < n - 1 implies pred(s.skip(1)[i]) by {
            assert(s.skip(1)[i] == s[i + 1]);
        }
        if n - 1 < s.skip(1).len() {
            assert(s.skip(1)[n - 1] == s[n]);
        }
        lemma_run_len_unique(s.skip(1), pred, n - 1);
    }
}

/// Case-insensitive character match against a lowercase reference
/// character.
pub open spec fn lower_eq(a: char, b: char) -> bool {
    a == b || (65 <= a as u32 && a as u32 <= 90 && a as u32 + 32 == b as u32)
}

/// Case-insensitive equality of a sequence against a lowercase
/// keyword.
pub open spec fn ci_eq(a: Seq<char>, b: Seq<char>) -> bool {
    a.len() == b.len() && forall|i: int| 0 <= i < a.len() ==> lower_eq(a[i], b[i])
}

/// Splits `line` into its tag and the rest after the separator, or
/// nothing if the line does not open with `tag SP`.
pub open spec fn spec_tag_split(line: Seq<char>) -> Option<(Seq<char>, Seq<char>)> {
    let n = run_len(line, |c: char| is_tag_char(c));
    if n == 0 {
        None
    } else {
        let rest = line.skip(n as int);
        let k = run_len(rest, |c: char| is_sp_char(c));
        if k == 0 {
            None
        } else {
            Some((line.take(n as int), rest.skip(k as int)))
        }
    }
}

/// Strips a case-insensitive keyword from the front of `body`.
pub open spec fn strip_keyword(body: Seq<char>, kw: Seq<char>) -> Option<Seq<char>> {
    if body.len() >= kw.len() && ci_eq(body.take(kw.len() as int), kw) {
        Some(body.skip(kw.len() as int))
    } else {
        None
    }
}

/// Strips one or more separator characters from the front of `s`.
pub open spec fn strip_sp(s: Seq<char>) -> Option<Seq<char>> {
    let k = run_len(s, |c: char| is_sp_char(c));
    if k == 0 {
        None
    } else {
        Some(s.skip(k as int))
    }
}

/// Strips a keyword followed by at least one separator.
pub open spec fn strip_keyword_sp(body: Seq<char>, kw: Seq<char>) -> Option<Seq<char>> {
    match strip_keyword(body, kw) {
        None => None,
        Some(r) => strip_sp(r),
    }
}

/// Reads a quoted string whose inner characters satisfy `pred`;
/// yields the inner text and what follows the closing quote.
pub open spec fn spec_quoted(s: Seq<char>, pred: spec_fn(char) -> bool) -> Option<
    (Seq<char>, Seq<char>),
> {
    if s.len() == 0 || s[0] != '"' {
        None
    } else {
        let n = run_len(s.skip(1), pred);
        if n + 1 < s.len() && s[n as int + 1] == '"' {
            Some((s.subrange(1, n as int + 1), s.skip(n as int + 2)))
        } else {
            None
        }
    }
}

/// A whole command body of the form `kw SP quoted`.
pub open spec fn spec_one_arg(
    body: Seq<char>,
    kw: Seq<char>,
    pred: spec_fn(char) -> bool,
) -> Option<Seq<char>> {
    match strip_keyword_sp(body, kw) {
        None => None,
        Some(r1) => match spec_quoted(r1, pred) {
            None => None,
            Some((a, r2)) => if r2.len() == 0 {
                Some(a)
            } else {
                None
            },
        },
    }
}

/// A whole command body of the form `kw SP quoted SP quoted`.
pub open spec fn spec_two_args(
    body: Seq<char>,
    kw: Seq<char>,
    p1: spec_fn(char) -> bool,
    p2: spec_fn(char) -> bool,
) -> Option<(Seq<char>, Seq<char>)> {
    match strip_keyword_sp(body, kw) {
        None => None,
        Some(r1) => match spec_quoted(r1, p1) {
            None => None,
            Some((a, r2)) => match strip_sp(r2) {
                None => None,
                Some(r3) => match spec_quoted(r3, p2) {
                    None => None,
                    Some((b, r4)) => if r4.len() == 0 {
                        Some((a, b))
                    } else {
                        None
                    },
                },
            },
        },
    }
}

/// The mathematical value of one parsed line.
pub enum SpecCommand {
    Capability { tag: Seq<char> },
    AuthPlainContinue { tag: Seq<char> },
    Login { tag: Seq<char>, user: Seq<char>, pass: Seq<char> },
    Logout { tag: Seq<char> },
    Noop { tag: Seq<char> },
    Close { tag: Seq<char> },
    Namespace { tag: Seq<char> },
    Id { tag: Seq<char> },
    Select { tag: Seq<char>, mailbox: Seq<char>, readwrite: bool },
    List { tag: Seq<char>, reference: Seq<char>, pattern: Seq<char> },
    Lsub { tag: Seq<char>, reference: Seq<char>, pattern: Seq<char> },
    Create { tag: Seq<char>, name: Seq<char> },
    Subscribe { tag: Seq<char>, name: Seq<char> },
    Status { tag: Seq<char>, mailbox: Seq<char> },
    Unrecognized { raw: Seq<char> },
}

/// The command denoted by a body once the tag has been read.
pub open spec fn spec_body_command(line: Seq<char>, tag: Seq<char>, body: Seq<char>) -> SpecCommand {
    if ci_eq(body, "capability"@) {
        SpecCommand::Capability { tag }
    } else if ci_eq(body, "authenticate plain"@) {
        SpecCommand::AuthPlainContinue { tag }
    } else if ci_eq(body, "logout"@) {
        SpecCommand::Logout { tag }
    } else if ci_eq(body, "noop"@) {
        SpecCommand::Noop { tag }
    } else if ci_eq(body, "close"@) {
        SpecCommand::Close { tag }
    } else if ci_eq(body, "namespace"@) {
        SpecCommand::Namespace { tag }
    } else if ci_eq(body, "id"@) {
        SpecCommand::Id { tag }
    } else {
        match spec_two_args(
            body,
            "login"@,
            |c: char| is_astring_char(c),
            |c: char| is_qstring_char(c),
        ) {
            Some((user, pass)) => SpecCommand::Login { tag, user, pass },
            None => match spec_two_args(
                body,
                "list"@,
                |c: char| is_qstring_char(c),
                |c: char| is_qstring_char(c),
            ) {
                Some((reference, pattern)) => SpecCommand::List { tag, reference, pattern },
                None => match spec_two_args(
                    body,
                    "lsub"@,
                    |c: char| is_qstring_char(c),
                    |c: char| is_qstring_char(c),
                ) {
                    Some((reference, pattern)) => SpecCommand::Lsub { tag, reference, pattern },
                    None => match spec_one_arg(body, "create"@, |c: char| is_qstring_char(c)) {
                        Some(name) => SpecCommand::Create { tag, name },
                        None => match spec_one_arg(
                            body,
                            "subscribe"@,
                            |c: char| is_qstring_char(c),
                        ) {
                            Some(name) => SpecCommand::Subscribe { tag, name },
                            None => match spec_one_arg(
                                body,
                                "select"@,
                                |c: char| is_qstring_char(c),
                            ) {
                                Some(mailbox) => SpecCommand::Select {
                                    tag,
                                    mailbox,
                                    readwrite: true,
                                },
                                None => match spec_one_arg(
                                    body,
                                    "examine"@,
                                    |c: char| is_qstring_char(c),
                                ) {
                                    Some(mailbox) => SpecCommand::Select {
                                        tag,
                                        mailbox,
                                        readwrite: false,
                                    },
                                    None => match spec_one_arg(
                                        body,
                                        "status"@,
                                        |c: char| is_qstring_char(c),
                                    ) {
                                        Some(mailbox) => SpecCommand::Status { tag, mailbox },
                                        None => SpecCommand::Unrecognized { raw: line },
                                    },
                                },
                            },
                        },
                    },
                },
            },
        }
    }
}

/// The command denoted by one whole input line.
pub open spec fn spec_command(line: Seq<char>) -> SpecCommand {
    match spec_tag_split(line) {
        None => SpecCommand::Unrecognized { raw: line },
        Some((tag, body)) => spec_body_command(line, tag, body),
    }
}

/// One parsed client command, as carried around at run time.
#[derive(Debug, PartialEq)]
pub enum ParserResult {
    CapabilityRequest(String),
    AuthPlainContinueRequest(String),
    LoginRequest(String, String, String),
    LogoutRequest(String),
    NoopRequest(String),
    CloseRequest(String),
    NamespaceRequest(String),
    IdRequest(String),
    SelectRequest(String, String, bool),
    ListRequest(String, String, String),
    LSUBRequest(String, String, String),
    CreateRequest(String, String),
    SubscribeRequest(String, String),
    StatusRequest(String, String),
    Unrecognized(String),
}

impl View for ParserResult {
    type V = SpecCommand;

    open spec fn view(&self) -> SpecCommand {
        match self {
            ParserResult::CapabilityRequest(t) => SpecCommand::Capability { tag: t@ },
            ParserResult::AuthPlainContinueRequest(t) => SpecCommand::AuthPlainContinue {
                tag: t@,
            },
            ParserResult::LoginRequest(t, u, p) => SpecCommand::Login {
                tag: t@,
                user: u@,
                pass: p@,
            },
            ParserResult::LogoutRequest(t) => SpecCommand::Logout { tag: t@ },
            ParserResult::NoopRequest(t) => SpecCommand::Noop { tag: t@ },
            ParserResult::CloseRequest(t) => SpecCommand::Close { tag: t@ },
            ParserResult::NamespaceRequest(t) => SpecCommand::Namespace { tag: t@ },
            ParserResult::IdRequest(t) => SpecCommand::Id { tag: t@ },
            ParserResult::SelectRequest(t, m, rw) => SpecCommand::Select {
                tag: t@,
                mailbox: m@,
                readwrite: *rw,
            },
            ParserResult::ListRequest(t, r, p) => SpecCommand::List {
                tag: t@,
                reference: r@,
                pattern: p@,
            },
            ParserResult::LSUBRequest(t, r, p) => SpecCommand::Lsub {
                tag: t@,
                reference: r@,
                pattern: p@,
            },
            ParserResult::CreateRequest(t, n) => SpecCommand::Create { tag: t@, name: n@ },
            ParserResult::SubscribeRequest(t, n) => SpecCommand::Subscribe { tag: t@, name: n@ },
            ParserResult::StatusRequest(t, m) => SpecCommand::Status { tag: t@, mailbox: m@ },
            ParserResult::Unrecognized(raw) => SpecCommand::Unrecognized { raw: raw@ },
        }
    }
}

/// Decides `is_tag_char` at run time.
fn tag_char(c: char) -> (b: bool)
    ensures
        b == is_tag_char(c),
{
    let u = c as u32;
    (97 <= u && u <= 122) || (65 <= u && u <= 90) || (48 <= u && u <= 57)
}

/// Decides `is_sp_char` at run time.
fn sp_char(c: char) -> (b: bool)
    ensures
        b == is_sp_char(c),
{
    c == ' ' || c == '\t'
}

/// Decides `is_qstring_char` at run time.
fn qstring_char(c: char) -> (b: bool)
    ensures
        b == is_qstring_char(c),
{
    tag_char(c) || c == '*' || c == '.'
}

/// Decides `is_astring_char` at run time.
fn astring_char(c: char) -> (b: bool)
    ensures
        b == is_astring_char(c),
{
    tag_char(c) || c == '@' || c == '_' || c == '-' || c == '.'
}

/// Scans the run of tag characters in `s` starting at `from`.
fn scan_tag(s: &str, from: usize) -> (r: usize)
    requires
        from <= s@.len(),
    ensures
        from <= r <= s@.len(),
        r - from == run_len(s@.skip(from as int), |c: char| is_tag_char(c)),
{
    let n = s.unicode_len();
    let mut i = from;
    while i < n && tag_char(s.get_char(i))
        invariant
            from <= i <= n,
            n == s@.len(),
            forall|j: int| from <= j < i ==> is_tag_char(s@[j]),
        decreases n - i,
    {
        i = i + 1;
    }
    proof {
        let body = s@.skip(from as int);
        assert forall|k: int| 0 <= k < i - from implies (|c: char| is_tag_char(c))(body[k]) by {
            assert(body[k] == s@[from + k]);
        }
        if i - from < body.len() {
            assert(body[i - from] == s@[i as int]);
        }
        lemma_run_len_unique(body, |c: char| is_tag_char(c), i - from);
    }
    i
}

/// Scans the run of separator characters in `s` starting at `from`.
fn scan_sp(s: &str, from: usize) -> (r: usize)
    requires
        from <= s@.len(),
    ensures
        from <= r <= s@.len(),
        r - from == run_len(s@.skip(from as int), |c: char| is_sp_char(c)),
{
    let n = s.unicode_len();
    let mut i = from;
    while i < n && sp_char(s.get_char(i))
        invariant
            from <= i <= n,
            n == s@.len(),
            forall|j: int| from <= j < i ==> is_sp_char(s@[j]),
        decreases n - i,
    {
        i = i + 1;
    }
    proof {
        let body = s@.skip(from as int);
        assert forall|k: int| 0 <= k < i - from implies (|c: char| is_sp_char(c))(body[k]) by {
            assert(body[k] == s@[from + k]);
        }
        if i - from < body.len() {
            assert(body[i - from] == s@[i as int]);
        }
        lemma_run_len_unique(body, |c: char| is_sp_char(c), i - from);
    }
    i
}

/// Scans the run of plain quoted-string characters starting at `from`.
fn scan_q(s: &str, from: usize) -> (r: usize)
    requires
        from <= s@.len(),
    ensures
        from <= r <= s@.len(),
        r - from == run_len(s@.skip(from as int), |c: char| is_qstring_char(c)),
{
    let n = s.unicode_len();
    let mut i = from;
    while i < n && qstring_char(s.get_char(i))
        invariant
            from <= i <= n,
            n == s@.len(),
            forall|j: int| from <= j < i ==> is_qstring_char(s@[j]),
        decreases n - i,
    {
        i = i + 1;
    }
    proof {
        let body = s@.skip(from as int);
        assert forall|k: int| 0 <= k < i - from implies (|c: char| is_qstring_char(c))(body[k]) by {
            assert(body[k] == s@[from + k]);
        }
        if i - from < body.len() {
            assert(body[i - from] == s@[i as int]);
        }
        lemma_run_len_unique(body, |c: char| is_qstring_char(c), i - from);
    }
    i
}

/// Scans the run of login-name quoted-string characters starting at
/// `from`.
fn scan_a(s: &str, from: usize) -> (r: usize)
    requires
        from <= s@.len(),
    ensures
        from <= r <= s@.len(),
        r - from == run_len(s@.skip(from as int), |c: char| is_astring_char(c)),
{
    let n = s.unicode_len();
    let mut i = from;
    while i < n && astring_char(s.get_char(i))
        invariant
            from <= i <= n,
            n == s@.len(),
            forall|j: int| from <= j < i ==> is_astring_char(s@[j]),
        decreases n - i,
    {
        i = i + 1;
    }
    proof {
        let body = s@.skip(from as int);
        assert forall|k: int| 0 <= k < i - from implies (|c: char| is_astring_char(c))(body[k]) by {
            assert(body[k] == s@[from + k]);
        }
        if i - from < body.len() {
            assert(body[i - from] == s@[i as int]);
        }
        lemma_run_len_unique(body, |c: char| is_astring_char(c), i - from);
    }
    i
}

/// Decides `lower_eq` at run time.
fn lower_eq_char(a: char, b: char) -> (r: bool)
    ensures
        r == lower_eq(a, b),
{
    let au = a as u32;
    let bu = b as u32;
    a == b || (65 <= au && au <= 90 && au + 32 == bu)
}

/// Tests whether the text from `from` onward is exactly the keyword,
/// case-insensitively.
fn is_bare(s: &str, from: usize, kw: &str) -> (b: bool)
    requires
        from <= s@.len(),
    ensures
        b == ci_eq(s@.skip(from as int), kw@),
{
    let n = s.unicode_len();
    let klen = kw.unicode_len();
    if n - from != klen {
        return false;
    }
    let mut i: usize = 0;
    while i < klen
        invariant
            0 <= i <= klen,
            klen == kw@.len(),
            n == s@.len(),
            from + klen == n,
            forall|j: int| 0 <= j < i ==> lower_eq(s@[from + j], kw@[j]),
        decreases klen - i,
    {
        let a = s.get_char(from + i);
        let c = kw.get_char(i);
        if !lower_eq_char(a, c) {
            proof {
                assert(s@.skip(from as int)[i as int] == s@[from + i]);
            }
            return false;
        }
        i = i + 1;
    }
    proof {
        let body = s@.skip(from as int);
        assert forall|j: int| 0 <= j < body.len() implies lower_eq(body[j], kw@[j]) by {
            assert(body[j] == s@[from + j]);
        }
    }
    true
}

/// Strips keyword-plus-separators starting at `from`; yields the
/// position after the separators.
fn keyword_sp(s: &str, from: usize, kw: &str) -> (r: Option<usize>)
    requires
        from <= s@.len(),
    ensures
        match r {
            Some(p) => from <= p <= s@.len() && strip_keyword_sp(s@.skip(from as int), kw@)
                == Some(s@.skip(p as int)),
            None => strip_keyword_sp(s@.skip(from as int), kw@) is None,
        },
{
    let n = s.unicode_len();
    let klen = kw.unicode_len();
    let ghost body = s@.skip(from as int);
    if n - from < klen {
        return None;
    }
    let mut i: usize = 0;
    while i < klen
        invariant
            0 <= i <= klen,
            klen == kw@.len(),
            n == s@.len(),
            from + klen <= n,
            forall|j: int| 0 <= j < i ==> lower_eq(s@[from + j], kw@[j]),
        decreases klen - i,
    {
        let a = s.get_char(from + i);
        let c = kw.get_char(i);
        if !lower_eq_char(a, c) {
            proof {
                assert(s@.skip(from as int).take(klen as int)[i as int] == s@.skip(
                    from as int,
                )[i as int]);
                assert(s@.skip(from as int)[i as int] == s@[from + i]);
            }
            return None;
        }
        i = i + 1;
    }
    proof {
        assert forall|j: int| 0 <= j < klen implies lower_eq(body.take(klen as int)[j], kw@[j]) by {
            assert(body.take(klen as int)[j] == s@[from + j]);
        }
        assert(ci_eq(body.take(klen as int), kw@));
        assert(body.skip(klen as int) =~= s@.skip(from + klen));
    }
    let e = scan_sp(s, from + klen);
    if e == from + klen {
        return None;
    }
    proof {
        assert(s@.skip(from + klen).skip(e - (from + klen)) =~= s@.skip(e as int));
    }
    Some(e)
}

/// Reads a quoted string of plain characters starting at `from`;
/// yields the inner text and the position after the closing quote.
fn take_quoted_q(s: &str, from: usize) -> (r: Option<(String, usize)>)
    requires
        from <= s@.len(),
    ensures
        match r {
            Some(pr) => from < pr.1 <= s@.len() && (match spec_quoted(
                s@.skip(from as int),
                |c: char| is_qstring_char(c),
            ) {
                Some(q) => q.0 == pr.0@ && q.1 == s@.skip(pr.1 as int),
                None => false,
            }),
            None => spec_quoted(s@.skip(from as int), |c: char| is_qstring_char(c)) is None,
        },
{
    let n = s.unicode_len();
    let ghost body = s@.skip(from as int);
    if from == n {
        return None;
    }
    if s.get_char(from) != '"' {
        proof {
            assert(body[0] == s@[from as int]);
        }
        return None;
    }
    proof {
        assert(body[0] == s@[from as int]);
        assert(body.skip(1) =~= s@.skip(from + 1));
    }
    let e = scan_q(s, from + 1);
    let ghost rn = run_len(body.skip(1), |c: char| is_qstring_char(c));
    proof {
        assert(rn == e - (from + 1));
    }
    if e < n && s.get_char(e) == '"' {
        let inner = s.substring_char(from + 1, e).to_owned();
        proof {
            assert(body[rn as int + 1] == s@[e as int]);
            assert(body.subrange(1, rn as int + 1) =~= s@.subrange(from + 1, e as int));
            assert(body.skip(rn as int + 2) =~= s@.skip(e + 1));
        }
        Some((inner, e + 1))
    } else {
        proof {
            if rn + 1 < body.len() {
                assert(body[rn as int + 1] == s@[e as int]);
            }
        }
        None
    }
}

/// Reads a quoted string of login-name characters starting at `from`.
fn take_quoted_a(s: &str, from: usize) -> (r: Option<(String, usize)>)
    requires
        from <= s@.len(),
    ensures
        match r {
            Some(pr) => from < pr.1 <= s@.len() && (match spec_quoted(
                s@.skip(from as int),
                |c: char| is_astring_char(c),
            ) {
                Some(q) => q.0 == pr.0@ && q.1 == s@.skip(pr.1 as int),
                None => false,
            }),
            None => spec_quoted(s@.skip(from as int), |c: char| is_astring_char(c)) is None,
        },
{
    let n = s.unicode_len();
    let ghost body = s@.skip(from as int);
    if from == n {
        return None;
    }
    if s.get_char(from) != '"' {
        proof {
            assert(body[0] == s@[from as int]);
        }
        return None;
    }
    proof {
        assert(body[0] == s@[from as int]);
        assert(body.skip(1) =~= s@.skip(from + 1));
    }
    let e = scan_a(s, from + 1);
    let ghost rn = run_len(body.skip(1), |c: char| is_astring_char(c));
    proof {
        assert(rn == e - (from + 1));
    }
    if e < n && s.get_char(e) == '"' {
        let inner = s.substring_char(from + 1, e).to_owned();
        proof {
            assert(body[rn as int + 1] == s@[e as int]);
            assert(body.subrange(1, rn as int + 1) =~= s@.subrange(from + 1, e as int));
            assert(body.skip(rn as int + 2) =~= s@.skip(e + 1));
        }
        Some((inner, e + 1))
    } else {
        proof {
            if rn + 1 < body.len() {
                assert(body[rn as int + 1] == s@[e as int]);
            }
        }
        None
    }
}

/// Parses a body of the form `kw SP quoted` that fills the whole
/// text from `from` onward.
fn try_one_arg(s: &str, from: usize, kw: &str) -> (r: Option<String>)
    requires
        from <= s@.len(),
    ensures
        match r {
            Some(a) => (match spec_one_arg(
                s@.skip(from as int),
                kw@,
                |c: char| is_qstring_char(c),
            ) {
                Some(x) => x == a@,
                None => false,
            }),
            None => spec_one_arg(s@.skip(from as int), kw@, |c: char| is_qstring_char(c)) is None,
        },
{
    let n = s.unicode_len();
    match keyword_sp(s, from, kw) {
        None => None,
        Some(p) => match take_quoted_q(s, p) {
            None => None,
            Some((inner, q)) => {
                if q == n {
                    proof {
                        assert(s@.skip(q as int).len() == 0);
                    }
                    Some(inner)
                } else {
                    None
                }
            },
        },
    }
}

/// Parses a body of the form `kw SP quoted SP quoted` (both plain)
/// that fills the whole text from `from` onward.
fn try_two_qq(s: &str, from: usize, kw: &str) -> (r: Option<(String, String)>)
    requires
        from <= s@.len(),
    ensures
        match r {
            Some(pr) => (match spec_two_args(
                s@.skip(from as int),
                kw@,
                |c: char| is_qstring_char(c),
                |c: char| is_qstring_char(c),
            ) {
                Some(x) => x.0 == pr.0@ && x.1 == pr.1@,
                None => false,
            }),
            None => spec_two_args(
                s@.skip(from as int),
                kw@,
                |c: char| is_qstring_char(c),
                |c: char| is_qstring_char(c),
            ) is None,
        },
{
    let n = s.unicode_len();
    match keyword_sp(s, from, kw) {
        None => None,
        Some(p) => match take_quoted_q(s, p) {
            None => None,
            Some((first, q1)) => {
                let q2 = scan_sp(s, q1);
                if q2 == q1 {
                    return None;
                }
                proof {
                    assert(s@.skip(q1 as int).skip(q2 - q1) =~= s@.skip(q2 as int));
                }
                match take_quoted_q(s, q2) {
                    None => None,
                    Some((second, q3)) => {
                        if q3 == n {
                            proof {
                                assert(s@.skip(q3 as int).len() == 0);
                            }
                            Some((first, second))
                        } else {
                            None
                        }
                    },
                }
            },
        },
    }
}

/// Parses a LOGIN body: the login name allows address characters, the
/// password is a plain quoted string.
fn try_login(s: &str, from: usize) -> (r: Option<(String, String)>)
    requires
        from <= s@.len(),
    ensures
        match r {
            Some(pr) => (match spec_two_args(
                s@.skip(from as int),
                "login"@,
                |c: char| is_astring_char(c),
                |c: char| is_qstring_char(c),
            ) {
                Some(x) => x.0 == pr.0@ && x.1 == pr.1@,
                None => false,
            }),
            None => spec_two_args(
                s@.skip(from as int),
                "login"@,
                |c: char| is_astring_char(c),
                |c: char| is_qstring_char(c),
            ) is None,
        },
{
    let n = s.unicode_len();
    match keyword_sp(s, from, "login") {
        None => None,
        Some(p) => match take_quoted_a(s, p) {
            None => None,
            Some((first, q1)) => {
                let q2 = scan_sp(s, q1);
                if q2 == q1 {
                    return None;
                }
                proof {
                    assert(s@.skip(q1 as int).skip(q2 - q1) =~= s@.skip(q2 as int));
                }
                match take_quoted_q(s, q2) {
                    None => None,
                    Some((second, q3)) => {
                        if q3 == n {
                            proof {
                                assert(s@.skip(q3 as int).len() == 0);
                            }
                            Some((first, second))
                        } else {
                            None
                        }
                    },
                }
            },
        },
    }
}

/// Parses one input line into a command.  Whatever does not fit the
/// grammar comes back as `Unrecognized`, never as a failure.
pub fn commands(input: &str) -> (r: ParserResult)
    ensures
        r@ == spec_command(input@),
{
    let ghost line = input@;
    proof {
        assert(line.skip(0) =~= line);
    }
    let n = input.unicode_len();
    let te = scan_tag(input, 0);
    if te == 0 {
        return ParserResult::Unrecognized(input.to_owned());
    }
    let se = scan_sp(input, te);
    if se == te {
        return ParserResult::Unrecognized(input.to_owned());
    }
    let tag = input.substring_char(0, te).to_owned();
    let ghost tagv = line.take(te as int);
    let ghost body = line.skip(se as int);
    proof {
        assert(line.skip(te as int).skip(se - te) =~= line.skip(se as int));
        assert(spec_tag_split(line) == Some((tagv, body)));
        assert(tagv == tag@) by {
            assert(line.take(te as int) =~= line.subrange(0, te as int));
        }
    }
    if is_bare(input, se, "capability") {
        return ParserResult::CapabilityRequest(tag);
    }
    if is_bare(input, se, "authenticate plain") {
        return ParserResult::AuthPlainContinueRequest(tag);
    }
    if is_bare(input, se, "logout") {
        return ParserResult::LogoutRequest(tag);
    }
    if is_bare(input, se, "noop") {
        return ParserResult::NoopRequest(tag);
    }
    if is_bare(input, se, "close") {
        return ParserResult::CloseRequest(tag);
    }
    if is_bare(input, se, "namespace") {
        return ParserResult::NamespaceRequest(tag);
    }
    if is_bare(input, se, "id") {
        return ParserResult::IdRequest(tag);
    }
    if let Some((user, pass)) = try_login(input, se) {
        return ParserResult::LoginRequest(tag, user, pass);
    }
    if let Some((reference, pattern)) = try_two_qq(input, se, "list") {
        return ParserResult::ListRequest(tag, reference, pattern);
    }
    if let Some((reference, pattern)) = try_two_qq(input, se, "lsub") {
        return ParserResult::LSUBRequest(tag, reference, pattern);
    }
    if let Some(name) = try_one_arg(input, se, "create") {
        return ParserResult::CreateRequest(tag, name);
    }
    if let Some(name) = try_one_arg(input, se, "subscribe") {
        return ParserResult::SubscribeRequest(tag, name);
    }
    if let Some(mailbox) = try_one_arg(input, se, "select") {
        return ParserResult::SelectRequest(tag, mailbox, true);
    }
    if let Some(mailbox) = try_one_arg(input, se, "examine") {
        return ParserResult::SelectRequest(tag, mailbox, false);
    }
    if let Some(mailbox) = try_one_arg(input, se, "status") {
        return ParserResult::StatusRequest(tag, mailbox);
    }
    ParserResult::Unrecognized(input.to_owned())
}

} // verus!
