use imap_server::parser::{commands, ParserResult};

fn s(x: &str) -> String {
    x.to_string()
}

#[test]
fn parses_capability() {
    assert_eq!(commands("a1 CAPABILITY"), ParserResult::CapabilityRequest(s("a1")));
}

#[test]
fn parses_capability_lowercase() {
    assert_eq!(commands("a2 capability"), ParserResult::CapabilityRequest(s("a2")));
}

#[test]
fn parses_authenticate_plain() {
    assert_eq!(commands("a1 AUTHENTICATE PLAIN"), ParserResult::AuthPlainContinueRequest(s("a1")));
}

#[test]
fn parses_login() {
    assert_eq!(
        commands("a1 LOGIN \"user\" \"pass\""),
        ParserResult::LoginRequest(s("a1"), s("user"), s("pass"))
    );
}

#[test]
fn parses_login_email_name() {
    assert_eq!(
        commands("tag9 login \"test@localhost\" \"p4ss\""),
        ParserResult::LoginRequest(s("tag9"), s("test@localhost"), s("p4ss"))
    );
}

#[test]
fn parses_login_mixed_case_verb() {
    assert_eq!(
        commands("A3 LoGiN \"bob\" \"pw\""),
        ParserResult::LoginRequest(s("A3"), s("bob"), s("pw"))
    );
}

#[test]
fn parses_select() {
    assert_eq!(
        commands("a1 SELECT \"INBOX\""),
        ParserResult::SelectRequest(s("a1"), s("INBOX"), true)
    );
}

#[test]
fn parses_examine_as_read_only_select() {
    assert_eq!(
        commands("a1 EXAMINE \"INBOX\""),
        ParserResult::SelectRequest(s("a1"), s("INBOX"), false)
    );
}

#[test]
fn parses_list() {
    assert_eq!(
        commands("a1 LIST \"\" \"*\""),
        ParserResult::ListRequest(s("a1"), s(""), s("*"))
    );
}

#[test]
fn parses_lsub() {
    assert_eq!(
        commands("a1 LSUB \"\" \"*\""),
        ParserResult::LSUBRequest(s("a1"), s(""), s("*"))
    );
}

#[test]
fn parses_create() {
    assert_eq!(commands("a1 CREATE \"Folder\""), ParserResult::CreateRequest(s("a1"), s("Folder")));
}

#[test]
fn parses_create_with_dots() {
    assert_eq!(commands("a1 CREATE \"A.B\""), ParserResult::CreateRequest(s("a1"), s("A.B")));
}

#[test]
fn parses_subscribe() {
    assert_eq!(
        commands("a1 SUBSCRIBE \"Trash\""),
        ParserResult::SubscribeRequest(s("a1"), s("Trash"))
    );
}

#[test]
fn parses_status() {
    assert_eq!(commands("a1 STATUS \"INBOX\""), ParserResult::StatusRequest(s("a1"), s("INBOX")));
}

#[test]
fn parses_namespace() {
    assert_eq!(commands("a1 NAMESPACE"), ParserResult::NamespaceRequest(s("a1")));
}

#[test]
fn parses_id() {
    assert_eq!(commands("a1 ID"), ParserResult::IdRequest(s("a1")));
}

#[test]
fn parses_noop() {
    assert_eq!(commands("a1 NOOP"), ParserResult::NoopRequest(s("a1")));
}

#[test]
fn parses_close() {
    assert_eq!(commands("a1 CLOSE"), ParserResult::CloseRequest(s("a1")));
}

#[test]
fn parses_logout() {
    assert_eq!(commands("a1 LOGOUT"), ParserResult::LogoutRequest(s("a1")));
}

#[test]
fn empty_line_is_unrecognized() {
    assert_eq!(commands(""), ParserResult::Unrecognized(s("")));
}

#[test]
fn missing_tag_is_unrecognized() {
    assert_eq!(commands("CAPABILITY"), ParserResult::Unrecognized(s("CAPABILITY")));
}

#[test]
fn bare_tag_is_unrecognized() {
    assert_eq!(commands("a1"), ParserResult::Unrecognized(s("a1")));
}

#[test]
fn unknown_verb_is_unrecognized() {
    assert_eq!(commands("a1 FROB"), ParserResult::Unrecognized(s("a1 FROB")));
}

#[test]
fn login_missing_password_is_unrecognized() {
    assert_eq!(
        commands("a1 LOGIN \"user\""),
        ParserResult::Unrecognized(s("a1 LOGIN \"user\""))
    );
}

#[test]
fn login_unquoted_args_is_unrecognized() {
    assert_eq!(commands("a1 LOGIN user pass"), ParserResult::Unrecognized(s("a1 LOGIN user pass")));
}

#[test]
fn trailing_junk_is_unrecognized() {
    assert_eq!(commands("a1 LOGOUT now"), ParserResult::Unrecognized(s("a1 LOGOUT now")));
}

#[test]
fn non_alphanumeric_tag_is_unrecognized() {
    assert_eq!(commands("a! CAPABILITY"), ParserResult::Unrecognized(s("a! CAPABILITY")));
}

#[test]
fn unterminated_quote_is_unrecognized() {
    assert_eq!(commands("a1 CREATE \"Folder"), ParserResult::Unrecognized(s("a1 CREATE \"Folder")));
}
