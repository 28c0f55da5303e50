use imap_server::authenticate::sasl_parts;
use imap_server::database::pad_hash;
use imap_server::mailbox::{format_list, format_lsub, translate_folder};

#[test]
fn translates_dots_to_slashes() {
    assert_eq!(translate_folder("A.B"), "A/B".to_string());
}

#[test]
fn translates_nested_dots() {
    assert_eq!(translate_folder("A.B.C"), "A/B/C".to_string());
}

#[test]
fn translation_leaves_plain_names_alone() {
    assert_eq!(translate_folder("INBOX"), "INBOX".to_string());
}

#[test]
fn list_formats_known_folders() {
    let folders = vec!["INBOX".to_string(), "Trash".to_string(), "Work".to_string()];
    let lines = format_list("*", &folders).expect("folders expected");
    assert_eq!(
        lines,
        vec![
            "* LIST (\\Marked \\HasNoChildren \\Subscribed) \".\" \"INBOX\"".to_string(),
            "* LIST (\\Subscribed \\Noinferiors) \".\" \"Trash\"".to_string(),
            "* LIST (\\Subscribed) \".\" Work".to_string(),
        ]
    );
}

#[test]
fn list_filters_by_exact_pattern() {
    let folders = vec!["INBOX".to_string(), "Work".to_string()];
    let lines = format_list("Work", &folders).expect("one folder expected");
    assert_eq!(lines, vec!["* LIST (\\Subscribed) \".\" Work".to_string()]);
}

#[test]
fn list_of_no_matching_folder_is_none() {
    let folders = vec!["Work".to_string()];
    assert!(format_list("Play", &folders).is_none());
    assert!(format_list("*", &Vec::new()).is_none());
}

#[test]
fn lsub_formats_known_folders() {
    let folders = vec!["INBOX".to_string(), "Trash".to_string(), "Work".to_string()];
    let lines = format_lsub("*", &folders).expect("folders expected");
    assert_eq!(
        lines,
        vec![
            "* LSUB (\\HasNoChildren) \".\" \"INBOX\"".to_string(),
            "* LSUB (\\Subscribed \\Noinferiors) \".\" \"Trash\"".to_string(),
            "* LSUB (\\Subscribed) \".\" Work".to_string(),
        ]
    );
}

#[test]
fn pad_hash_widens_and_zero_fills() {
    let v = vec![7u8, 8u8];
    let p = pad_hash(&v);
    assert_eq!(p.len(), 128);
    assert_eq!(p[0], 7);
    assert_eq!(p[1], 8);
    assert_eq!(p[2], 0);
    assert_eq!(p[127], 0);
}

#[test]
fn pad_hash_truncates_overlong_input() {
    let v = vec![1u8; 200];
    let p = pad_hash(&v);
    assert_eq!(p.len(), 128);
    assert!(p.iter().all(|b| *b == 1));
}

#[test]
fn sasl_splits_three_parts() {
    let data = b"\0alice\0secret".to_vec();
    let (user, pass) = sasl_parts(&data).expect("well-formed data");
    assert_eq!(user, b"alice".to_vec());
    assert_eq!(pass, b"secret".to_vec());
}

#[test]
fn sasl_accepts_nonempty_authzid() {
    let data = b"admin\0alice\0secret".to_vec();
    let (user, pass) = sasl_parts(&data).expect("well-formed data");
    assert_eq!(user, b"alice".to_vec());
    assert_eq!(pass, b"secret".to_vec());
}

#[test]
fn sasl_rejects_wrong_part_counts() {
    assert!(sasl_parts(&b"no nuls at all".to_vec()).is_none());
    assert!(sasl_parts(&b"only\0one".to_vec()).is_none());
    assert!(sasl_parts(&b"a\0b\0c\0d".to_vec()).is_none());
}
