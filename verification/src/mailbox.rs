//! A user's mailbox identity: login name, storage root and stored
//! password-verification string, together with the pure parts of the
//! folder commands (LIST/LSUB line formatting, CREATE path
//! translation).  The folder store itself is an external collaborator:
//! directory reads and creations happen outside and their results are
//! handed in as plain values.

use vstd::prelude::*;
use vstd::string::StringSliceAdditionalSpecFns;

use crate::database::{Database, DbError};
use crate::helper::join_path;
use crate::passwords;

verus! {

/// The mathematical value of a mailbox identity.
#[verifier::ext_equal]
pub struct SpecMailbox {
    pub user: Seq<char>,
    pub mailbox_root: Seq<char>,
    pub password_hash: Seq<u8>,
}

/// One user's mailbox handle.
pub struct Mailbox {
    pub user: String,
    pub mailbox_root: String,
    password_hash: Vec<u8>,
}

impl View for Mailbox {
    type V = SpecMailbox;

    closed spec fn view(&self) -> SpecMailbox {
        SpecMailbox {
            user: self.user@,
            mailbox_root: self.mailbox_root@,
            password_hash: self.password_hash@,
        }
    }
}

/// Whether a folder name passes a LIST/LSUB pattern: the lone star
/// matches everything, anything else only itself.
pub open spec fn matches_pattern(f: Seq<char>, pat: Seq<char>) -> bool {
    pat == "*"@ || f == pat
}

/// The untagged LIST response line for one folder.
pub open spec fn list_line(f: Seq<char>) -> Seq<char> {
    if f == "INBOX"@ {
        "* LIST (\\Marked \\HasNoChildren \\Subscribed) \".\" \"INBOX\""@
    } else if f == "Trash"@ {
        "* LIST (\\Subscribed \\Noinferiors) \".\" \"Trash\""@
    } else {
        "* LIST (\\Subscribed) \".\" "@ + f
    }
}

/// The untagged LSUB response line for one folder.
pub open spec fn lsub_line(f: Seq<char>) -> Seq<char> {
    if f == "INBOX"@ {
        "* LSUB (\\HasNoChildren) \".\" \"INBOX\""@
    } else if f == "Trash"@ {
        "* LSUB (\\Subscribed \\Noinferiors) \".\" \"Trash\""@
    } else {
        "* LSUB (\\Subscribed) \".\" "@ + f
    }
}

/// The LIST lines for the folders that pass the pattern, in order.
pub open spec fn list_lines(fs: Seq<Seq<char>>, pat: Seq<char>) -> Seq<Seq<char>>
    decreases fs.len(),
{
    if fs.len() == 0 {
        Seq::empty()
    } else {
        list_lines(fs.drop_last(), pat) + (if matches_pattern(fs.last(), pat) {
            seq![list_line(fs.last())]
        } else {
            Seq::empty()
        })
    }
}

/// The LSUB lines for the folders that pass the pattern, in order.
pub open spec fn lsub_lines(fs: Seq<Seq<char>>, pat: Seq<char>) -> Seq<Seq<char>>
    decreases fs.len(),
{
    if fs.len() == 0 {
        Seq::empty()
    } else {
        lsub_lines(fs.drop_last(), pat) + (if matches_pattern(fs.last(), pat) {
            seq![lsub_line(fs.last())]
        } else {
            Seq::empty()
        })
    }
}

/// A folder name with every hierarchy dot replaced by a path slash.
pub open spec fn dot_to_slash(s: Seq<char>) -> Seq<char> {
    s.map_values(
        |c: char|
            if c == '.' {
                '/'
            } else {
                c
            },
    )
}

/// Decides `matches_pattern` at run time.
fn pattern_match(f: &String, pat: &str) -> (b: bool)
    ensures
        b == matches_pattern(f@, pat@),
{
    let star = String::from_str("*");
    let patt = pat.to_owned();
    if patt == star {
        return true;
    }
    *f == patt
}

/// Translates a mailbox name to a relative path: dots become slashes.
pub fn translate_folder(name: &str) -> (r: String)
    ensures
        r@ == dot_to_slash(name@),
{
    let n = name.unicode_len();
    let mut out = String::new();
    let mut i: usize = 0;
    while i < n
        invariant
            0 <= i <= n,
            n == name@.len(),
            out@ == dot_to_slash(name@).take(i as int),
        decreases n - i,
    {
        let c = name.get_char(i);
        if c == '.' {
            out.append("/");
            proof {
                reveal_strlit("/");
                assert(out@ =~= dot_to_slash(name@).take(i + 1));
            }
        } else {
            let piece = name.substring_char(i, i + 1);
            out.append(piece);
            proof {
                assert(piece@ =~= seq![name@[i as int]]);
                assert(out@ =~= dot_to_slash(name@).take(i + 1));
            }
        }
        i = i + 1;
    }
    proof {
        assert(dot_to_slash(name@).take(n as int) =~= dot_to_slash(name@));
    }
    out
}

impl Mailbox {
    /// The stored mailbox identity is well formed: its verification
    /// string has the fixed 128-byte format.
    pub open spec fn wf(&self) -> bool {
        self@.password_hash.len() == 128
    }

    /// Registers a user if unknown (hashing the password and storing
    /// the record), or takes up the existing record; either way the
    /// handle's root is `root_base/user`.
    pub fn new(db: &Database, root_base: &str, user: &str, password: &str) -> (r: Option<Mailbox>)
        ensures
            match r {
                Some(m) => m.wf() && m@.user == user@ && m@.mailbox_root == root_base@ + "/"@
                    + user@,
                None => true,
            },
    {
        match db.get_user_hash(user) {
            Ok(h) => Some(
                Mailbox {
                    user: user.to_owned(),
                    mailbox_root: join_path(root_base, user),
                    password_hash: h,
                },
            ),
            Err(DbError::UnknownUser) => {
                match passwords::hash(password) {
                    None => None,
                    Some(hs) => {
                        match db.add_user(user, hs.as_str()) {
                            Ok(()) => {
                                let hash_bytes = hs.as_str().as_bytes_vec();
                                proof {
                                    vstd::utf8::is_ascii_chars_encode_utf8(hs@);
                                    assert(hash_bytes@.len() == 128);
                                }
                                Some(
                                    Mailbox {
                                        user: user.to_owned(),
                                        mailbox_root: join_path(root_base, user),
                                        password_hash: hash_bytes,
                                    },
                                )
                            },
                            Err(_) => None,
                        }
                    },
                }
            },
            Err(DbError::Backend) => None,
        }
    }

    /// Takes up the stored record for `user`; nothing for an unknown
    /// user or a failing store.
    pub fn load(db: &Database, root_base: &str, user: &str) -> (r: Option<Mailbox>)
        ensures
            match r {
                Some(m) => m.wf() && m@.user == user@ && m@.mailbox_root == root_base@ + "/"@
                    + user@,
                None => true,
            },
    {
        match db.get_user_hash(user) {
            Ok(h) => Some(
                Mailbox {
                    user: user.to_owned(),
                    mailbox_root: join_path(root_base, user),
                    password_hash: h,
                },
            ),
            Err(_) => None,
        }
    }

    /// Loads a handle for every stored user whose login name is valid
    /// text; nothing if the store cannot be walked.
    pub fn load_all(db: &Database, root_base: &str) -> (r: Option<Vec<Mailbox>>)
        ensures
            match r {
                Some(ms) => forall|i: int| 0 <= i < ms@.len() ==> (#[trigger] ms@[i]).wf(),
                None => true,
            },
    {
        match db.entries() {
            Err(_) => None,
            Ok(entries) => {
                let mut out: Vec<Mailbox> = Vec::new();
                let mut i: usize = 0;
                while i < entries.len()
                    invariant
                        forall|j: int| 0 <= j < out@.len() ==> (#[trigger] out@[j]).wf(),
                    decreases entries.len() - i,
                {
                    let (k, v) = (&entries[i].0, &entries[i].1);
                    if let Some(user) = crate::helper::utf8_to_string(k) {
                        let hash = crate::database::pad_hash(v);
                        out.push(
                            Mailbox {
                                mailbox_root: join_path(root_base, user.as_str()),
                                user,
                                password_hash: hash,
                            },
                        );
                    }
                    i = i + 1;
                }
                Some(out)
            },
        }
    }

    /// Checks a candidate password against the stored verification
    /// string; `Ok` exactly when the verifier accepts it.
    pub fn check_password_plain(&self, password: &str) -> (r: Result<(), ()>)
        requires
            self.wf(),
        ensures
            r is Ok <==> passwords::verify_ok(self@.password_hash, password.spec_bytes()),
    {
        if passwords::verify(self.password_hash.as_slice(), password) {
            Ok(())
        } else {
            Err(())
        }
    }

    /// Formats the LIST response lines for the given folder names
    /// under the given pattern; nothing when no folder passes.
    pub fn get_list(&self, pattern: &str, folders: &Vec<String>) -> (r: Option<Vec<String>>)
        ensures
            ({
                let lines = list_lines(folders@.map_values(|s: String| s@), pattern@);
                match r {
                    Some(v) => v@.map_values(|s: String| s@) == lines && lines.len() > 0,
                    None => lines.len() == 0,
                }
            }),
    {
        format_list(pattern, folders)
    }

    /// Formats the LSUB response lines for the given folder names
    /// under the given pattern; nothing when no folder passes.
    pub fn get_lsub(&self, pattern: &str, folders: &Vec<String>) -> (r: Option<Vec<String>>)
        ensures
            ({
                let lines = lsub_lines(folders@.map_values(|s: String| s@), pattern@);
                match r {
                    Some(v) => v@.map_values(|s: String| s@) == lines && lines.len() > 0,
                    None => lines.len() == 0,
                }
            }),
    {
        format_lsub(pattern, folders)
    }

    /// The user's storage root.
    pub fn root(&self) -> (r: &String)
        ensures
            r@ == self@.mailbox_root,
    {
        &self.mailbox_root
    }

    /// The on-disk path a CREATE for `name` must touch: the user's
    /// root joined with the dot-translated folder name.
    pub fn create_folder_path(&self, name: &str) -> (r: String)
        ensures
            r@ == self@.mailbox_root + "/"@ + dot_to_slash(name@),
    {
        let rel = translate_folder(name);
        join_path(self.mailbox_root.as_str(), rel.as_str())
    }
}

/// Formats the LIST response lines for folder names under a pattern;
/// nothing when no folder passes.
pub fn format_list(pattern: &str, folders: &Vec<String>) -> (r: Option<Vec<String>>)
    ensures
        ({
            let lines = list_lines(folders@.map_values(|s: String| s@), pattern@);
            match r {
                Some(v) => v@.map_values(|s: String| s@) == lines && lines.len() > 0,
                None => lines.len() == 0,
            }
        }),
{
    let ghost fs = folders@.map_values(|s: String| s@);
    let mut out: Vec<String> = Vec::new();
    let mut i: usize = 0;
    while i < folders.len()
        invariant
            0 <= i <= folders@.len(),
            fs == folders@.map_values(|s: String| s@),
            out@.map_values(|s: String| s@) == list_lines(fs.take(i as int), pattern@),
        decreases folders.len() - i,
    {
        let f = &folders[i];
        if pattern_match(f, pattern) {
            let line = format_list_line(f);
            out.push(line);
        }
        proof {
            assert(fs.take(i + 1).drop_last() =~= fs.take(i as int));
            assert(fs.take(i + 1).last() == fs[i as int]);
            assert(out@.map_values(|s: String| s@) =~= list_lines(fs.take(i + 1), pattern@));
        }
        i = i + 1;
    }
    proof {
        assert(fs.take(fs.len() as int) =~= fs);
    }
    if out.len() > 0 {
        Some(out)
    } else {
        None
    }
}

/// Formats the LSUB response lines for folder names under a pattern;
/// nothing when no folder passes.
pub fn format_lsub(pattern: &str, folders: &Vec<String>) -> (r: Option<Vec<String>>)
    ensures
        ({
            let lines = lsub_lines(folders@.map_values(|s: String| s@), pattern@);
            match r {
                Some(v) => v@.map_values(|s: String| s@) == lines && lines.len() > 0,
                None => lines.len() == 0,
            }
        }),
{
    let ghost fs = folders@.map_values(|s: String| s@);
    let mut out: Vec<String> = Vec::new();
    let mut i: usize = 0;
    while i < folders.len()
        invariant
            0 <= i <= folders@.len(),
            fs == folders@.map_values(|s: String| s@),
            out@.map_values(|s: String| s@) == lsub_lines(fs.take(i as int), pattern@),
        decreases folders.len() - i,
    {
        let f = &folders[i];
        if pattern_match(f, pattern) {
            let line = format_lsub_line(f);
            out.push(line);
        }
        proof {
            assert(fs.take(i + 1).drop_last() =~= fs.take(i as int));
            assert(fs.take(i + 1).last() == fs[i as int]);
            assert(out@.map_values(|s: String| s@) =~= lsub_lines(fs.take(i + 1), pattern@));
        }
        i = i + 1;
    }
    proof {
        assert(fs.take(fs.len() as int) =~= fs);
    }
    if out.len() > 0 {
        Some(out)
    } else {
        None
    }
}

/// Builds the LIST line for one folder.
fn format_list_line(f: &String) -> (r: String)
    ensures
        r@ == list_line(f@),
{
    let inbox = String::from_str("INBOX");
    let trash = String::from_str("Trash");
    if *f == inbox {
        String::from_str("* LIST (\\Marked \\HasNoChildren \\Subscribed) \".\" \"INBOX\"")
    } else if *f == trash {
        String::from_str("* LIST (\\Subscribed \\Noinferiors) \".\" \"Trash\"")
    } else {
        let lead = String::from_str("* LIST (\\Subscribed) \".\" ");
        lead.concat(f.as_str())
    }
}

/// Builds the LSUB line for one folder.
fn format_lsub_line(f: &String) -> (r: String)
    ensures
        r@ == lsub_line(f@),
{
    let inbox = String::from_str("INBOX");
    let trash = String::from_str("Trash");
    if *f == inbox {
        String::from_str("* LSUB (\\HasNoChildren) \".\" \"INBOX\"")
    } else if *f == trash {
        String::from_str("* LSUB (\\Subscribed \\Noinferiors) \".\" \"Trash\"")
    } else {
        let lead = String::from_str("* LSUB (\\Subscribed) \".\" ");
        lead.concat(f.as_str())
    }
}

} // verus!
