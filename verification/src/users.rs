//! Users as the system database and the files in their home directories have them.

use vstd::prelude::*;
use vstd::utf8::{decode_utf8, encode_utf8, valid_utf8};

use crate::authentication::{user_view, valid_name, User, UserView, Username};
use crate::authorized_keys::{key_from_line, AuthorizedKey, AuthorizedKeyView};
use crate::crypto::{copied, Provider};
use crate::error::Error;
use crate::named::views;
use crate::text::{lines, lines_of};

verus! {

/// Upper bound on the buffer used to hold an entry of the system database.
pub const MAX_BUF_LEN: usize = 1_048_576;

/// Lower bound on the buffer used to hold an entry of the system database.
pub const MIN_BUF_LEN: usize = 1024;

/// Upper bound on the number of supplementary groups of a user.
pub const MAX_GROUPS: usize = 65_536;

/// The initial length of the buffer for an entry of the system database, given the limit that
/// the system reports, or -1.
pub fn initial_buf_len(limit: i64) -> (r: usize)
    ensures
        r == if limit == -1 {
            MIN_BUF_LEN as int
        } else if limit < 0 || limit > MAX_BUF_LEN {
            // A negative limit stands for one that is too large.
            MAX_BUF_LEN as int
        } else if limit < MIN_BUF_LEN {
            MIN_BUF_LEN as int
        } else {
            limit as int
        },
{
    if limit == -1 {
        MIN_BUF_LEN
    } else if limit < 0 || limit > 1_048_576 {
        MAX_BUF_LEN
    } else if limit < 1024 {
        MIN_BUF_LEN
    } else {
        limit as usize
    }
}

/// The length of the buffer to try next, where an entry did not fit and there is one.
pub fn next_buf_len(len: usize) -> (r: Option<usize>)
    ensures
        r == if len >= MAX_BUF_LEN {
            None
        } else if 2 * len > MAX_BUF_LEN {
            Some(MAX_BUF_LEN)
        } else {
            Some((2 * len) as usize)
        },
{
    if len >= MAX_BUF_LEN {
        None
    } else if 2 * len > MAX_BUF_LEN {
        Some(MAX_BUF_LEN)
    } else {
        Some(2 * len)
    }
}

/// The length of the list of groups to try next, where the groups did not fit, given how many
/// there are.
pub fn next_group_len(count: i32, len: usize) -> (r: Result<usize, Error>)
    requires
        len <= MAX_GROUPS,
    ensures
        ({
            let next = if count > 2 * len {
                count as int
            } else {
                2 * len
            };
            r == if count < 0 || next > MAX_GROUPS {
                Err::<usize, Error>(Error::InvalidState("too many supplementary groups"))
            } else {
                Ok::<usize, Error>(next as usize)
            }
        }),
{
    if count < 0 {
        return Err(Error::InvalidState("too many supplementary groups"));
    }
    let count: usize = count as usize;
    let next: usize = if count > len * 2 {
        count
    } else {
        len * 2
    };
    if next > MAX_GROUPS {
        return Err(Error::InvalidState("too many supplementary groups"));
    }
    Ok(next)
}

/// Whether a file or directory can only be written by its owner, and that is the user or root.
pub open spec fn trustworthy(mode: u32, owner: u32, uid: u32) -> bool {
    mode & 0o022 == 0 && (owner == 0 || owner == uid)
}

/// Check the permissions of a file or directory that decides who can log in as a user.
pub fn check_permissions(mode: u32, owner: u32, uid: u32) -> (r: bool)
    ensures
        r == trustworthy(mode, owner, uid),
{
    mode & 0o022 == 0 && (owner == 0 || owner == uid)
}

/// An entry of the system database.
pub struct PasswdEntry {
    /// The user's name, if there is one.
    pub name: Option<Vec<u8>>,
    /// The user's UID.
    pub uid: u32,
    /// The user's GID.
    pub gid: u32,
    /// The path of the user's home directory, if there is one.
    pub home_dir: Option<Vec<u8>>,
    /// The path of the user's shell, if there is one.
    pub shell: Option<Vec<u8>>,
}

/// How a user is looked up in the system database.
pub enum UserLookup {
    /// By name.
    Name(Username),
    /// By UID.
    Id(u32),
}

/// The name of the user that was looked up, given the entry that was found.
pub open spec fn resolved_name(lookup: UserLookup, entry: PasswdEntry) -> Option<Seq<char>> {
    match lookup {
        UserLookup::Name(name) => Some(name@),
        UserLookup::Id(_) => match entry.name {
            Some(name) => if valid_utf8(name@) && valid_name(decode_utf8(name@)) {
                Some(decode_utf8(name@))
            } else {
                None
            },
            None => Some("nobody"@),
        },
    }
}

/// The user that stands for a UID without an entry, who has no keys and no home.
pub open spec fn unknown() -> UserView {
    UserView {
        name: "nobody"@,
        id: u32::MAX,
        gid: u32::MAX,
        home_dir: encode_utf8("/var/empty"@),
        shell: encode_utf8("/bin/sh"@),
        command: None,
    }
}

/// The user that was looked up. Where there is no entry, there is no user of the name, and someone
/// unknown has the UID.
pub open spec fn resolved(lookup: UserLookup, entry: Option<PasswdEntry>) -> Result<
    Option<UserView>,
    Error,
> {
    match entry {
        None => match lookup {
            UserLookup::Name(_) => Ok(None),
            UserLookup::Id(_) => Ok(Some(unknown())),
        },
        Some(entry) => match resolved_name(lookup, entry) {
            None => Err(Error::InvalidUsername),
            Some(name) => if entry.uid == 0 {
                Err(Error::InvalidState("refusing to authenticate root user"))
            } else {
                Ok(
                    Some(
                        UserView {
                            name,
                            id: entry.uid,
                            gid: entry.gid,
                            home_dir: match entry.home_dir {
                                Some(home_dir) => home_dir@,
                                None => encode_utf8("/var/empty"@),
                            },
                            shell: match entry.shell {
                                Some(shell) if shell@.len() > 0 => shell@,
                                _ => encode_utf8("/bin/sh"@),
                            },
                            command: None,
                        },
                    ),
                )
            },
        },
    }
}

impl UserLookup {
    /// The user that was looked up, given the entry that was found; `None` where there is no user
    /// of the name.
    pub fn resolve(self, entry: Option<PasswdEntry>) -> (r: Result<Option<User>, Error>)
        ensures
            resolved(self, entry) == match r {
                Ok(user) => Ok::<Option<UserView>, Error>(user_view(user)),
                Err(e) => Err::<Option<UserView>, Error>(e),
            },
    {
        let Some(entry) = entry else {
            return match self {
                UserLookup::Name(_) => Ok(None),
                UserLookup::Id(_) => Ok(Some(unknown_user())),
            };
        };
        let name = match self {
            UserLookup::Name(name) => name,
            UserLookup::Id(_) => match &entry.name {
                Some(name) => Username::from_bytes(name.as_slice())?,
                None => Username::nobody(),
            },
        };

        if entry.uid == 0 {
            return Err(Error::InvalidState("refusing to authenticate root user"));
        }
        let PasswdEntry { name: _, uid, gid, home_dir, shell } = entry;
        let home_dir = match home_dir {
            Some(home_dir) => home_dir,
            None => copied("/var/empty".as_bytes()),
        };
        // An empty shell means the system default shell.
        let shell = match shell {
            Some(shell) => if shell.len() > 0 {
                shell
            } else {
                copied("/bin/sh".as_bytes())
            },
            None => copied("/bin/sh".as_bytes()),
        };
        Ok(Some(User { name, id: uid, gid, home_dir, shell, options: None }))
    }
}

/// The user with the given name, given the entry that was found, if any: `None` if the user does
/// not exist or may not log in.
pub fn lookup(name: Username, entry: Option<PasswdEntry>) -> (r: Option<User>)
    ensures
        user_view(r) == match resolved(UserLookup::Name(name), entry) {
            Ok(user) => user,
            Err(_) => None,
        },
        r matches Some(user) ==> user@.name == name@,
{
    match UserLookup::Name(name).resolve(entry) {
        Ok(user) => user,
        Err(_) => None,
    }
}

/// The user that stands for a UID without an entry.
fn unknown_user() -> (r: User)
    ensures
        r@ == unknown(),
{
    User {
        name: Username::nobody(),
        id: u32::MAX,
        gid: u32::MAX,
        home_dir: copied("/var/empty".as_bytes()),
        shell: copied("/bin/sh".as_bytes()),
        options: None,
    }
}

/// Root is never authenticated by way of the system database.
pub proof fn root_is_refused(lookup: UserLookup, entry: Option<PasswdEntry>)
    ensures
        resolved(lookup, entry) matches Ok(Some(user)) ==> user.id != 0,
{
}

/// Environment variables with their values.
pub open spec fn session_env_view(env: Seq<(&'static str, Vec<u8>)>) -> Seq<(Seq<char>, Seq<u8>)> {
    env.map_values(|variable: (&'static str, Vec<u8>)| (variable.0@, variable.1@))
}

/// The environment of the process that runs the session of a user, which inherits nothing else.
pub fn session_env(user: &User) -> (r: Vec<(&'static str, Vec<u8>)>)
    ensures
        session_env_view(r@) == seq![
            ("HOME"@, user@.home_dir),
            ("USER"@, encode_utf8(user@.name)),
            ("LOGNAME"@, encode_utf8(user@.name)),
            ("SHELL"@, user@.shell),
            ("RUST_LOG"@, encode_utf8("trace"@)),
            ("RUST_BACKTRACE"@, encode_utf8("1"@)),
            ("PATH"@, encode_utf8("/usr/bin:/bin:/usr/sbin:/sbin"@)),
        ],
{
    let name = user.name.as_str().as_bytes();
    let env = vec![
        ("HOME", copied(user.home_dir.as_slice())),
        ("USER", copied(name)),
        ("LOGNAME", copied(name)),
        ("SHELL", copied(user.shell.as_slice())),
        ("RUST_LOG", copied("trace".as_bytes())),
        ("RUST_BACKTRACE", copied("1".as_bytes())),
        ("PATH", copied("/usr/bin:/bin:/usr/sbin:/sbin".as_bytes())),
    ];
    assert(session_env_view(env@) =~= seq![
        ("HOME"@, user@.home_dir),
        ("USER"@, encode_utf8(user@.name)),
        ("LOGNAME"@, encode_utf8(user@.name)),
        ("SHELL"@, user@.shell),
        ("RUST_LOG"@, encode_utf8("trace"@)),
        ("RUST_BACKTRACE"@, encode_utf8("1"@)),
        ("PATH"@, encode_utf8("/usr/bin:/bin:/usr/sbin:/sbin"@)),
    ]);
    env
}

/// The keys in the lines before `n` of an `authorized_keys` file, in order. Lines that hold no
/// usable key are passed over.
pub open spec fn keys_in(lines: Seq<Seq<char>>, n: int, provider: Provider<'_>) -> Seq<
    AuthorizedKeyView,
>
    decreases n,
{
    if n <= 0 {
        Seq::empty()
    } else {
        match key_from_line(lines[n - 1], provider) {
            Some(key) => keys_in(lines, n - 1, provider).push(key),
            None => keys_in(lines, n - 1, provider),
        }
    }
}

/// The keys in an `authorized_keys` file.
pub fn authorized_keys(contents: &str, provider: Provider<'_>) -> (r: Vec<AuthorizedKey>)
    ensures
        views(r@) == keys_in(
            lines_of(contents@, 0, 0),
            lines_of(contents@, 0, 0).len() as int,
            provider,
        ),
{
    let lines = lines(contents);
    let ghost all = lines_of(contents@, 0, 0);
    let mut keys: Vec<AuthorizedKey> = Vec::new();
    let mut i: usize = 0;
    assert(views(keys@) =~= keys_in(all, 0, provider));
    while i < lines.len()
        invariant
            lines@.map_values(|line: &str| line@) == all,
            all == lines_of(contents@, 0, 0),
            i <= lines@.len(),
            views(keys@) == keys_in(all, i as int, provider),
        decreases lines@.len() - i,
    {
        assert(all[i as int] == lines@[i as int]@);
        if let Some(key) = AuthorizedKey::from_str(lines[i], provider) {
            let ghost before = keys@;
            keys.push(key);
            assert(views(keys@) =~= views(before).push(key@));
        }
        i += 1;
    }
    keys
}

} // verus!
