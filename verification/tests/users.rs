use oxish::authentication::Username;
use oxish::authorized_keys::{AuthorizedKeyOptions, KeyLine};
use oxish::host_keys::is_host_key_file;
use oxish::error::Error;
use oxish::named::PublicKeyAlgorithm;
use oxish::users::{
    check_permissions, initial_buf_len, lookup, next_buf_len, next_group_len, session_env,
    PasswdEntry, UserLookup,
};

#[test]
fn user_names() {
    assert_eq!(
        Username::try_from("someone".to_owned()).unwrap().as_str(),
        "someone"
    );
    for name in ["a/b", "a\nb", "a\0", "\u{85}"] {
        assert!(matches!(
            Username::try_from(name.to_owned()),
            Err(Error::InvalidUsername)
        ));
    }
    assert!(matches!(
        Username::from_bytes(b"\xff"),
        Err(Error::InvalidUsername)
    ));
    assert_eq!(Username::from_bytes("\u{e9}".as_bytes()).unwrap().as_str(), "\u{e9}");
    assert_eq!(Username::nobody().as_str(), "nobody");
}

#[test]
fn buffers_grow() {
    assert_eq!(initial_buf_len(-1), 1024);
    assert_eq!(initial_buf_len(0), 1024);
    assert_eq!(initial_buf_len(4096), 4096);
    assert_eq!(initial_buf_len(1 << 40), 1_048_576);
    assert_eq!(initial_buf_len(-2), 1_048_576);
    assert_eq!(next_buf_len(1024), Some(2048));
    assert_eq!(next_buf_len(600_000), Some(1_048_576));
    assert_eq!(next_buf_len(1_048_576), None);
    assert!(matches!(next_group_len(40, 32), Ok(64)));
    assert!(matches!(next_group_len(100, 32), Ok(100)));
    assert!(matches!(next_group_len(1, 32_768), Ok(65_536)));
    assert!(matches!(
        next_group_len(65_537, 32),
        Err(Error::InvalidState("too many supplementary groups"))
    ));
    assert!(matches!(
        next_group_len(1, 32_769),
        Err(Error::InvalidState("too many supplementary groups"))
    ));
    assert!(next_group_len(-1, 32).is_err());
}

#[test]
fn permissions_of_key_files() {
    assert!(check_permissions(0o100600, 1000, 1000));
    assert!(check_permissions(0o40755, 0, 1000));
    assert!(!check_permissions(0o100620, 1000, 1000));
    assert!(!check_permissions(0o100602, 1000, 1000));
    assert!(!check_permissions(0o100600, 1001, 1000));
}

fn entry(uid: u32) -> PasswdEntry {
    PasswdEntry {
        name: Some(b"someone".to_vec()),
        uid,
        gid: 7,
        home_dir: None,
        shell: None,
    }
}

#[test]
fn users_are_resolved() {
    let name = Username::try_from("alias".to_owned()).unwrap();
    let user = UserLookup::Name(name.clone())
        .resolve(Some(entry(5)))
        .unwrap()
        .unwrap();
    assert_eq!(user.name.as_str(), "alias");
    assert_eq!((user.id, user.gid), (5, 7));
    assert_eq!(user.home_dir, b"/var/empty");
    assert_eq!(user.shell, b"/bin/sh");
    assert!(user.options.is_none());
    let user = UserLookup::Id(5).resolve(Some(entry(5))).unwrap().unwrap();
    assert_eq!(user.name.as_str(), "someone");
    let nameless = PasswdEntry {
        name: None,
        ..entry(5)
    };
    let user = UserLookup::Id(5).resolve(Some(nameless)).unwrap().unwrap();
    assert_eq!(user.name.as_str(), "nobody");
    assert!(UserLookup::Name(name).resolve(None).unwrap().is_none());
    let user = UserLookup::Id(5).resolve(None).unwrap().unwrap();
    assert_eq!(user.name.as_str(), "nobody");
    assert_eq!((user.id, user.gid), (u32::MAX, u32::MAX));
    assert_eq!(user.home_dir, b"/var/empty");
    assert_eq!(user.shell, b"/bin/sh");
    assert!(matches!(
        UserLookup::Id(0).resolve(Some(entry(0))),
        Err(Error::InvalidState("refusing to authenticate root user"))
    ));
    let slash = PasswdEntry {
        name: Some(b"a/b".to_vec()),
        ..entry(5)
    };
    assert!(matches!(
        UserLookup::Id(5).resolve(Some(slash)),
        Err(Error::InvalidUsername)
    ));
}

#[test]
fn users_are_looked_up() {
    let name = || Username::try_from("someone".to_owned()).unwrap();
    assert_eq!(lookup(name(), Some(entry(5))).unwrap().id, 5);
    assert_eq!(lookup(name(), Some(entry(5))).unwrap().name.as_str(), "someone");
    assert!(lookup(name(), None).is_none());
    assert!(lookup(name(), Some(entry(0))).is_none());
}

#[test]
fn environment_of_sessions() {
    let name = Username::try_from("someone".to_owned()).unwrap();
    let user = lookup(name, Some(entry(5))).unwrap();
    let env = session_env(&user);
    let expected: [(&str, &[u8]); 7] = [
        ("HOME", b"/var/empty"),
        ("USER", b"someone"),
        ("LOGNAME", b"someone"),
        ("SHELL", b"/bin/sh"),
        ("RUST_LOG", b"trace"),
        ("RUST_BACKTRACE", b"1"),
        ("PATH", b"/usr/bin:/bin:/usr/sbin:/sbin"),
    ];
    assert_eq!(env.len(), expected.len());
    for ((name, value), (expected_name, expected_value)) in env.iter().zip(expected) {
        assert_eq!(*name, expected_name);
        assert_eq!(value, expected_value);
    }
}

#[test]
fn key_lines_are_split() {
    let line = "ssh-ed25519 AAAA comment";
    let split = KeyLine::split(line).unwrap();
    assert_eq!(split.algorithm, PublicKeyAlgorithm::Ed25519);
    assert_eq!(split.key_data, "AAAA");
    assert!(split.options.is_none());

    let line = "command=\"echo hi\" ssh-ed25519 AAAA";
    let split = KeyLine::split(line).unwrap();
    assert_eq!(split.algorithm, PublicKeyAlgorithm::Ed25519);
    assert_eq!(split.options, Some("command=\"echo hi\""));

    let split = KeyLine::split("command=\"caf\u{e9} \\\" x\" ssh-ed25519 AAAA").unwrap();
    assert_eq!(split.options, Some("command=\"caf\u{e9} \\\" x\""));
    assert_eq!(split.key_data, "AAAA");
    let split = KeyLine::split("a\\\"b ssh-ed25519 AAAA").unwrap();
    assert_eq!(split.options, Some("a\\\"b"));
    assert!(KeyLine::split("command=\"ls ssh-ed25519 AAAA").is_none());

    // Only a line that starts with `#` is a comment
    let split = KeyLine::split("command=\"#\" ssh-ed25519 x").unwrap();
    assert_eq!(split.options, Some("command=\"#\""));
    assert_eq!(split.key_data, "x");
    let split = KeyLine::split(" ssh-ed25519 AAAA # comment").unwrap();
    assert_eq!(split.key_data, "AAAA");
    assert!(KeyLine::split("\t# ssh-ed25519 AAAA").is_none());
    assert!(KeyLine::split("#ssh-ed25519 AAAA").is_none());
}

#[test]
fn key_options_are_read() {
    let read = |mut text: &'static str| {
        AuthorizedKeyOptions::from_str(&mut text).and_then(|options| options.command)
    };
    assert_eq!(read("command=\"ls -l\"").as_deref(), Some("ls -l"));
    assert_eq!(read("no-pty"), None);
    assert_eq!(read("command"), None);
    // An escaped quote stands for a quote, and another backslash for itself
    assert_eq!(
        read(r#"command="echo \"hi\" \n""#).as_deref(),
        Some(r#"echo "hi" \n"#)
    );
    assert_eq!(read(r#"command="a\\""#).as_deref(), Some(r"a\\"));
    // A command may hold any text
    assert_eq!(
        read(r#"command="x,command=y",no-pty"#).as_deref(),
        Some("x,command=y")
    );
    assert_eq!(read("command=\"caf\u{e9}\"").as_deref(), Some("caf\u{e9}"));
    // Others are passed over, with what they quote
    assert_eq!(
        read(r#"no-pty,environment="A=\",command=b",command="ls""#).as_deref(),
        Some("ls")
    );
    assert_eq!(read(r#"no-command="x""#), None);
    // A second one, or one without quotes, is refused
    assert_eq!(read(r#"command="a",command="b""#), None);
    assert_eq!(read("command=ls"), None);
    assert_eq!(read(r#"command="ls"#), None);
    let mut text = "no-pty,command=ls,x";
    assert!(AuthorizedKeyOptions::from_str(&mut text).is_none());
    assert_eq!(text, "ls,x");
}

#[test]
fn host_key_files() {
    assert!(is_host_key_file("ssh_host_ed25519_key"));
    assert!(is_host_key_file("ssh_host_key"));
    assert!(!is_host_key_file("ssh_host_ed25519_key.pub"));
    assert!(!is_host_key_file("ssh_known_host_key"));
    assert!(!is_host_key_file("ssh_host_"));
}
