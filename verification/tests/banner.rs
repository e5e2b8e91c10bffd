use std::borrow::Cow;
use std::collections::BTreeMap;

use oxish::channels::{ChannelRequest, ChannelRequestType, PtyReq};
use oxish::session::banner::{banner, MAX_BANNER_LEN};

#[test]
fn banner_at_80_columns() {
    let banner = banner(&pty_request(80), b"SSH-2.0-OpenSSH_10.0", false).unwrap();
    assert_eq!(
        banner,
        "WARNING: the client negotiated a key exchange algorithm that is not \r\n\
         WARNING: post-quantum secure; your session may be decrypted by a \r\n\
         WARNING: cryptographically relevant quantum computer in the future \r\n"
    );
    assert!(banner.lines().all(|line| line.len() <= 80));
}

#[test]
fn banner_at_80_columns_with_openssh_warning() {
    let banner = banner(&pty_request(80), b"SSH-2.0-OpenSSH_9.8p1", false).unwrap();
    assert_eq!(
        banner,
        "WARNING: the client negotiated a key exchange algorithm that is not \r\n\
         WARNING: post-quantum secure; your session may be decrypted by a \r\n\
         WARNING: cryptographically relevant quantum computer in the future \r\n\
         WARNING: consider upgrading your client version to OpenSSH 9.9 or newer\r\n"
    );
    assert!(banner.lines().all(|line| line.len() <= 80));
}

#[test]
fn banner_only_for_classical_key_exchange_and_terminals() {
    assert_eq!(banner(&pty_request(80), b"SSH-2.0-OpenSSH_9.8p1", true), None);
    let shell = ChannelRequest {
        recipient_channel: 0,
        request_type: ChannelRequestType::Shell,
        want_reply: true,
    };
    assert_eq!(banner(&shell, b"SSH-2.0-OpenSSH_9.8p1", false), None);
}

#[test]
fn banner_width_of_unspecified_and_narrow_terminals() {
    let identity = b"SSH-2.0-Client";
    assert_eq!(
        banner(&pty_request(0), identity, false),
        banner(&pty_request(80), identity, false)
    );
    assert_eq!(
        banner(&pty_request(7), identity, false),
        banner(&pty_request(40), identity, false)
    );
    let narrow = banner(&pty_request(40), identity, false).unwrap();
    assert!(narrow.len() <= MAX_BANNER_LEN);
    assert!(narrow.lines().all(|line| line.len() <= 40));
    assert_ne!(
        banner(&pty_request(41), identity, false),
        banner(&pty_request(80), identity, false)
    );
}

#[test]
fn banner_advice_depends_on_openssh_version() {
    let advised = |identity: &[u8]| {
        banner(&pty_request(80), identity, false)
            .unwrap()
            .contains("OpenSSH 9.9 or newer")
    };
    assert!(advised(b"SSH-2.0-OpenSSH_9.8"));
    assert!(advised(b"SSH-2.0-OpenSSH_8.10p1 Debian"));
    assert!(advised(b"SSH-2.0-OpenSSH_0.0"));
    assert!(!advised(b"SSH-2.0-OpenSSH_9.9"));
    assert!(!advised(b"SSH-2.0-OpenSSH_9.9p2"));
    assert!(!advised(b"SSH-2.0-OpenSSH_10.2"));
    assert!(!advised(b"SSH-2.0-OpenSSH_9"));
    assert!(!advised(b"SSH-2.0-OpenSSH_9.p1"));
    assert!(!advised(b"SSH-2.0-OpenSSH_x.1"));
    assert!(!advised(b"SSH-2.0-OpenSSH_1.256"));
    assert!(!advised(b"SSH-2.0-dropbear_2024"));
    assert!(!advised(b"\xff\xfe"));
}

fn pty_request(cols: u32) -> ChannelRequest<'static> {
    ChannelRequest {
        recipient_channel: 0,
        request_type: ChannelRequestType::PtyReq(PtyReq {
            term: Cow::Borrowed("xterm-256color"),
            cols,
            rows: 24,
            width_px: 0,
            height_px: 0,
            terminal_modes: BTreeMap::new(),
        }),
        want_reply: true,
    }
}
