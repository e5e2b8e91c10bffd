use std::borrow::Cow;

use oxish::auth::{mpint_to_fixed, Method, Signature, UserAuthFailure, UserAuthRequest};
use oxish::crypto::{
    HandshakeBuffer, HashAlgorithm, HashFunction, KeyDerivation, KeySourceSide, RandomSource,
    SecureRandom, SharedSecret,
};
use oxish::crypto::Digest;
use oxish::error::{CryptoError, Error, IdentificationError, ProtoError};
use oxish::handshake::identify_client;
use oxish::identification::Identification;
use oxish::io::{padding, Encoder, ReadState, WriteState};
use oxish::key_exchange::{encode_mpint, Identities, NewKeys, StrictKeyExchange};
use oxish::named::{
    ChannelType, CompressionAlgorithm, EncryptionAlgorithm, ExtensionId, IncomingNameList,
    KeyExchangeAlgorithm, KeyExchangeAlgorithmOrExtensionId, Language, MacAlgorithm, MethodName,
    Named, OutgoingNameList, PublicKeyAlgorithm, ServiceName,
};
use oxish::packet::{
    Disconnect, DisconnectReason, GlobalRequest, Ignore, IncomingPacket, MessageType,
    PacketLength, PaddingLength,
};
use oxish::server::{host_key_type, Config};
use oxish::session::dispatch::{dispatch, SessionEvent};
use oxish::session::handoff::Handoff;
use oxish::wire::{Completion, Decode, Decoded, Encode};

struct Sevens;

impl SecureRandom for Sevens {
    fn fill(&self, bytes: &mut [u8]) -> Result<(), CryptoError> {
        bytes.fill(7);
        Ok(())
    }
}

struct Broken;

impl SecureRandom for Broken {
    fn fill(&self, _bytes: &mut [u8]) -> Result<(), CryptoError> {
        Err(CryptoError::Failed)
    }
}

/// A stand-in for a hash function: the sum of the bytes, in two bytes.
struct Sum;

impl HashAlgorithm for Sum {
    fn digest(&self, data: &[u8]) -> Vec<u8> {
        let sum = data.iter().map(|byte| u16::from(*byte)).sum::<u16>();
        sum.to_be_bytes().to_vec()
    }
}

fn sum() -> HashFunction {
    HashFunction(std::sync::Arc::new(Box::new(Sum)))
}

fn wire(value: &(impl Encode + ?Sized)) -> Vec<u8> {
    let mut buf = Vec::new();
    value.encode(&mut buf);
    buf
}

fn string(bytes: &[u8]) -> Vec<u8> {
    wire(bytes)
}

fn packet(message_type: MessageType, payload: &[u8]) -> IncomingPacket<'_> {
    IncomingPacket {
        sequence_number: 0,
        message_type,
        payload,
    }
}

#[test]
fn numbers_and_strings_on_the_wire() {
    assert_eq!(wire(&0x0102_0304u32), [1, 2, 3, 4]);
    assert_eq!(wire(&0x0102_0304_0506_0708u64), [1, 2, 3, 4, 5, 6, 7, 8]);
    assert_eq!(wire(&true), [1]);
    assert_eq!(wire(&false), [0]);
    assert_eq!(string(b"ab"), [0, 0, 0, 2, b'a', b'b']);

    let bytes = [1, 2, 3, 4, 5, 6, 7, 8, 9];
    let Decoded { value, next } = u32::decode(&bytes).unwrap();
    assert_eq!((value, next), (0x0102_0304, &bytes[4..]));
    let Decoded { value, next } = u64::decode(&bytes).unwrap();
    assert_eq!((value, next), (0x0102_0304_0506_0708, &bytes[8..]));
    let Decoded { value, next } = u8::decode(&bytes).unwrap();
    assert_eq!((value, next), (1, &bytes[1..]));
    let Decoded { value, next } = <[u8; 3]>::decode(&bytes).unwrap();
    assert_eq!((value, next), ([1, 2, 3], &bytes[3..]));
    assert!(bool::decode(&[2]).unwrap().value);
    assert!(!bool::decode(&[0]).unwrap().value);
    assert!(matches!(
        u32::decode(&bytes[..1]),
        Err(ProtoError::Incomplete(Some(3)))
    ));
    assert!(matches!(
        u64::decode(&bytes[..1]),
        Err(ProtoError::Incomplete(Some(7)))
    ));
    assert!(matches!(
        <&[u8]>::decode(&[0, 0, 0, 5, 1]),
        Err(ProtoError::Incomplete(Some(4)))
    ));
    assert!(matches!(
        <[u8; 16]>::decode(&bytes),
        Err(ProtoError::Incomplete(Some(7)))
    ));
}

#[test]
fn message_numbers() {
    for number in 0..=u8::MAX {
        assert_eq!(u8::from(MessageType::from(number)), number);
    }
    assert_eq!(MessageType::from(20), MessageType::KeyExchangeInit);
    assert_eq!(MessageType::from(94), MessageType::ChannelData);
    assert_eq!(MessageType::from(255), MessageType::Unknown(255));
    assert!(matches!(
        packet(MessageType::Ignore, &[]).expect(&[MessageType::NewKeys]),
        Err(ProtoError::UnexpectedMessage(MessageType::Ignore, [MessageType::NewKeys]))
    ));
    assert!(packet(MessageType::NewKeys, &[])
        .expect(&[MessageType::NewKeys])
        .is_ok());
}

#[test]
fn packet_lengths() {
    assert!(matches!(
        PacketLength::decode(&[0, 1, 0, 0]),
        Ok(Decoded { value: PacketLength(0x1_0000), .. })
    ));
    assert!(matches!(
        PacketLength::decode(&[0, 1, 0, 1]),
        Err(ProtoError::InvalidPacket(_))
    ));
    assert!(matches!(
        PaddingLength::decode(&[4]),
        Ok(Decoded { value: PaddingLength(4), .. })
    ));
    assert!(matches!(
        PaddingLength::decode(&[3]),
        Err(ProtoError::InvalidPacket(_))
    ));
    assert_eq!(usize::from(PacketLength(9)), 9);
    assert_eq!(u32::from(PacketLength(9)), 9);
}

#[test]
fn plain_packets_round_trip() {
    let mut write = WriteState::new(RandomSource(&Sevens));
    let mut read = ReadState::default();
    for len in 0..50 {
        let text = vec![1; len];
        write.handle_packet(&Ignore(&text), None).unwrap();
    }
    assert_eq!(write.sequence_number, 50);
    let first = [
        &[0, 0, 0, 12, 6, 2, 0, 0, 0, 0][..],
        &[7; 6],
    ]
    .concat();
    assert_eq!(write.buffered()[..16], first);

    read.buf.extend_from_slice(write.buffered());
    for len in 0..50usize {
        let before = read.buf.len() - read.last_length;
        let Ok(Completion::Complete((number, length))) = read.poll_packet() else {
            panic!("incomplete packet");
        };
        assert_eq!(number as usize, len);
        assert_eq!(read.last_length % 8, 0);
        assert!(read.last_length >= 16);
        assert_eq!(read.buf.len(), before);
        let packet = read.decode_packet(number, length).unwrap();
        assert_eq!(packet.message_type, MessageType::Ignore);
        assert_eq!(packet.payload, string(&vec![1; len]));
    }
    assert_eq!(read.take_arrived(), b"");
    assert!(matches!(
        read.poll_packet(),
        Err(ProtoError::Incomplete(Some(4)))
    ));
}

#[test]
fn padding_aligns_packets() {
    for block in [8usize, 16, 32] {
        for region in 1..200usize {
            let padding = padding(region, block);
            assert_eq!((region + padding) % block, 0);
            assert!(padding >= 4);
            assert!(region + padding >= 16);
        }
    }
    assert_eq!(padding(12, 8), 4);
    assert_eq!(padding(13, 8), 11);
    assert_eq!(padding(6, 8), 10);
    assert_eq!(padding(5, 16), 11);
}

#[test]
fn damaged_packets_are_refused() {
    let decode = |bytes: &[u8], length: u32| {
        let mut read = ReadState::default();
        read.buf.extend_from_slice(bytes);
        read.decode_packet(0, PacketLength(length)).map(|_| ())
    };
    assert!(matches!(
        decode(&[0, 0, 0], 1),
        Err(ProtoError::Incomplete(Some(1)))
    ));
    assert!(matches!(
        decode(&[0, 0, 0, 4, 4], 4),
        Err(ProtoError::InvalidPacket("padding length exceeds packet length"))
    ));
    assert!(matches!(
        decode(&[0, 0, 0, 5, 4, 0, 0, 0, 0], 5),
        Err(ProtoError::InvalidPacket("packet without message type"))
    ));
    assert!(matches!(
        decode(&[0, 0, 0, 9, 4, 2], 9),
        Err(ProtoError::Incomplete(Some(3)))
    ));
    assert!(matches!(
        decode(&[0, 0, 0, 6, 4, 2, 0, 0], 6),
        Err(ProtoError::Incomplete(Some(2)))
    ));
    assert!(decode(&[0, 0, 0, 6, 4, 2, 0, 0, 0, 0], 6).is_ok());

    let mut read = ReadState::default();
    read.buf.extend_from_slice(&[0, 0, 0, 12, 6]);
    assert!(matches!(
        read.poll_packet(),
        Ok(Completion::Incomplete(Some(11)))
    ));
    assert_eq!(read.sequence_number, 0);
    read.buf = vec![1, 0, 0, 0];
    assert!(matches!(read.poll_packet(), Err(ProtoError::InvalidPacket(_))));
}

#[test]
fn writing_is_tracked() {
    let mut write = WriteState::new(RandomSource(&Sevens));
    write.handle_packet(&NewKeys, None).unwrap();
    assert_eq!(write.buffered().len(), 16);
    write.written(Ok(3)).unwrap();
    assert_eq!(write.buffered().len(), 13);
    let error = write.written(Ok(0)).unwrap_err();
    assert_eq!(error.kind(), std::io::ErrorKind::WriteZero);
    assert_eq!(error.to_string(), "failed to write buffered data");
    let error = write
        .written(Err(std::io::Error::from(std::io::ErrorKind::TimedOut)))
        .unwrap_err();
    assert_eq!(error.kind(), std::io::ErrorKind::TimedOut);
    write.written(Ok(13)).unwrap();
    assert!(write.buffered().is_empty());
    assert_eq!(write.encoded(&true), [1]);
    write.clear();
    assert!(write.buffered().is_empty());

    let mut write = WriteState::new(RandomSource(&Broken));
    assert!(matches!(
        write.handle_packet(&NewKeys, None),
        Err(ProtoError::Unreachable("failed to get random padding"))
    ));
    assert!(write.fits(3, 100));
    assert!(!write.fits(1, usize::MAX));
}

#[test]
fn sequence_numbers_wrap_and_reset() {
    let mut write = WriteState::new(RandomSource(&Sevens));
    write.sequence_number = u32::MAX;
    write.handle_packet(&NewKeys, None).unwrap();
    assert_eq!(write.sequence_number, 0);
    write.handle_packet(&NewKeys, None).unwrap();
    write.reset_sequence_number(None);
    assert_eq!(write.sequence_number, 1);
    write.reset_sequence_number(Some(&StrictKeyExchange {}));
    assert_eq!(write.sequence_number, 0);

    let mut read = ReadState::default();
    read.buf.extend_from_slice(write.buffered());
    read.sequence_number = u32::MAX;
    read.poll_packet().unwrap();
    assert_eq!(read.sequence_number, 0);
    read.poll_packet().unwrap();
    read.reset_sequence_number(None);
    assert_eq!(read.sequence_number, 1);
    read.reset_sequence_number(Some(&StrictKeyExchange {}));
    assert_eq!(read.sequence_number, 0);
}

#[test]
fn handshake_packets_are_hashed() {
    let mut buffer = HandshakeBuffer::default();
    buffer.update(&[1]);
    buffer.prefixed(&[2, 3]);
    let mut hash = buffer.hash(sum());
    // 1, the length 2, and 2 + 3
    let mut write = WriteState::new(RandomSource(&Sevens));
    write.handle_packet(&NewKeys, Some(&mut hash)).unwrap();
    // the length 1, and 21
    hash.update(&[100]);
    hash.prefixed(&[9]);
    assert_eq!(hash.finish().as_bytes(), [0, 140]);
}

#[test]
fn keys_are_stretched() {
    let derivation = KeyDerivation {
        hash: sum(),
        shared_secret: SharedSecret::new(vec![5]),
        exchange_hash: Digest::new(&[10]),
        session_id: Digest::new(&[20]),
    };
    // The first two bytes: the secret, the hash, the letter, the session ID
    assert_eq!(derivation.key(65, 1), [0]);
    assert_eq!(derivation.key(65, 2), [0, 100]);
    // Each further part: the secret, the hash and the parts so far
    assert_eq!(derivation.key(65, 4), [0, 100, 0, 115]);
    assert_eq!(derivation.key(65, 5), [0, 100, 0, 115, 0]);
    assert_eq!(derivation.key(65, 6), [0, 100, 0, 115, 0, 230]);

    let side =
        KeySourceSide::client_to_server(&derivation, EncryptionAlgorithm::Aes128Gcm).unwrap();
    assert_eq!(side.initial_iv, derivation.key(65, 12));
    assert_eq!(side.encryption_key, derivation.key(67, 16));
    let side =
        KeySourceSide::server_to_client(&derivation, EncryptionAlgorithm::Aes128Gcm).unwrap();
    assert_eq!(side.initial_iv, derivation.key(66, 12));
    assert_eq!(side.encryption_key, derivation.key(68, 16));
    assert!(matches!(
        KeySourceSide::client_to_server(
            &derivation,
            EncryptionAlgorithm::Unknown(Cow::Borrowed("3des-cbc"))
        )
        .map(|_| ()),
        Err(CryptoError::UnknownAlgorithm)
    ));
}

#[test]
fn secrets_are_wiped() {
    let secret = SharedSecret::new(vec![1, 2, 3]);
    assert_eq!(secret.secret_bytes(), [1, 2, 3]);
    drop(secret);
    let mut read = ReadState::default();
    read.buf.extend_from_slice(&[1; 40]);
    read.set_last_length(10);
    assert_eq!(read.take_arrived(), [1; 30]);
    assert!(read.buf.is_empty());
    assert_eq!(read.last_length, 0);
}

#[test]
fn identification_strings() {
    let Ok(Completion::Complete(Decoded { value, next })) =
        Identification::decode(b"SSH-2.0-OpenSSH_10.0 Debian 1\r\nrest")
    else {
        panic!("not complete");
    };
    assert_eq!(value.protocol, "2.0");
    assert_eq!(value.software, "OpenSSH_10.0");
    assert_eq!(value.comments, "Debian 1");
    assert_eq!(next, b"rest");
    assert_eq!(wire(&value), b"SSH-2.0-OpenSSH_10.0 Debian 1\r\n");

    let plain = Identification {
        protocol: "2.0",
        software: "OxiSH/0.1.0",
        comments: "",
    };
    assert_eq!(wire(&plain), b"SSH-2.0-OxiSH/0.1.0\r\n");

    assert!(matches!(
        Identification::decode(b"SSH-2.0-x\r"),
        Ok(Completion::Incomplete(None))
    ));
    let error = |bytes: &[u8]| match Identification::decode(bytes) {
        Err(ProtoError::Identification(error)) => Some(error),
        _ => None,
    };
    assert_eq!(error(&[b'a'; 256]), Some(IdentificationError::TooLong));
    assert_eq!(error(b"SSH-2.0-\xff\r\n"), Some(IdentificationError::InvalidUtf8));
    assert_eq!(error(b"HTTP/1.1\r\n"), Some(IdentificationError::NoSsh));
    let long = |len: usize| [&b"SSH-2.0-"[..], &vec![b'a'; len], b"\r\n"].concat();
    assert_eq!(error(&long(300)), Some(IdentificationError::TooLong));
    assert_eq!(error(&long(246)), Some(IdentificationError::TooLong));
    assert_eq!(long(245).len(), 255);
    assert!(matches!(
        Identification::decode(&long(245)),
        Ok(Completion::Complete(_))
    ));
    assert!(matches!(
        Identification::decode(&[b'a'; 253]),
        Ok(Completion::Incomplete(None))
    ));
    assert_eq!(error(&[b'a'; 254]), Some(IdentificationError::TooLong));

    // The start of a line may end within a character, but not otherwise go wrong
    for bytes in [
        &b"\xff"[..],
        b"SSH-2.0-\xc0",
        b"SSH-2.0-\x80",
        b"SSH-2.0-\xc3x",
        b"SSH-2.0-\xe0\x80",
        b"SSH-2.0-\xed\xa0",
        b"SSH-2.0-\xf4\x90",
        b"SSH-2.0-\xf5",
        b"SSH-2.0-\xf0\x9f\xa6x",
    ] {
        assert_eq!(error(bytes), Some(IdentificationError::InvalidUtf8));
    }
    let text = "SSH-2.0-\u{e9}\u{20ac}\u{1f980}";
    for len in 0..=text.len() {
        assert!(matches!(
            Identification::decode(&text.as_bytes()[..len]),
            Ok(Completion::Incomplete(None))
        ));
    }

    // What follows the line is not looked at
    let Ok(Completion::Complete(Decoded { value, next })) =
        Identification::decode(b"SSH-2.0-x\r\n\xff")
    else {
        panic!("not complete");
    };
    assert_eq!(
        (value.protocol, value.software, value.comments),
        ("2.0", "x", "")
    );
    assert_eq!(next, [0xff]);
    assert_eq!(error(b"SSH-2.0\r\n"), Some(IdentificationError::NoVersion));

    assert!(matches!(
        identify_client(b"SSH-1.99-x\r\n"),
        Err(ProtoError::Identification(IdentificationError::UnsupportedVersion(version)))
            if version == "1.99"
    ));
    assert!(matches!(
        identify_client(b"SSH-2.0-x\r\nmore"),
        Ok(Completion::Complete((id, 11))) if id == b"SSH-2.0-x"
    ));
    assert!(matches!(
        identify_client(b"SSH-2"),
        Ok(Completion::Incomplete(None))
    ));
}

#[test]
fn names() {
    assert_eq!(MethodName::typed("publickey"), MethodName::PublicKey);
    assert_eq!(MethodName::NoMethod.name(), "none");
    assert_eq!(ServiceName::typed("ssh-userauth"), ServiceName::UserAuth);
    assert_eq!(ServiceName::Connection.name(), "ssh-connection");
    assert_eq!(ChannelType::Session.name(), "session");
    assert!(ChannelType::typed("x11").same(&ChannelType::Unknown("x11")));
    assert_eq!(
        KeyExchangeAlgorithm::MlKem768X25519Sha256.name(),
        "mlkem768x25519-sha256"
    );
    assert!(KeyExchangeAlgorithm::MlKem768X25519Sha256.post_quantum_secure());
    assert!(!KeyExchangeAlgorithm::Curve25519Sha256.post_quantum_secure());
    assert!(!KeyExchangeAlgorithm::typed("ecdh").post_quantum_secure());
    assert_eq!(ExtensionId::StrictKexServer.name(), "kex-strict-s-v00@openssh.com");
    assert_eq!(PublicKeyAlgorithm::typed("ssh-ed25519"), PublicKeyAlgorithm::Ed25519);
    assert_eq!(MacAlgorithm::NoMac.name(), "none");
    assert_eq!(CompressionAlgorithm::NoCompression.name(), "none");
    assert_eq!(Language::typed("en").name(), "en");
    let lengths = EncryptionAlgorithm::Aes128Gcm.lengths().unwrap();
    assert_eq!((lengths.key_len, lengths.iv_len), (16, 12));
    assert!(EncryptionAlgorithm::typed("other").lengths().is_none());
    assert!(matches!(
        KeyExchangeAlgorithmOrExtensionId::typed("ext-info-c"),
        KeyExchangeAlgorithmOrExtensionId::Extension(ExtensionId::ExtInfoC)
    ));
    assert!(matches!(
        KeyExchangeAlgorithmOrExtensionId::typed("curve25519-sha256"),
        KeyExchangeAlgorithmOrExtensionId::KeyExchange(
            KeyExchangeAlgorithm::Curve25519Sha256
        )
    ));
}

#[test]
fn name_lists_round_trip() {
    let list = [
        PublicKeyAlgorithm::Ed25519,
        PublicKeyAlgorithm::Unknown(Cow::Borrowed("ssh-rsa")),
    ];
    let bytes = wire(&OutgoingNameList(&list));
    assert_eq!(bytes, string(b"ssh-ed25519,ssh-rsa"));
    let Decoded { value, next } =
        IncomingNameList::<PublicKeyAlgorithm<'_>>::decode(&bytes).unwrap();
    assert!(next.is_empty());
    assert_eq!(value.0, list);

    let none: [PublicKeyAlgorithm<'_>; 0] = [];
    assert_eq!(wire(&OutgoingNameList(&none)), [0, 0, 0, 0]);
    assert!(
        IncomingNameList::<PublicKeyAlgorithm<'_>>::decode(&[0, 0, 0, 0])
            .unwrap()
            .value
            .0
            .is_empty()
    );
    assert!(matches!(
        IncomingNameList::<PublicKeyAlgorithm<'_>>::decode(&string(b"\xff")),
        Err(ProtoError::InvalidPacket(_))
    ));
}

#[test]
fn disconnects_round_trip() {
    for code in 1..=15u32 {
        let reason = DisconnectReason::try_from(code).unwrap();
        assert_eq!(reason.code(), code);
    }
    assert!(DisconnectReason::try_from(0).is_err());
    assert!(DisconnectReason::try_from(16).is_err());

    let bytes = wire(&Disconnect {
        reason_code: DisconnectReason::ByApplication,
        description: "bye",
    });
    assert_eq!(bytes[..5], [1, 0, 0, 0, 11]);
    let read = Disconnect::try_from(packet(MessageType::Disconnect, &bytes[1..])).unwrap();
    assert_eq!(read.reason_code.code(), 11);
    assert_eq!(read.description, "bye");
}

#[test]
fn identities_read_back() {
    let identities = Identities {
        client: b"client".to_vec(),
        server: b"server".to_vec(),
    };
    let mut bytes = wire(&identities);
    bytes.push(9);
    let Decoded { value, next } = Identities::decode(&bytes).unwrap();
    assert_eq!(value.client, b"client");
    assert_eq!(value.server, b"server");
    assert_eq!(next, [9]);
}

#[test]
fn mpints_read_back() {
    for value in [[0u8, 0, 1], [0x80, 0, 0], [0, 0x80, 7], [0, 0, 0]] {
        let mut bytes = Vec::new();
        encode_mpint(&value, &mut bytes);
        let mut out = [0; 3];
        assert!(mpint_to_fixed(&bytes[4..], &mut out).is_some());
        assert_eq!(out, value);
    }
    let mut out = [0; 2];
    assert!(mpint_to_fixed(&[1, 2, 3], &mut out).is_none());
}

#[test]
fn signatures_are_unpacked() {
    let mut blob = Vec::new();
    encode_mpint(&[0x80; 32], &mut blob);
    encode_mpint(&[1], &mut blob);
    let mut inner = string(b"ecdsa-sha2-nistp256");
    inner.extend(string(&blob));
    let bytes = string(&inner);
    let Decoded { value, next } = Signature::decode(&bytes).unwrap();
    assert!(next.is_empty());
    let fixed = value.encode().unwrap();
    let mut expected = vec![0x80; 32];
    expected.extend([0; 31]);
    expected.push(1);
    assert_eq!(fixed.as_bytes(), expected);

    let ed25519 = Signature {
        algorithm: PublicKeyAlgorithm::Ed25519,
        signature_blob: &[5; 64],
    };
    assert_eq!(ed25519.encode().unwrap().as_bytes(), [5; 64]);
    let short = Signature {
        algorithm: PublicKeyAlgorithm::EcdsaSha2Nistp256,
        signature_blob: &[0, 0],
    };
    assert!(short.encode().is_err());
}

#[test]
fn authentication_requests() {
    let mut bytes = string(b"someone");
    bytes.extend(string(b"ssh-connection"));
    bytes.extend(string(b"none"));
    let request = UserAuthRequest::try_from(packet(MessageType::UserAuthRequest, &bytes)).unwrap();
    assert_eq!(request.user_name, "someone");
    assert_eq!(request.service_name, ServiceName::Connection);
    assert!(matches!(request.method, Method::NoMethod));
    let failure = UserAuthFailure {
        can_continue: &[MethodName::PublicKey, MethodName::Password],
        partial_success: true,
    };
    let mut expected = vec![51];
    expected.extend(string(b"publickey,password"));
    expected.push(1);
    assert_eq!(wire(&failure), expected);

    let mut write = WriteState::new(RandomSource(&Sevens));
    Encoder::new(&mut write)
        .send_auth_failed(&[MethodName::PublicKey])
        .unwrap();
    let mut expected = vec![51];
    expected.extend(string(b"publickey"));
    expected.push(0);
    assert_eq!(write.buffered()[5..][..15], expected);
}

#[test]
fn packets_are_dispatched() {
    assert!(matches!(
        dispatch(packet(MessageType::Ignore, &[])),
        Ok(SessionEvent::Ignored)
    ));
    assert!(matches!(
        dispatch(packet(MessageType::RequestFailure, &[])),
        Ok(SessionEvent::Ignored)
    ));
    assert!(matches!(
        dispatch(packet(MessageType::Disconnect, &[])),
        Ok(SessionEvent::Disconnected(Err(_)))
    ));
    assert!(matches!(
        dispatch(packet(MessageType::KeyExchangeInit, &[1])),
        Ok(SessionEvent::Rekey(_))
    ));
    let mut request = string(b"keepalive@openssh.com");
    request.push(1);
    let read = GlobalRequest::try_from(packet(MessageType::GlobalRequest, &request)).unwrap();
    assert_eq!(read.name, b"keepalive@openssh.com");
    assert!(matches!(
        dispatch(packet(MessageType::GlobalRequest, &request)),
        Ok(SessionEvent::RefuseRequest)
    ));
    request.pop();
    request.push(0);
    assert!(matches!(
        dispatch(packet(MessageType::GlobalRequest, &request)),
        Ok(SessionEvent::Ignored)
    ));
    assert!(matches!(
        dispatch(packet(MessageType::ChannelEof, &[0, 0, 0, 1])),
        Ok(SessionEvent::Channel(_))
    ));
    assert!(matches!(
        dispatch(packet(MessageType::NewKeys, &[])),
        Err(ProtoError::UnexpectedMessage(MessageType::NewKeys, _))
    ));
}

#[test]
fn handoffs_are_checked() {
    assert!(matches!(
        Handoff::new().feed(&[0, 0, 0]),
        Err(Error::InvalidState("received fewer than 4 bytes for length prefix"))
    ));
    assert!(matches!(
        Handoff::new().feed(&[0, 0, 0, 1, 1, 2]),
        Err(Error::InvalidState("received more bytes than expected"))
    ));
    let mut handoff = Handoff::new();
    assert!(!handoff.feed(&[0, 0, 0, 3, 1]).unwrap());
    assert!(matches!(
        handoff.feed(&[2, 3, 4]),
        Err(Error::InvalidState("received more bytes than expected"))
    ));
    let mut handoff = Handoff::new();
    let Err(Error::Io(error)) = handoff.feed(&[]) else {
        panic!("end of input accepted");
    };
    assert_eq!(error.kind(), std::io::ErrorKind::UnexpectedEof);
    assert_eq!(error.to_string(), "EOF while receiving handoff message");
    let mut handoff = Handoff::new();
    assert!(handoff.feed(&[0, 0, 0, 2, 8, 9]).unwrap());
    assert_eq!(handoff.contents(), [8, 9]);
    assert!(Handoff::new().feed(&[0, 0, 0, 0]).unwrap());
}

#[test]
fn sessions_are_spawned_by_default() {
    assert!(Config::default().spawn);
}

#[test]
fn host_key_types() {
    assert_eq!(host_key_type("ssh-ed25519"), Ok(PublicKeyAlgorithm::Ed25519));
    assert_eq!(
        host_key_type("ecdsa-sha2-nistp256"),
        Ok(PublicKeyAlgorithm::EcdsaSha2Nistp256)
    );
    assert_eq!(
        host_key_type("ssh-rsa"),
        Err("unsupported host key type `ssh-rsa`".to_owned())
    );
}

#[test]
fn packets_are_awaited() {
    let mut read = ReadState::default();
    assert!(matches!(read.next_packet(), Ok(None)));
    let packet = [0, 0, 0, 12, 10, 21, 0, 0, 0, 0, 0, 0, 0, 0, 0, 0];
    for byte in packet {
        assert!(matches!(read.next_packet(), Ok(None)));
        read.buf.push(byte);
    }
    assert!(matches!(read.next_packet(), Ok(Some((0, PacketLength(12))))));
    assert!(matches!(read.next_packet(), Ok(None)));
    read.buf.extend_from_slice(&[1, 0, 0, 0]);
    assert!(matches!(read.next_packet(), Err(ProtoError::InvalidPacket(_))));
}
