use std::borrow::Cow;
use std::sync::Arc;

use aws_lc_rs::aead::{Aad, LessSafeKey, Nonce, UnboundKey, AES_128_GCM};
use aws_lc_rs::agreement::{self, UnparsedPublicKey, X25519};
use aws_lc_rs::digest;
use graviola::signing::eddsa::{Ed25519SigningKey, Ed25519VerifyingKey};
use aws_lc_rs::rand::{SecureRandom as _, SystemRandom};
use aws_lc_rs::signature::{
    self, EcdsaKeyPair, Ed25519KeyPair, KeyPair, ECDSA_P256_SHA256_FIXED,
    ECDSA_P256_SHA256_FIXED_SIGNING, ED25519,
};

use oxish::auth::PublicKey as RequestedKey;
use oxish::authentication::{
    disconnect_for, fake_key, timed_out, AuthenticationState, CachedUser, SingleUser, Store,
    Username,
};
use oxish::authorized_keys::AuthorizedKey;
use oxish::crypto::{Digest, HandshakeBuffer};
use oxish::error::{AuthError, Error, ProtoError};
use oxish::handshake::{
    identify_client, server_identification, start_exchange, update_keys, HandshakeState, RekeyState,
};
use oxish::host_keys::{HostKeys, ServerHostKey, SessionHostKey};
use oxish::io::{Encoder, ReadState, WriteState};
use oxish::key_exchange::{
    encode_mpint, EcdhKeyExchangeInit, EcdhKeyExchangeReply, Identities, KeyExchange,
    KeyExchangeInit, KeyExchangeOutput, Negotiated, NewKeys, Rekey, TaggedPublicKey,
    TaggedSignature,
};
use oxish::named::{
    CompressionAlgorithm, KeyExchangeAlgorithmOrExtensionId, Named,
};
use oxish::packet::{Ignore, IncomingPacket, MessageType};
use oxish::session::connections::Channels;
use oxish::session::driver::{SessionAction, SessionCore};
use oxish::session::handoff::{handoff_message, Handoff};
use oxish::session::state::{SessionState, SideState};
use oxish::users::{authorized_keys, lookup, PasswdEntry};
use oxish::wire::{Completion, Decode, Decoded, Encode};
use oxish::crypto::{
    ActiveKeyExchange, CompletedKeyExchange, CryptoProvider, EphemeralKey, HashAlgorithm,
    HashFunction, KeyAgreement, KeyExchangeMethod, KeySourceSide, Opener, OpeningKey, Provider,
    RandomSource, Sealer, SealingKey, SecureRandom, SharedSecret, Signer, SigningKey,
    SupportedAlgorithms, Verifier, VerifyingKey,
};
use oxish::error::CryptoError;
use oxish::named::{
    EncryptionAlgorithm, KeyExchangeAlgorithm, MacAlgorithm, PublicKeyAlgorithm,
};

const DEFAULT_PROVIDER: Provider<'static> = Provider(&AwsLc);

struct AwsLc;

static SUPPORTED: SupportedAlgorithms = SupportedAlgorithms {
    key_exchange: &[KeyExchangeAlgorithm::Curve25519Sha256],
    encryption: &[EncryptionAlgorithm::Aes128Gcm],
    mac: &[MacAlgorithm::NoMac],
    public_key: &[
        PublicKeyAlgorithm::Ed25519,
        PublicKeyAlgorithm::EcdsaSha2Nistp256,
    ],
};

impl CryptoProvider for AwsLc {
    fn secure_random(&self) -> RandomSource {
        RandomSource(&Random)
    }

    fn supported_algorithms(&self) -> &'static SupportedAlgorithms {
        &SUPPORTED
    }

    fn hash(&self, algorithm: &KeyExchangeAlgorithm<'_>) -> Result<HashFunction, CryptoError> {
        match algorithm {
            KeyExchangeAlgorithm::Unknown(_) => Err(CryptoError::UnknownAlgorithm),
            _ => Ok(HashFunction(Arc::new(Box::new(Sha256)))),
        }
    }

    fn key_exchange(
        &self,
        algorithm: &KeyExchangeAlgorithm<'_>,
    ) -> Result<KeyAgreement, CryptoError> {
        match algorithm {
            KeyExchangeAlgorithm::Curve25519Sha256 => Ok(KeyAgreement(Box::new(Exchange))),
            _ => Err(CryptoError::UnknownAlgorithm),
        }
    }

    fn opening_key(&self, counter: u64, source: &KeySourceSide) -> Result<Opener, CryptoError> {
        Ok(Opener(Box::new(AesGcm::new(counter, source)?)))
    }

    fn sealing_key(&self, counter: u64, source: &KeySourceSide) -> Result<Sealer, CryptoError> {
        Ok(Sealer(Box::new(AesGcm::new(counter, source)?)))
    }

    fn verifying_key(
        &self,
        public_key: &[u8],
        algorithm: &PublicKeyAlgorithm<'_>,
    ) -> Result<Verifier, CryptoError> {
        let algorithm: &'static dyn signature::VerificationAlgorithm = match algorithm {
            PublicKeyAlgorithm::EcdsaSha2Nistp256 => &ECDSA_P256_SHA256_FIXED,
            PublicKeyAlgorithm::Ed25519 => &ED25519,
            PublicKeyAlgorithm::Unknown(_) => return Err(CryptoError::UnknownAlgorithm),
        };
        let key = signature::ParsedPublicKey::new(algorithm, public_key)
            .map_err(|_| CryptoError::KeyRejected)?;
        Ok(Verifier(Arc::new(Box::new(PublicKey(key)))))
    }

    fn signing_key(&self, pkcs8: &[u8]) -> Result<Signer, CryptoError> {
        if let Ok(key) = Ed25519KeyPair::from_pkcs8(pkcs8) {
            return Ok(Signer(Arc::new(Box::new(PrivateKey::Ed25519(key)))));
        }
        match EcdsaKeyPair::from_pkcs8(&ECDSA_P256_SHA256_FIXED_SIGNING, pkcs8) {
            Ok(key) => Ok(Signer(Arc::new(Box::new(PrivateKey::Ecdsa(key))))),
            Err(_) => Err(CryptoError::KeyRejected),
        }
    }

    fn generate_signing_key(
        &self,
        algorithm: &PublicKeyAlgorithm<'_>,
    ) -> Result<(Signer, Vec<u8>), CryptoError> {
        let random = SystemRandom::new();
        let pkcs8 = match algorithm {
            PublicKeyAlgorithm::EcdsaSha2Nistp256 => {
                EcdsaKeyPair::generate_pkcs8(&ECDSA_P256_SHA256_FIXED_SIGNING, &random)
            }
            PublicKeyAlgorithm::Ed25519 => Ed25519KeyPair::generate_pkcs8(&random),
            PublicKeyAlgorithm::Unknown(_) => return Err(CryptoError::UnknownAlgorithm),
        }
        .map_err(|_| CryptoError::Failed)?
        .as_ref()
        .to_vec();
        Ok((self.signing_key(&pkcs8)?, pkcs8))
    }
}

struct Random;

impl SecureRandom for Random {
    fn fill(&self, bytes: &mut [u8]) -> Result<(), CryptoError> {
        SystemRandom::new()
            .fill(bytes)
            .map_err(|_| CryptoError::Failed)
    }
}

struct Sha256;

impl HashAlgorithm for Sha256 {
    fn digest(&self, data: &[u8]) -> Vec<u8> {
        digest::digest(&digest::SHA256, data).as_ref().to_vec()
    }
}

struct Exchange;

impl KeyExchangeMethod for Exchange {
    fn start(&self) -> Result<EphemeralKey, CryptoError> {
        let private = agreement::PrivateKey::generate(&X25519).map_err(|_| CryptoError::Failed)?;
        Ok(EphemeralKey(Box::new(Ephemeral { private })))
    }
}

struct Ephemeral {
    private: agreement::PrivateKey,
}

impl Ephemeral {
    fn x25519(&self, peer: &[u8]) -> Result<(Vec<u8>, Vec<u8>), CryptoError> {
        let public = self
            .private
            .compute_public_key()
            .map_err(|_| CryptoError::Failed)?;
        let secret = agreement::agree(
            &self.private,
            UnparsedPublicKey::new(&X25519, peer),
            CryptoError::Failed,
            |secret| Ok(secret.to_vec()),
        )?;
        Ok((public.as_ref().to_vec(), secret))
    }
}

impl ActiveKeyExchange for Ephemeral {
    fn complete(&self, peer_public_key: &[u8]) -> Result<CompletedKeyExchange, CryptoError> {
        let (public_key, secret) = self.x25519(peer_public_key)?;
        Ok(CompletedKeyExchange {
            public_key,
            shared_secret: SharedSecret::new(secret),
        })
    }
}

/// AES-128-GCM as in RFC 5647: the last eight bytes of the IV count the packets.
struct AesGcm {
    key: LessSafeKey,
    initial_iv: [u8; 12],
    counter: u64,
}

impl AesGcm {
    fn new(counter: u64, source: &KeySourceSide) -> Result<Self, CryptoError> {
        let EncryptionAlgorithm::Aes128Gcm = source.algorithm else {
            return Err(CryptoError::UnknownAlgorithm);
        };
        let key = UnboundKey::new(&AES_128_GCM, &source.encryption_key)
            .map_err(|_| CryptoError::KeyRejected)?;
        let initial_iv = source
            .initial_iv
            .as_slice()
            .try_into()
            .map_err(|_| CryptoError::KeyRejected)?;
        Ok(Self {
            key: LessSafeKey::new(key),
            initial_iv,
            counter,
        })
    }

    fn nonce(&self) -> Nonce {
        let mut iv = self.initial_iv;
        let mut invocations = [0; 8];
        invocations.copy_from_slice(&iv[4..]);
        let invocations = u64::from_be_bytes(invocations).wrapping_add(self.counter);
        iv[4..].copy_from_slice(&invocations.to_be_bytes());
        Nonce::assume_unique_for_key(iv)
    }
}

impl OpeningKey for AesGcm {
    fn decrypt_packet_length(&self, _sequence_number: u32, length: [u8; 4]) -> [u8; 4] {
        length
    }

    fn tag_len(&self) -> usize {
        AES_128_GCM.tag_len()
    }

    fn open_in_place(
        &mut self,
        _sequence_number: u32,
        packet: &mut [u8],
        tag: &[u8],
    ) -> Result<(), CryptoError> {
        let nonce = self.nonce();
        self.counter = self.counter.wrapping_add(1);
        let Some((length, contents)) = packet.split_at_mut_checked(4) else {
            return Err(CryptoError::Failed);
        };
        match self
            .key
            .open_in_place_separate_tag(nonce, Aad::from(&*length), tag, contents)
        {
            Ok(_) => Ok(()),
            Err(_) => Err(CryptoError::Failed),
        }
    }

    fn counter(&self) -> u64 {
        self.counter
    }
}

impl SealingKey for AesGcm {
    fn block_len(&self) -> usize {
        16
    }

    fn tag_len(&self) -> usize {
        AES_128_GCM.tag_len()
    }

    fn seal_in_place(
        &mut self,
        _sequence_number: u32,
        packet: &mut [u8],
        tag: &mut [u8],
    ) -> Result<(), CryptoError> {
        let nonce = self.nonce();
        self.counter = self.counter.wrapping_add(1);
        let Some((length, contents)) = packet.split_at_mut_checked(4) else {
            return Err(CryptoError::Failed);
        };
        let sealed = self
            .key
            .seal_in_place_separate_tag(nonce, Aad::from(&*length), contents)
            .map_err(|_| CryptoError::Failed)?;
        tag.copy_from_slice(sealed.as_ref());
        Ok(())
    }

    fn counter(&self) -> u64 {
        self.counter
    }
}

struct PublicKey(signature::ParsedPublicKey);

impl VerifyingKey for PublicKey {
    fn verify(&self, message: &[u8], signature: &[u8]) -> Result<(), CryptoError> {
        self.0
            .verify_sig(message, signature)
            .map_err(|_| CryptoError::Failed)
    }
}

enum PrivateKey {
    Ed25519(Ed25519KeyPair),
    Ecdsa(EcdsaKeyPair),
}

impl SigningKey for PrivateKey {
    fn algorithm(&self) -> PublicKeyAlgorithm<'static> {
        match self {
            Self::Ed25519(_) => PublicKeyAlgorithm::Ed25519,
            Self::Ecdsa(_) => PublicKeyAlgorithm::EcdsaSha2Nistp256,
        }
    }

    fn public_key(&self) -> &[u8] {
        match self {
            Self::Ed25519(key) => key.public_key().as_ref(),
            Self::Ecdsa(key) => key.public_key().as_ref(),
        }
    }

    fn sign(&self, message: &[u8]) -> Vec<u8> {
        match self {
            Self::Ed25519(key) => key.sign(message).as_ref().to_vec(),
            Self::Ecdsa(key) => key
                .sign(&SystemRandom::new(), message)
                .expect("signing with a valid key")
                .as_ref()
                .to_vec(),
        }
    }
}

fn host_keys(algorithm: &PublicKeyAlgorithm<'_>) -> HostKeys {
    let (_, pkcs8) = AwsLc.generate_signing_key(algorithm).unwrap();
    HostKeys::new(vec![pkcs8], DEFAULT_PROVIDER).unwrap()
}

fn wire(value: &impl Encode) -> Vec<u8> {
    let mut buf = Vec::new();
    value.encode(&mut buf);
    buf
}

fn string(bytes: &[u8]) -> Vec<u8> {
    let mut out = (bytes.len() as u32).to_be_bytes().to_vec();
    out.extend_from_slice(bytes);
    out
}

fn decode_string(bytes: &[u8]) -> (&[u8], &[u8]) {
    let Decoded { value, next } = <&[u8]>::decode(bytes).unwrap();
    (value, next)
}

fn packet(message_type: MessageType, payload: &[u8]) -> IncomingPacket<'_> {
    IncomingPacket {
        sequence_number: 0,
        message_type,
        payload,
    }
}

/// Feed `bytes` to a connection and take the payload of the first packet, with its message number.
fn read_payload(read: &mut ReadState, bytes: &[u8]) -> Vec<u8> {
    read.buf.extend_from_slice(bytes);
    let Completion::Complete((sequence_number, length)) = read.poll_packet().unwrap() else {
        panic!("incomplete packet");
    };
    let packet = read.decode_packet(sequence_number, length).unwrap();
    let mut out = vec![u8::from(packet.message_type)];
    out.extend_from_slice(packet.payload);
    out
}

/// Take what is to be sent.
fn flush(write: &mut WriteState) -> Vec<u8> {
    let bytes = write.buffered().to_vec();
    write.written(Ok(bytes.len())).unwrap();
    assert!(write.buffered().is_empty());
    bytes
}

fn client_init(first_kx: &'static str, extensions: &[&'static str]) -> KeyExchangeInit<'static> {
    let mut kx = vec![KeyExchangeAlgorithmOrExtensionId::typed(first_kx)];
    kx.extend(extensions.iter().map(|name| KeyExchangeAlgorithmOrExtensionId::typed(name)));
    KeyExchangeInit {
        cookie: [9; 16],
        key_exchange_algorithms: kx,
        server_host_key_algorithms: vec![
            PublicKeyAlgorithm::Unknown(Cow::Borrowed("ssh-rsa")),
            PublicKeyAlgorithm::Ed25519,
            PublicKeyAlgorithm::EcdsaSha2Nistp256,
        ],
        encryption_algorithms_client_to_server: vec![EncryptionAlgorithm::Aes128Gcm],
        encryption_algorithms_server_to_client: vec![EncryptionAlgorithm::Aes128Gcm],
        mac_algorithms_client_to_server: vec![MacAlgorithm::HmacSha2256],
        mac_algorithms_server_to_client: vec![MacAlgorithm::HmacSha2256],
        compression_algorithms_client_to_server: vec![CompressionAlgorithm::NoCompression],
        compression_algorithms_server_to_client: vec![CompressionAlgorithm::NoCompression],
        languages_client_to_server: vec![],
        languages_server_to_client: vec![],
        first_kex_packet_follows: false,
        extended: 0,
    }
}

/// A connection after its first key exchange, seen from both ends.
struct Established {
    read: ReadState,
    write: WriteState,
    client_read: ReadState,
    client_write: WriteState,
    session_id: Vec<u8>,
}

/// A client's side of the key exchange, done by hand, against the server's side.
fn establish<'h>(
    host_keys: &'h HostKeys,
    extensions: &[&'static str],
) -> (Established, KeyExchangeOutput<'h>) {
    let mut read = ReadState::default();
    let mut write = WriteState::new(AwsLc.secure_random());

    // Identification
    read.buf.extend_from_slice(b"SSH-2.0-Client_1.0 test\r\n");
    let Completion::Complete((client_id, length)) = identify_client(&read.buf).unwrap() else {
        panic!("incomplete identification");
    };
    assert_eq!(client_id, b"SSH-2.0-Client_1.0 test");
    read.set_last_length(length);
    let server_line = write.encoded(&server_identification()).to_vec();
    assert_eq!(server_line, b"SSH-2.0-OxiSH/0.1.0\r\n");
    let (exchange, identities) = start_exchange(client_id, &server_line);
    write.clear();

    // Key exchange init in both directions
    let mut client_write = WriteState::new(AwsLc.secure_random());
    let mut client_read = ReadState::default();
    let init = client_init("curve25519-sha256", extensions);
    client_write.handle_packet(&init, None).unwrap();
    let payload = read_payload(&mut read, &flush(&mut client_write));
    let i_c = wire(&init);
    assert_eq!(payload, i_c);
    let state = HandshakeState::AwaitInit {
        exchange,
        identities,
    };
    let state = state
        .handle(
            packet(MessageType::KeyExchangeInit, &payload[1..]),
            host_keys,
            DEFAULT_PROVIDER,
        )
        .unwrap();
    let HandshakeState::AwaitExchange { kx, .. } = &state else {
        panic!("key exchange not started");
    };
    assert_eq!(
        kx.local.key_exchange_algorithms.last().unwrap().name(),
        "kex-strict-s-v00@openssh.com"
    );
    write.handle_packet(&kx.local, None).unwrap();
    let i_s = read_payload(&mut client_read, &flush(&mut write));
    assert_eq!(i_s, wire(&kx.local));

    // The exchange itself
    let private = agreement::PrivateKey::generate(&X25519).unwrap();
    let q_c = private.compute_public_key().unwrap().as_ref().to_vec();
    let mut ecdh_init = vec![30];
    ecdh_init.extend(string(&q_c));
    let state = state
        .handle(
            packet(MessageType::KeyExchangeEcdhInit, &ecdh_init[1..]),
            host_keys,
            DEFAULT_PROVIDER,
        )
        .unwrap();
    let HandshakeState::AwaitNewKeys { reply, .. } = &state else {
        panic!("no reply");
    };
    write.handle_packet(reply, None).unwrap();
    let reply = read_payload(&mut client_read, &flush(&mut write));
    assert_eq!(reply[0], 31);
    let (k_s, next) = decode_string(&reply[1..]);
    let (q_s, next) = decode_string(next);
    let (signature, next) = decode_string(next);
    assert!(next.is_empty());

    // The exchange hash of RFC 5656 section 4
    let secret = agreement::agree(
        &private,
        UnparsedPublicKey::new(&X25519, q_s),
        CryptoError::Failed,
        |secret| Ok(secret.to_vec()),
    )
    .unwrap();
    let mut hashed = Vec::new();
    for part in [
        b"SSH-2.0-Client_1.0 test".as_slice(),
        b"SSH-2.0-OxiSH/0.1.0",
        &i_c,
        &i_s,
        k_s,
        &q_c,
        q_s,
    ] {
        hashed.extend(string(part));
    }
    let mut k = Vec::new();
    encode_mpint(&secret, &mut k);
    hashed.extend_from_slice(&k);
    let hash = Sha256.digest(&hashed);

    // The host key signs it
    let (name, next) = decode_string(k_s);
    assert_eq!(name, b"ssh-ed25519");
    let (public_key, next) = decode_string(next);
    assert!(next.is_empty());
    let (name, next) = decode_string(signature);
    assert_eq!(name, b"ssh-ed25519");
    let (signature, next) = decode_string(next);
    assert!(next.is_empty());
    AwsLc
        .verifying_key(public_key, &PublicKeyAlgorithm::Ed25519)
        .unwrap()
        .0
        .verify(&hash, signature)
        .unwrap();

    // New keys in both directions
    client_write.handle_packet(&NewKeys, None).unwrap();
    let payload = read_payload(&mut read, &flush(&mut client_write));
    assert_eq!(payload, [21]);
    let state = state
        .handle(
            packet(MessageType::NewKeys, &payload[1..]),
            host_keys,
            DEFAULT_PROVIDER,
        )
        .unwrap();
    let HandshakeState::Complete { output, ext_info } = state else {
        panic!("not complete");
    };
    assert!(!output.post_quantum_kx);
    assert_eq!(output.session_id.as_bytes(), hash);
    let keys = &output.keys;
    let strict_kx = output.strict_kx.as_ref();

    // The keys of RFC 4253 section 7.2
    let derive = |letter: u8, len: usize| {
        let mut input = k.clone();
        input.extend_from_slice(&hash);
        input.push(letter);
        input.extend_from_slice(&hash);
        Sha256.digest(&input)[..len].to_vec()
    };
    assert_eq!(keys.client_to_server.initial_iv, derive(b'A', 12));
    assert_eq!(keys.server_to_client.initial_iv, derive(b'B', 12));
    assert_eq!(keys.client_to_server.encryption_key, derive(b'C', 16));
    assert_eq!(keys.server_to_client.encryption_key, derive(b'D', 16));

    let sent = write.sequence_number;
    update_keys(&mut read, &mut write, keys, strict_kx, DEFAULT_PROVIDER).unwrap();
    assert_eq!(read_payload(&mut client_read, &flush(&mut write)), [21]);
    let strict = extensions.contains(&"kex-strict-c-v00@openssh.com");
    assert_eq!(strict_kx.is_some(), strict);
    assert_eq!(write.sequence_number, if strict { 0 } else { sent + 1 });
    assert_eq!(read.sequence_number, if strict { 0 } else { 2 });
    client_read.opener = Some(AwsLc.opening_key(0, &keys.server_to_client).unwrap());
    client_write.sealer = Some(AwsLc.sealing_key(0, &keys.client_to_server).unwrap());
    client_read.reset_sequence_number(strict_kx);
    client_write.reset_sequence_number(strict_kx);

    // Extension info, where the client asked for it
    assert_eq!(ext_info.is_some(), extensions.contains(&"ext-info-c"));
    if let Some(ext_info) = ext_info {
        write.handle_packet(&ext_info, None).unwrap();
        let payload = read_payload(&mut client_read, &flush(&mut write));
        let mut expected = vec![7, 0, 0, 0, 1];
        expected.extend(string(b"server-sig-algs"));
        expected.extend(string(b"ssh-ed25519,ecdsa-sha2-nistp256"));
        assert_eq!(payload, expected);
    }

    (
        Established {
            read,
            write,
            client_read,
            client_write,
            session_id: hash,
        },
        output,
    )
}

#[test]
fn key_exchange_agrees_with_client() {
    let keys = host_keys(&PublicKeyAlgorithm::Ed25519);
    establish(&keys, &[]);
    establish(&keys, &["ext-info-c", "kex-strict-c-v00@openssh.com"]);
}

#[test]
fn sealed_packets_round_trip() {
    let keys = host_keys(&PublicKeyAlgorithm::Ed25519);
    let (mut ends, _) = establish(&keys, &["kex-strict-c-v00@openssh.com"]);
    for i in 0..40u8 {
        let text = vec![i; usize::from(i)];
        ends.write.handle_packet(&Ignore(&text), None).unwrap();
        let bytes = flush(&mut ends.write);
        // Length in the clear, a region of whole blocks and a tag
        let length = u32::from_be_bytes([bytes[0], bytes[1], bytes[2], bytes[3]]);
        assert_eq!(length % 16, 0);
        assert_eq!(bytes.len(), 4 + length as usize + 16);
        let mut expected = vec![2];
        expected.extend(string(&text));
        assert_ne!(&bytes[5..][..expected.len()], expected);
        assert_eq!(read_payload(&mut ends.client_read, &bytes), expected);
        assert_eq!(ends.client_read.sequence_number, u32::from(i) + 1);
        assert_eq!(ends.client_read.opener.as_ref().unwrap().0.counter(), u64::from(i) + 1);
    }
}

#[test]
fn sealed_packets_arrive_in_parts() {
    let keys = host_keys(&PublicKeyAlgorithm::Ed25519);
    let (mut ends, _) = establish(&keys, &[]);
    ends.write.handle_packet(&Ignore(b"parts"), None).unwrap();
    let bytes = flush(&mut ends.write);
    let read = &mut ends.client_read;
    for (i, byte) in bytes.iter().enumerate() {
        let missing = match i {
            0..4 => 4 - i,
            _ => bytes.len() - i,
        };
        assert!(matches!(
            read.poll_packet(),
            Ok(Completion::Incomplete(Some(n))) if n == missing
        ));
        read.buf.push(*byte);
    }
    assert!(matches!(read.poll_packet(), Ok(Completion::Complete(_))));
}

#[test]
fn altered_packets_are_refused() {
    let keys = host_keys(&PublicKeyAlgorithm::Ed25519);
    let (mut ends, _) = establish(&keys, &[]);
    ends.write.handle_packet(&Ignore(b"text"), None).unwrap();
    let mut bytes = flush(&mut ends.write);
    let last = bytes.len() - 1;
    bytes[last] ^= 1;
    ends.client_read.buf.extend_from_slice(&bytes);
    ends.client_read.buf.extend_from_slice(b"behind");
    let number = ends.client_read.sequence_number;
    // The bytes of the last packet are still in the buffer, in front of these.
    assert!(matches!(
        ends.client_read.poll_packet(),
        Err(ProtoError::Crypto(CryptoError::Failed))
    ));
    // What lies behind the packet is as it was
    let behind = [&bytes[bytes.len() - 16..], b"behind"].concat();
    assert!(ends.client_read.buf.ends_with(&behind));
    assert_eq!(ends.client_read.buf.len(), bytes.len() + 6);
    assert_eq!(ends.client_read.sequence_number, number);
    assert_eq!(ends.client_read.last_length, 0);
}

#[test]
fn session_state_round_trip() {
    let (key, pkcs8) = AwsLc
        .generate_signing_key(&PublicKeyAlgorithm::Ed25519)
        .expect("failed to generate signing key");
    let host_key = ServerHostKey {
        pkcs8: &pkcs8,
        key: &key,
    };

    let state = SessionState {
        addr: "192.0.2.7:22022".to_owned(),
        identities: Identities {
            client: b"client-identity".to_vec(),
            server: b"server-identity".to_vec(),
        },
        post_quantum_kx: false,
        strict_kx: None,
        host_key,
        session_id: Digest::new(b"session-id"),
        read: SideState {
            source: KeySourceSide {
                algorithm: EncryptionAlgorithm::Aes128Gcm,
                initial_iv: vec![2; 12],
                encryption_key: vec![1; 16],
            },
            counter: 42,
            sequence_number: 17,
        },
        write: SideState {
            source: KeySourceSide {
                algorithm: EncryptionAlgorithm::Aes128Gcm,
                initial_iv: vec![4; 12],
                encryption_key: vec![3; 16],
            },
            counter: 7,
            sequence_number: 23,
        },
        read_buf: b"pipelined".to_vec(),
    };

    let mut buf = Vec::new();
    state.encode(&mut buf);

    let Decoded {
        value: decoded,
        next,
    } = SessionState::decode(&buf, DEFAULT_PROVIDER).unwrap();
    assert!(next.is_empty());

    assert_eq!(decoded.addr, state.addr);
    assert_eq!(decoded.identities.client, state.identities.client);
    assert_eq!(decoded.identities.server, state.identities.server);
    assert_eq!(decoded.strict_kx.is_some(), state.strict_kx.is_some());
    assert_eq!(decoded.post_quantum_kx, state.post_quantum_kx);
    assert_eq!(decoded.session_id.as_bytes(), state.session_id.as_bytes());
    assert_eq!(decoded.read_buf, state.read_buf);
    assert_eq!(
        decoded.read.source.algorithm,
        EncryptionAlgorithm::Aes128Gcm
    );
    assert_eq!(decoded.read.source.encryption_key, [1; 16]);
    assert_eq!(decoded.read.source.initial_iv, [2; 12]);
    assert_eq!(
        decoded.write.source.algorithm,
        EncryptionAlgorithm::Aes128Gcm
    );
    assert_eq!(decoded.write.source.encryption_key, [3; 16]);
    assert_eq!(decoded.write.source.initial_iv, [4; 12]);
    assert_eq!(decoded.read.counter, 42);
    assert_eq!(decoded.read.sequence_number, 17);
    assert_eq!(decoded.write.counter, 7);
    assert_eq!(decoded.write.sequence_number, 23);

    // The host key signs as it did before
    assert_eq!(decoded.host_key.0 .0.public_key(), key.0.public_key());
}

#[test]
fn session_state_refuses_damage() {
    let keys = host_keys(&PublicKeyAlgorithm::Ed25519);
    let (mut ends, kx) = establish(&keys, &[]);
    let state = SessionState::from_connection(
        "198.51.100.1:9".to_owned(),
        kx,
        &mut ends.read,
        &ends.write,
    )
    .unwrap();
    let buf = wire(&state);
    for len in 0..buf.len() {
        assert!(matches!(
            SessionState::decode(&buf[..len], DEFAULT_PROVIDER),
            Err(ProtoError::Incomplete(_)) | Err(ProtoError::Crypto(_))
        ));
    }
    let addr = string(b"\xff");
    assert!(matches!(
        SessionState::decode(&addr, DEFAULT_PROVIDER),
        Err(ProtoError::InvalidPacket(_))
    ));

    let mut side = wire(&state.read);
    assert!(SideState::decode(&side).is_ok());
    side[4] = b'x';
    assert!(matches!(
        SideState::decode(&side),
        Err(ProtoError::InvalidPacket("unsupported encryption algorithm"))
    ));
    let mut side = string(b"aes128-gcm@openssh.com");
    side.extend(string(&[1; 15]));
    assert!(matches!(
        SideState::decode(&side),
        Err(ProtoError::InvalidPacket("invalid encryption key length"))
    ));
    let mut side = string(b"aes128-gcm@openssh.com");
    side.extend(string(&[1; 16]));
    side.extend(string(&[1; 13]));
    assert!(matches!(
        SideState::decode(&side),
        Err(ProtoError::InvalidPacket("invalid IV length"))
    ));
}

#[test]
fn unflushed_connections_are_not_handed_over() {
    let keys = host_keys(&PublicKeyAlgorithm::Ed25519);
    let (mut ends, kx) = establish(&keys, &[]);
    ends.write.handle_packet(&Ignore(b""), None).unwrap();
    assert!(matches!(
        SessionState::from_connection("a".to_owned(), kx, &mut ends.read, &ends.write),
        Err(Error::InvalidState("unflushed bytes in write buffer"))
    ));
}

#[test]
fn resumed_sessions_go_on_and_rekey() {
    let keys = host_keys(&PublicKeyAlgorithm::Ed25519);
    let (mut ends, kx) = establish(&keys, &["kex-strict-c-v00@openssh.com"]);

    // The client has already sent a packet that the server has not looked at.
    ends.client_write.handle_packet(&Ignore(b"early"), None).unwrap();
    ends.client_write.handle_packet(&Ignore(b"late"), None).unwrap();
    let bytes = flush(&mut ends.client_write);
    let first = read_payload(&mut ends.read, &bytes);
    assert_eq!(first[5..], *b"early");

    let session_id = ends.session_id.clone();
    let state = SessionState::from_connection(
        "198.51.100.1:9".to_owned(),
        kx,
        &mut ends.read,
        &ends.write,
    )
    .unwrap();
    assert_eq!(state.read.counter, 1);
    assert_eq!(state.read.sequence_number, 1);

    // Handed over in parts
    let message = handoff_message(&state);
    let mut handoff = Handoff::new();
    let (a, rest) = message.split_at(10);
    let (b, c) = rest.split_at(100);
    assert!(!handoff.feed(a).unwrap());
    assert!(!handoff.feed(b).unwrap());
    assert!(handoff.feed(c).unwrap());
    assert_eq!(handoff.contents(), wire(&state));

    let Decoded { value, next } = SessionState::decode(handoff.contents(), DEFAULT_PROVIDER).unwrap();
    assert!(next.is_empty());
    let mut resumed = value.resume(DEFAULT_PROVIDER).unwrap();
    assert_eq!(resumed.addr, "198.51.100.1:9");
    assert!(!resumed.post_quantum_kx);
    assert_eq!(resumed.rekey.client_identity(), b"SSH-2.0-Client_1.0 test");
    assert!(resumed.rekey.strict_key_exchange().is_some());
    let second = read_payload(&mut resumed.read, b"");
    assert_eq!(second[5..], *b"late");
    resumed.write.handle_packet(&Ignore(b"reply"), None).unwrap();
    let reply = read_payload(&mut ends.client_read, &flush(&mut resumed.write));
    assert_eq!(reply[5..], *b"reply");

    // A new key exchange keeps the session ID
    let init = wire(&client_init("curve25519-sha256", &[]));
    let rekey = &resumed.rekey;
    let state = RekeyState::start(
        packet(MessageType::KeyExchangeInit, &init[1..]),
        rekey,
        DEFAULT_PROVIDER,
    )
    .unwrap();
    let RekeyState::AwaitExchange { kx } = &state else {
        panic!("key exchange not started");
    };
    resumed.write.handle_packet(&kx.local, None).unwrap();
    let i_s = read_payload(&mut ends.client_read, &flush(&mut resumed.write));
    let private = agreement::PrivateKey::generate(&X25519).unwrap();
    let q_c = private.compute_public_key().unwrap().as_ref().to_vec();
    let state = state
        .handle(
            packet(MessageType::KeyExchangeEcdhInit, &string(&q_c)),
            rekey,
            DEFAULT_PROVIDER,
        )
        .unwrap();
    let RekeyState::AwaitNewKeys { reply, keys: new_keys, post_quantum_kx: false } = &state else {
        panic!("no reply");
    };
    let secret = agreement::agree(
        &private,
        UnparsedPublicKey::new(&X25519, &reply.server_ephemeral_public_key),
        CryptoError::Failed,
        |secret| Ok(secret.to_vec()),
    )
    .unwrap();
    let reply = wire(reply);
    let (k_s, next) = decode_string(&reply[1..]);
    let (q_s, _) = decode_string(next);
    let mut hashed = Vec::new();
    for part in [
        b"SSH-2.0-Client_1.0 test".as_slice(),
        b"SSH-2.0-OxiSH/0.1.0",
        &init,
        &i_s,
        k_s,
        &q_c,
        q_s,
    ] {
        hashed.extend(string(part));
    }
    let mut k = Vec::new();
    encode_mpint(&secret, &mut k);
    hashed.extend_from_slice(&k);
    let hash = Sha256.digest(&hashed);
    let mut input = k.clone();
    input.extend_from_slice(&hash);
    input.push(b'A');
    input.extend_from_slice(&session_id);
    assert_eq!(
        new_keys.client_to_server.initial_iv,
        Sha256.digest(&input)[..12]
    );
    assert!(matches!(
        state.handle(packet(MessageType::NewKeys, &[]), rekey, DEFAULT_PROVIDER),
        Ok(RekeyState::Complete { post_quantum_kx: false, .. })
    ));
}

#[test]
fn sessions_handle_packets() {
    let keys = host_keys(&PublicKeyAlgorithm::Ed25519);
    let (mut ends, kx) = establish(&keys, &[]);
    let mut core = SessionCore {
        rekey: Rekey::new(
            kx.session_id,
            kx.strict_kx,
            kx.identities,
            SessionHostKey::from_server(kx.host_key, DEFAULT_PROVIDER).unwrap(),
        ),
        channels: Channels::default(),
        post_quantum_kx: kx.post_quantum_kx,
    };
    let mut handle = |number: u8, payload: &[u8], check: &dyn Fn(SessionAction<'_>) -> bool| {
        let mut encoder = Encoder::new(&mut ends.write);
        let action = core
            .handle(
                packet(MessageType::from(number), payload),
                &mut encoder,
                DEFAULT_PROVIDER,
            )
            .unwrap();
        let ok = check(action);
        ends.client_read.buf.extend_from_slice(ends.write.buffered());
        ends.write.clear();
        let mut sent = Vec::new();
        while let Some((sequence_number, length)) = ends.client_read.next_packet().unwrap() {
            let packet = ends.client_read.decode_packet(sequence_number, length).unwrap();
            sent.push(u8::from(packet.message_type));
        }
        (ok, sent)
    };
    let continues = |action: SessionAction<'_>| matches!(action, SessionAction::Continue);

    assert_eq!(handle(2, b"ignored", &continues), (true, vec![]));
    let mut global = string(b"tcpip-forward");
    global.push(1);
    assert_eq!(handle(80, &global, &continues), (true, vec![82]));
    let mut open = string(b"session");
    open.extend([0, 0, 0, 7, 0, 0, 16, 0, 0, 0, 16, 0]);
    assert_eq!(handle(90, &open, &continues), (true, vec![91]));

    // The banner follows the reply to the request for a terminal
    let mut pty = vec![0, 0, 0, 0];
    pty.extend(string(b"pty-req"));
    pty.push(1);
    pty.extend(string(b"xterm"));
    pty.extend([0, 0, 0, 80, 0, 0, 0, 24, 0, 0, 0, 0, 0, 0, 0, 0]);
    pty.extend(string(&[0]));
    assert_eq!(handle(98, &pty, &continues), (true, vec![99, 94]));

    let mut shell = vec![0, 0, 0, 0];
    shell.extend(string(b"shell"));
    shell.push(1);
    let spawns = |action: SessionAction<'_>| {
        matches!(action, SessionAction::Spawn { id: 0, want_reply: true, .. })
    };
    assert_eq!(handle(98, &shell, &spawns), (true, vec![]));
    let rekeys = |action: SessionAction<'_>| {
        matches!(action, SessionAction::Rekey(RekeyState::AwaitExchange { .. }))
    };
    let init = wire(&client_init("curve25519-sha256", &[]));
    assert_eq!(handle(20, &init[1..], &rekeys), (true, vec![]));
    let mut bye = vec![0, 0, 0, 11];
    bye.extend(string(b"bye"));
    bye.extend(string(b""));
    let leaves = |action: SessionAction<'_>| {
        matches!(
            action,
            SessionAction::Disconnected(Ok(disconnect)) if disconnect.description == "bye"
        )
    };
    assert_eq!(handle(1, &bye, &leaves), (true, vec![]));

    let mut encoder = Encoder::new(&mut ends.write);
    core.channels
        .shell_started(0, true, &mut encoder, None)
        .unwrap();
    let mut data = vec![0, 0, 0, 0];
    data.extend(string(b"ls\n"));
    assert!(matches!(
        core.handle(
            packet(MessageType::ChannelData, &data),
            &mut encoder,
            DEFAULT_PROVIDER
        ),
        Ok(SessionAction::Input(input)) if *input.data == *b"ls\n"
    ));
    assert!(matches!(
        core.handle(packet(MessageType::NewKeys, &[]), &mut encoder, DEFAULT_PROVIDER),
        Err(ProtoError::UnexpectedMessage(MessageType::NewKeys, _))
    ));
}

#[test]
fn handshake_messages_have_their_turns() {
    let keys = host_keys(&PublicKeyAlgorithm::Ed25519);
    let start = || {
        let (exchange, identities) = start_exchange(b"client".to_vec(), b"server\r\n");
        HandshakeState::AwaitInit {
            exchange,
            identities,
        }
    };
    let init = wire(&client_init("curve25519-sha256", &[]));
    let init = || packet(MessageType::KeyExchangeInit, &init[1..]);
    assert!(matches!(
        start().handle(packet(MessageType::NewKeys, &[]), &keys, DEFAULT_PROVIDER),
        Err(ProtoError::UnexpectedMessage(
            MessageType::NewKeys,
            [MessageType::KeyExchangeInit]
        ))
    ));
    let state = start().handle(init(), &keys, DEFAULT_PROVIDER).unwrap();
    assert!(matches!(
        state.handle(init(), &keys, DEFAULT_PROVIDER),
        Err(ProtoError::UnexpectedMessage(
            MessageType::KeyExchangeInit,
            [MessageType::KeyExchangeEcdhInit]
        ))
    ));
    let state = start().handle(init(), &keys, DEFAULT_PROVIDER).unwrap();
    let public = string(&[9; 32]);
    let mut trailing = public.clone();
    trailing.push(0);
    let ecdh_init = |payload| packet(MessageType::KeyExchangeEcdhInit, payload);
    assert!(matches!(
        state.handle(ecdh_init(&trailing), &keys, DEFAULT_PROVIDER),
        Err(ProtoError::InvalidPacket("unexpected trailing bytes"))
    ));
    let state = start().handle(init(), &keys, DEFAULT_PROVIDER).unwrap();
    let state = state
        .handle(ecdh_init(&public), &keys, DEFAULT_PROVIDER)
        .unwrap();
    assert!(matches!(
        state.handle(ecdh_init(&public), &keys, DEFAULT_PROVIDER),
        Err(ProtoError::UnexpectedMessage(
            MessageType::KeyExchangeEcdhInit,
            [MessageType::NewKeys]
        ))
    ));
}

#[test]
fn hybrid_secrets_are_hashed_as_strings() {
    let (key, _) = AwsLc
        .generate_signing_key(&PublicKeyAlgorithm::Ed25519)
        .unwrap();
    let complete = |key_exchange| {
        let negotiated = Negotiated {
            key_exchange,
            server_host_key: PublicKeyAlgorithm::Ed25519,
            encryption_client_to_server: EncryptionAlgorithm::Aes128Gcm,
            encryption_server_to_client: EncryptionAlgorithm::Aes128Gcm,
            want_extension_info: false,
            strict_key_exchange: false,
        };
        let hash = HandshakeBuffer::default().hash(AwsLc.hash(&negotiated.key_exchange).unwrap());
        let completed = CompletedKeyExchange {
            public_key: b"server".to_vec(),
            shared_secret: SharedSecret::new(vec![0x80, 1]),
        };
        let (_, exchange_hash, _) = EcdhKeyExchangeReply::with_secret(
            b"client",
            completed,
            &negotiated,
            hash,
            None,
            &key,
            DEFAULT_PROVIDER,
        )
        .unwrap();
        exchange_hash.as_bytes().to_vec()
    };
    let mut hashed = wire(&TaggedPublicKey {
        algorithm: PublicKeyAlgorithm::Ed25519,
        key: Cow::Borrowed(key.0.public_key()),
    });
    hashed.extend(string(b"client"));
    hashed.extend(string(b"server"));
    let mut mpint = hashed.clone();
    mpint.extend([0, 0, 0, 3, 0, 0x80, 1]);
    hashed.extend([0, 0, 0, 2, 0x80, 1]);
    assert_eq!(
        complete(KeyExchangeAlgorithm::Curve25519Sha256),
        Sha256.digest(&mpint)
    );
    assert_eq!(
        complete(KeyExchangeAlgorithm::MlKem768X25519Sha256),
        Sha256.digest(&hashed)
    );
}

#[test]
fn key_exchange_failures() {
    let keys = host_keys(&PublicKeyAlgorithm::Ed25519);
    let start = |init: &KeyExchangeInit<'_>| {
        KeyExchange::start(
            packet(MessageType::KeyExchangeInit, &wire(init)[1..]),
            HandshakeBuffer::default(),
            keys.algorithms(),
            &[],
            DEFAULT_PROVIDER,
        )
        .map(|_| ())
    };
    assert!(start(&client_init("curve25519-sha256", &[])).is_ok());
    assert!(matches!(
        start(&client_init("mlkem768x25519-sha256", &[])),
        Err(ProtoError::NoCommonAlgorithm("key exchange"))
    ));
    let mut init = client_init("curve25519-sha256", &[]);
    init.server_host_key_algorithms.clear();
    assert!(matches!(
        start(&init),
        Err(ProtoError::NoCommonAlgorithm("host key"))
    ));
    let mut init = client_init("curve25519-sha256", &[]);
    init.encryption_algorithms_client_to_server.clear();
    assert!(matches!(
        start(&init),
        Err(ProtoError::NoCommonAlgorithm("encryption (client to server)"))
    ));
    let mut init = client_init("curve25519-sha256", &[]);
    init.encryption_algorithms_server_to_client.clear();
    assert!(matches!(
        start(&init),
        Err(ProtoError::NoCommonAlgorithm("encryption (server to client)"))
    ));
    assert!(matches!(
        KeyExchange::start(
            packet(MessageType::NewKeys, &[]),
            HandshakeBuffer::default(),
            keys.algorithms(),
            &[],
            DEFAULT_PROVIDER,
        )
        .map(|_| ()),
        Err(ProtoError::UnexpectedMessage(MessageType::NewKeys, _))
    ));

    // A public value of the wrong length
    let (kx, _, _) = KeyExchange::start(
        packet(
            MessageType::KeyExchangeInit,
            &wire(&client_init("curve25519-sha256", &[]))[1..],
        ),
        HandshakeBuffer::default(),
        keys.algorithms(),
        &[],
        DEFAULT_PROVIDER,
    )
    .unwrap();
    let init = EcdhKeyExchangeInit {
        client_ephemeral_public_key: &[1; 31],
    };
    assert!(matches!(
        kx.complete(init, &keys, DEFAULT_PROVIDER).map(|_| ()),
        Err(CryptoError::Failed)
    ));
}

#[test]
fn host_keys_are_found_by_algorithm() {
    let (_, a) = AwsLc.generate_signing_key(&PublicKeyAlgorithm::Ed25519).unwrap();
    let (_, b) = AwsLc
        .generate_signing_key(&PublicKeyAlgorithm::EcdsaSha2Nistp256)
        .unwrap();
    let keys = HostKeys::new(vec![a.clone(), b.clone()], DEFAULT_PROVIDER).unwrap();
    assert!(keys
        .algorithms()
        .iter()
        .eq([PublicKeyAlgorithm::Ed25519, PublicKeyAlgorithm::EcdsaSha2Nistp256].iter()));
    assert_eq!(keys.key(&PublicKeyAlgorithm::Ed25519).unwrap().pkcs8, a);
    assert_eq!(
        keys.key(&PublicKeyAlgorithm::EcdsaSha2Nistp256).unwrap().pkcs8,
        b
    );
    let rsa = PublicKeyAlgorithm::Unknown(Cow::Borrowed("ssh-rsa"));
    assert!(matches!(
        keys.key(&rsa).map(|_| ()),
        Err(CryptoError::UnknownAlgorithm)
    ));
    assert!(matches!(
        HostKeys::new(vec![], DEFAULT_PROVIDER).map(|_| ()),
        Err(ProtoError::NoHostKeys)
    ));
    assert!(matches!(
        HostKeys::new(vec![vec![0; 9]], DEFAULT_PROVIDER).map(|_| ()),
        Err(ProtoError::Crypto(CryptoError::KeyRejected))
    ));

    let server = keys.key(&PublicKeyAlgorithm::Ed25519).unwrap();
    let bytes = wire(&server);
    assert_eq!(bytes, string(&a));
    let session = SessionHostKey::decode(&bytes, DEFAULT_PROVIDER).unwrap().value;
    assert_eq!(session.algorithm(), PublicKeyAlgorithm::Ed25519);
    assert_eq!(session.0 .0.public_key(), server.key.0.public_key());
    let session = SessionHostKey::from_server(server, DEFAULT_PROVIDER).unwrap();
    assert_eq!(session.algorithm(), PublicKeyAlgorithm::Ed25519);
}

struct GraviolaSigner {
    key: Ed25519SigningKey,
    public_key: [u8; 32],
}

impl SigningKey for GraviolaSigner {
    fn algorithm(&self) -> PublicKeyAlgorithm<'static> {
        PublicKeyAlgorithm::Ed25519
    }

    fn public_key(&self) -> &[u8] {
        &self.public_key
    }

    fn sign(&self, message: &[u8]) -> Vec<u8> {
        self.key.sign(message).to_vec()
    }
}

struct GraviolaVerifier(Ed25519VerifyingKey);

impl VerifyingKey for GraviolaVerifier {
    fn verify(&self, message: &[u8], signature: &[u8]) -> Result<(), CryptoError> {
        self.0
            .verify(signature, message)
            .map_err(|_| CryptoError::Failed)
    }
}

fn graviola_signer() -> Signer {
    let key = Ed25519SigningKey::generate().expect("failed to generate signing key");
    let public_key = key.public_key().as_bytes();
    Signer(Arc::new(Box::new(GraviolaSigner { key, public_key })))
}

fn graviola_verifier(public_key: &[u8]) -> Verifier {
    let key = Ed25519VerifyingKey::from_bytes(public_key).expect("failed to build verifying key");
    Verifier(Arc::new(Box::new(GraviolaVerifier(key))))
}

fn aws_lc_signer() -> Signer {
    let (key, _) = AwsLc
        .generate_signing_key(&PublicKeyAlgorithm::Ed25519)
        .expect("failed to generate signing key");
    key
}

fn aws_lc_verifier(public_key: &[u8]) -> Verifier {
    AwsLc
        .verifying_key(public_key, &PublicKeyAlgorithm::Ed25519)
        .expect("failed to build verifying key")
}

#[test]
fn verify_keys() {
    let signers: [fn() -> Signer; 2] = [aws_lc_signer, graviola_signer];
    let verifiers: [fn(&[u8]) -> Verifier; 2] = [aws_lc_verifier, graviola_verifier];

    for signer in signers {
        for verifier in verifiers {
            let signing_key = signer();

            let message = b"the quick brown fox";
            let signature = signing_key.0.sign(message);
            let verifying_key = verifier(signing_key.0.public_key());

            verifying_key
                .0
                .verify(message, &signature)
                .expect("valid signature should verify");

            verifying_key
                .0
                .verify(b"the quick brown cat", &signature)
                .expect_err("signature over a different message must not verify");
        }
    }
}

#[test]
fn parse_fake_keys() {
    assert!(fake_key(&PublicKeyAlgorithm::EcdsaSha2Nistp256, DEFAULT_PROVIDER).is_ok());
    assert!(fake_key(&PublicKeyAlgorithm::Ed25519, DEFAULT_PROVIDER).is_ok());
}

/// A client's key pair.
struct Client {
    key: Signer,
    algorithm: PublicKeyAlgorithm<'static>,
}

impl Client {
    fn new(algorithm: PublicKeyAlgorithm<'static>) -> Self {
        let (key, _) = AwsLc.generate_signing_key(&algorithm).unwrap();
        Client { key, algorithm }
    }

    fn blob(&self) -> Vec<u8> {
        let tagged = TaggedPublicKey {
            algorithm: self.algorithm.clone(),
            key: Cow::Borrowed(self.key.0.public_key()),
        };
        decode_string(&wire(&tagged)).0.to_vec()
    }

    fn line(&self, options: &str) -> String {
        format!(
            "{}{} {} someone@example",
            options,
            self.algorithm.name(),
            data_encoding::BASE64.encode(&self.blob())
        )
    }

    fn request(&self, user: &str, signed: Option<&[u8]>) -> Vec<u8> {
        let mut out = string(user.as_bytes());
        out.extend(string(b"ssh-connection"));
        out.extend(string(b"publickey"));
        out.push(u8::from(signed.is_some()));
        out.extend(string(self.algorithm.name().as_bytes()));
        out.extend(string(&self.blob()));
        if let Some(session_id) = signed {
            let mut input = string(session_id);
            input.push(50);
            input.extend_from_slice(&out);
            let signature = TaggedSignature::new(self.algorithm.clone(), self.key.0.sign(&input));
            out.extend(wire(&signature));
        }
        out
    }
}

fn store(line: &str) -> SingleUser {
    let name = Username::try_from("someone".to_owned()).unwrap();
    let entry = PasswdEntry {
        name: Some(b"someone".to_vec()),
        uid: 1000,
        gid: 100,
        home_dir: Some(b"/home/someone".to_vec()),
        shell: Some(b"".to_vec()),
    };
    let user = lookup(name, Some(entry)).unwrap();
    SingleUser(CachedUser {
        data: user,
        keys: authorized_keys(&format!("# keys\n\n{}\n", line), DEFAULT_PROVIDER),
    })
}

struct Auth {
    write: WriteState,
    session_id: Digest,
    store: SingleUser,
}

impl Auth {
    fn new(store: SingleUser) -> Self {
        Auth {
            write: WriteState::new(AwsLc.secure_random()),
            session_id: Digest::new(b"session"),
            store,
        }
    }

    fn handle(
        &mut self,
        state: AuthenticationState,
        number: u8,
        payload: &[u8],
    ) -> Result<AuthenticationState, Error> {
        state.handle(
            packet(MessageType::from(number), payload),
            &self.session_id,
            &mut self.write,
            Store(&self.store),
            DEFAULT_PROVIDER,
        )
    }

    fn reply(&mut self) -> Vec<u8> {
        let mut read = ReadState::default();
        let bytes = flush(&mut self.write);
        read_payload(&mut read, &bytes)
    }

    fn started(&mut self) -> AuthenticationState {
        let state = self
            .handle(AuthenticationState::default(), 5, &string(b"ssh-userauth"))
            .unwrap();
        let mut accept = vec![6];
        accept.extend(string(b"ssh-userauth"));
        assert_eq!(self.reply(), accept);
        state
    }
}

const AUTH_FAILED: [u8; 15] = *b"\x33\x00\x00\x00\x09publickey\x00";

#[test]
fn authentication_with_a_key() {
    for algorithm in [
        PublicKeyAlgorithm::Ed25519,
        PublicKeyAlgorithm::EcdsaSha2Nistp256,
    ] {
        let client = Client::new(algorithm);
        let mut auth = Auth::new(store(&client.line("command=\"ls\" ")));
        assert_eq!(auth.store.0.keys.len(), 1);
        let state = auth.started();

        // First without a signature: the key would do
        let state = auth.handle(state, 50, &client.request("someone", None)).unwrap();
        let mut pk_ok = vec![60];
        pk_ok.extend(string(client.algorithm.name().as_bytes()));
        pk_ok.extend(string(&client.blob()));
        assert_eq!(auth.reply(), pk_ok);

        // Then with one
        let request = client.request("someone", Some(b"session"));
        let state = auth.handle(state, 50, &request).unwrap();
        assert_eq!(auth.reply(), [52]);
        let AuthenticationState::Complete(user) = state else {
            panic!("not authenticated");
        };
        assert_eq!(user.name.as_str(), "someone");
        assert_eq!(user.id, 1000);
        assert_eq!(user.gid, 100);
        assert_eq!(user.home_dir, b"/home/someone");
        assert_eq!(user.shell, b"/bin/sh");
        assert_eq!(user.options.unwrap().command.as_deref(), Some("ls"));
    }
}

#[test]
fn authentication_is_refused() {
    let client = Client::new(PublicKeyAlgorithm::Ed25519);
    let other = Client::new(PublicKeyAlgorithm::Ed25519);
    let mut auth = Auth::new(store(&client.line("")));
    let mut state = auth.started();

    let mut none = string(b"someone");
    none.extend(string(b"ssh-connection"));
    none.extend(string(b"none"));
    let requests = [
        none,
        // Another key
        other.request("someone", Some(b"session")),
        // A signature over another session
        client.request("someone", Some(b"another")),
        // Another user
        client.request("root", Some(b"session")),
        other.request("someone", Some(b"")),
    ];
    for request in &requests {
        state = auth.handle(state, 50, request).unwrap();
        assert_eq!(auth.reply(), AUTH_FAILED);
        assert!(matches!(state, AuthenticationState::AwaitAuthRequest { .. }));
    }
    assert!(matches!(
        auth.handle(state, 50, &requests[0]),
        Err(Error::Auth(AuthError::TooManyAttempts))
    ));
}

/// A provider whose verifying keys accept any signature.
struct Credulous;

struct AcceptsAll;

impl VerifyingKey for AcceptsAll {
    fn verify(&self, _message: &[u8], _signature: &[u8]) -> Result<(), CryptoError> {
        Ok(())
    }
}

impl CryptoProvider for Credulous {
    fn secure_random(&self) -> RandomSource {
        AwsLc.secure_random()
    }

    fn supported_algorithms(&self) -> &'static SupportedAlgorithms {
        AwsLc.supported_algorithms()
    }

    fn hash(&self, algorithm: &KeyExchangeAlgorithm<'_>) -> Result<HashFunction, CryptoError> {
        AwsLc.hash(algorithm)
    }

    fn key_exchange(
        &self,
        algorithm: &KeyExchangeAlgorithm<'_>,
    ) -> Result<KeyAgreement, CryptoError> {
        AwsLc.key_exchange(algorithm)
    }

    fn opening_key(&self, counter: u64, source: &KeySourceSide) -> Result<Opener, CryptoError> {
        AwsLc.opening_key(counter, source)
    }

    fn sealing_key(&self, counter: u64, source: &KeySourceSide) -> Result<Sealer, CryptoError> {
        AwsLc.sealing_key(counter, source)
    }

    fn verifying_key(
        &self,
        _public_key: &[u8],
        _algorithm: &PublicKeyAlgorithm<'_>,
    ) -> Result<Verifier, CryptoError> {
        Ok(Verifier(Arc::new(Box::new(AcceptsAll))))
    }

    fn signing_key(&self, pkcs8: &[u8]) -> Result<Signer, CryptoError> {
        AwsLc.signing_key(pkcs8)
    }

    fn generate_signing_key(
        &self,
        algorithm: &PublicKeyAlgorithm<'_>,
    ) -> Result<(Signer, Vec<u8>), CryptoError> {
        AwsLc.generate_signing_key(algorithm)
    }
}

#[test]
fn fake_keys_authenticate_nobody() {
    let client = Client::new(PublicKeyAlgorithm::Ed25519);
    let mut auth = Auth::new(store("# no keys"));
    assert!(auth.store.0.keys.is_empty());
    let mut state = auth.started();
    // Once for a user without keys, once for an unknown one
    for name in ["someone", "stranger"] {
        let request = client.request(name, Some(b"session"));
        state = state
            .handle(
                packet(MessageType::UserAuthRequest, &request),
                &auth.session_id,
                &mut auth.write,
                Store(&auth.store),
                Provider(&Credulous),
            )
            .unwrap();
        assert_eq!(auth.reply(), AUTH_FAILED);
        assert!(matches!(state, AuthenticationState::AwaitAuthRequest { .. }));
    }
}

#[test]
fn authentication_out_of_order() {
    let client = Client::new(PublicKeyAlgorithm::Ed25519);
    let mut auth = Auth::new(store(&client.line("")));
    let unexpected = "unexpected packet received during authentication";
    assert!(matches!(
        auth.handle(AuthenticationState::default(), 50, &client.request("someone", None)),
        Err(Error::InvalidState(text)) if text == unexpected
    ));
    assert!(matches!(
        auth.handle(AuthenticationState::default(), 5, &string(b"ssh-connection")),
        Err(Error::Proto(ProtoError::ServiceNotAvailable(_)))
    ));
    assert!(matches!(
        auth.handle(AuthenticationState::default(), 2, b"anything"),
        Ok(AuthenticationState::AwaitServiceRequest)
    ));
    let state = auth.started();
    assert!(matches!(
        auth.handle(state, 1, &[]),
        Err(Error::Auth(AuthError::Canceled))
    ));
    let state = auth.started();
    assert!(matches!(
        auth.handle(state, 5, &string(b"ssh-userauth")),
        Err(Error::InvalidState(text)) if text == unexpected
    ));

    // Another service than the connection
    let state = auth.started();
    let mut request = string(b"someone");
    request.extend(string(b"ssh-userauth"));
    request.extend(string(b"none"));
    assert!(matches!(
        auth.handle(state, 50, &request),
        Err(Error::Proto(ProtoError::ServiceNotAvailable(
            "only connection service is supported"
        )))
    ));

    // A name that no user can have
    let state = auth.started();
    let state = auth.handle(state, 50, &client.request("", None)).unwrap();
    assert_eq!(auth.reply(), AUTH_FAILED);
    assert!(matches!(
        state,
        AuthenticationState::AwaitAuthRequest { cached: None, attempts: 5 }
    ));
}

#[test]
fn authentication_farewells() {
    let said = |error: Error| {
        let disconnect = disconnect_for(&error);
        (disconnect.reason_code.code(), disconnect.description)
    };
    assert_eq!(
        said(Error::Auth(AuthError::TooManyAttempts)),
        (11, "too many authentication attempts")
    );
    assert_eq!(
        said(Error::Auth(AuthError::Canceled)),
        (11, "authentication failed")
    );
    assert_eq!(said(Error::InvalidState("why")), (11, "why"));
    assert_eq!(said(Error::InvalidUsername), (15, "invalid username"));
    assert_eq!(
        said(Error::Proto(ProtoError::ServiceNotAvailable("which"))),
        (7, "which")
    );
    assert_eq!(
        said(Error::Proto(ProtoError::NoHostKeys)),
        (11, "authentication failed")
    );
    assert_eq!(timed_out().reason_code.code(), 11);
    assert_eq!(timed_out().description, "authentication timed out");
}

#[test]
fn authorized_keys_lines() {
    let client = Client::new(PublicKeyAlgorithm::Ed25519);
    let parse = |line: &str| {
        AuthorizedKey::from_str(line, DEFAULT_PROVIDER)
    };
    let key = parse(&client.line("")).unwrap();
    assert_eq!(*key.algorithm(), PublicKeyAlgorithm::Ed25519);
    assert!(key.key_option().is_none());
    let blob = client.blob();
    assert!(key.matches(&RequestedKey {
        algorithm: PublicKeyAlgorithm::Ed25519,
        key_blob: &blob,
        signature: None,
    }));
    assert!(!key.matches(&RequestedKey {
        algorithm: PublicKeyAlgorithm::EcdsaSha2Nistp256,
        key_blob: &blob,
        signature: None,
    }));
    assert!(!key.matches(&RequestedKey {
        algorithm: PublicKeyAlgorithm::Ed25519,
        key_blob: &blob[1..],
        signature: None,
    }));
    assert!(parse("").is_none());
    assert!(parse("# comment").is_none());
    assert!(parse("ssh-ed25519").is_none());
    assert!(parse("ssh-ed25519 !!!!").is_none());
    assert!(parse("ssh-rsa AAAA").is_none());
    // Base64 of something else than the key of the stated algorithm
    let mismatch = client.line("").replace("ssh-ed25519 ", "ecdsa-sha2-nistp256 ");
    assert!(parse(&mismatch).is_none());
}

#[test]
fn authorized_keys_of_a_file() {
    let a = Client::new(PublicKeyAlgorithm::Ed25519);
    let b = Client::new(PublicKeyAlgorithm::EcdsaSha2Nistp256);
    let contents = format!("{}\r\n# no key\n\n{}\nnonsense", a.line(""), b.line(""));
    let keys = authorized_keys(&contents, DEFAULT_PROVIDER);
    assert_eq!(keys.len(), 2);
    assert_eq!(*keys[0].algorithm(), PublicKeyAlgorithm::Ed25519);
    assert_eq!(*keys[1].algorithm(), PublicKeyAlgorithm::EcdsaSha2Nistp256);
}
