//! The state of a connection as it is handed over to the process that runs the session.

use vstd::prelude::*;
use vstd::utf8::{decode_utf8, encode_utf8, valid_utf8};

use crate::crypto::{copied, Digest, KeyLengths, KeySourceSide, KeySourceSideView, Provider};
use crate::crypto::Signer;
use crate::error::{CryptoError, Error, ProtoError};
use crate::host_keys::{host_key_round_trip, ServerHostKey, SessionHostKey};
use crate::io::{ReadState, WriteState};
use crate::key_exchange::{identities_round_trip, parse_identities, Identities, IdentitiesView};
use crate::key_exchange::{KeyExchangeOutput, Rekey, StrictKeyExchange};
use crate::named::{name_round_trip, name_wire, parse_name, EncryptionAlgorithm};
use crate::named::{EncryptionAlgorithmView, Named};
use crate::text::from_utf8;
use crate::wire::{bool_round_trip, bool_wire, parse_bool, parse_string};
use crate::wire::{parse_u32, parse_u64, put_string, string_round_trip, string_wire};
use crate::wire::{text_round_trip, text_wire, u32_round_trip, u32_wire, u64_round_trip, u64_wire};
use crate::wire::{Decode, Decoded, Encode, Parsed};

verus! {

/// The state of one direction of a connection.
#[derive(Debug)]
pub struct SideState {
    /// The key material.
    pub source: KeySourceSide,
    /// The number of packets encrypted or decrypted with the current keys.
    pub counter: u64,
    /// The sequence number of the next packet.
    pub sequence_number: u32,
}

/// What a [`SideState`] holds.
#[verifier::ext_equal]
pub struct SideStateView {
    /// The encryption algorithm.
    pub algorithm: EncryptionAlgorithmView,
    /// The encryption key.
    pub encryption_key: Seq<u8>,
    /// The initial value of the initialization vector.
    pub initial_iv: Seq<u8>,
    /// The number of packets encrypted or decrypted with the current keys.
    pub counter: u64,
    /// The sequence number of the next packet.
    pub sequence_number: u32,
}

impl View for SideState {
    type V = SideStateView;

    open spec fn view(&self) -> SideStateView {
        SideStateView {
            algorithm: self.source.algorithm@,
            encryption_key: self.source.encryption_key@,
            initial_iv: self.source.initial_iv@,
            counter: self.counter,
            sequence_number: self.sequence_number,
        }
    }
}

impl SideStateView {
    /// The fields one after another.
    pub open spec fn bytes(self) -> Seq<u8> {
        name_wire::<EncryptionAlgorithm>(self.algorithm) + (string_wire(self.encryption_key) + (
        string_wire(self.initial_iv) + (u64_wire(self.counter) + u32_wire(self.sequence_number))))
    }

    /// The key material.
    pub open spec fn source(self) -> KeySourceSideView {
        KeySourceSideView {
            algorithm: self.algorithm,
            initial_iv: self.initial_iv,
            encryption_key: self.encryption_key,
        }
    }

    /// The algorithm is known, and the keys have the lengths that it takes.
    pub open spec fn wf(self) -> bool {
        match self.algorithm.key_lengths() {
            Some(lengths) => {
                &&& self.encryption_key.len() == lengths.key_len
                &&& self.initial_iv.len() == lengths.iv_len
            },
            None => false,
        }
    }
}

/// What decoding the state of a direction gives.
pub open spec fn parse_side(bytes: Seq<u8>) -> Parsed<SideStateView> {
    match parse_name::<EncryptionAlgorithm>(bytes) {
        Err(e) => Err(e),
        Ok((algorithm, next)) => match algorithm.key_lengths() {
            None => Err(ProtoError::InvalidPacket("unsupported encryption algorithm")),
            Some(lengths) => match parse_string(next) {
                Err(e) => Err(e),
                Ok((encryption_key, next)) => if encryption_key.len() != lengths.key_len {
                    Err(ProtoError::InvalidPacket("invalid encryption key length"))
                } else {
                    match parse_string(next) {
                        Err(e) => Err(e),
                        Ok((initial_iv, next)) => if initial_iv.len() != lengths.iv_len {
                            Err(ProtoError::InvalidPacket("invalid IV length"))
                        } else {
                            match parse_u64(next) {
                                Err(e) => Err(e),
                                Ok((counter, next)) => match parse_u32(next) {
                                    Err(e) => Err(e),
                                    Ok((sequence_number, next)) => Ok(
                                        (
                                            SideStateView {
                                                algorithm,
                                                encryption_key,
                                                initial_iv,
                                                counter,
                                                sequence_number,
                                            },
                                            next,
                                        ),
                                    ),
                                },
                            }
                        },
                    }
                },
            },
        },
    }
}

impl Encode for SideState {
    open spec fn wire(&self) -> Seq<u8> {
        self@.bytes()
    }

    fn encode(&self, buf: &mut Vec<u8>) {
        let SideState { source, counter, sequence_number } = self;

        source.algorithm.encode(buf);
        source.encryption_key.as_slice().encode(buf);
        source.initial_iv.as_slice().encode(buf);
        counter.encode(buf);
        sequence_number.encode(buf);
        assert(buf@ =~= old(buf)@ + self@.bytes());
    }
}

impl<'a> Decode<'a> for SideState {
    type Model = SideStateView;

    open spec fn model(&self) -> SideStateView {
        self@
    }

    open spec fn parse(bytes: Seq<u8>) -> Parsed<SideStateView> {
        parse_side(bytes)
    }

    fn decode(bytes: &'a [u8]) -> (r: Result<Decoded<'a, Self>, ProtoError>) {
        let Decoded { value: algorithm, next } = EncryptionAlgorithm::decode(bytes)?;

        let Some(KeyLengths { key_len, iv_len }) = algorithm.lengths() else {
            return Err(ProtoError::InvalidPacket("unsupported encryption algorithm"));
        };

        let Decoded { value: encryption_key, next } = <&[u8]>::decode(next)?;
        if encryption_key.len() != key_len {
            return Err(ProtoError::InvalidPacket("invalid encryption key length"));
        }
        let Decoded { value: initial_iv, next } = <&[u8]>::decode(next)?;
        if initial_iv.len() != iv_len {
            return Err(ProtoError::InvalidPacket("invalid IV length"));
        }
        let Decoded { value: counter, next } = u64::decode(next)?;

        let Decoded { value: sequence_number, next } = u32::decode(next)?;

        Ok(
            Decoded {
                value: SideState {
                    source: KeySourceSide {
                        algorithm: algorithm.to_owned(),
                        initial_iv: copied(initial_iv),
                        encryption_key: copied(encryption_key),
                    },
                    counter,
                    sequence_number,
                },
                next,
            },
        )
    }
}

/// Keys that were derived in a key exchange can be handed over.
pub proof fn derived_keys_fit(
    side: SideState,
    derivation: crate::crypto::KeyDerivationView,
    algorithm: EncryptionAlgorithmView,
    iv_letter: u8,
    key_letter: u8,
)
    requires
        side.source.derived(derivation, algorithm, iv_letter, key_letter),
    ensures
        side@.wf(),
{
}

/// The state of a direction is read back as it was written, whatever follows it.
pub proof fn side_round_trip(side: SideStateView, rest: Seq<u8>)
    requires
        side.wf(),
    ensures
        parse_side(side.bytes() + rest) == Ok::<(SideStateView, Seq<u8>), ProtoError>((side, rest)),
{
    let name = EncryptionAlgorithm::spec_name(side.algorithm);
    reveal_strlit("aes128-gcm@openssh.com");
    vstd::utf8::is_ascii_chars_encode_utf8("aes128-gcm@openssh.com"@);
    let tail4 = u32_wire(side.sequence_number) + rest;
    let tail3 = u64_wire(side.counter) + tail4;
    let tail2 = string_wire(side.initial_iv) + tail3;
    let tail1 = string_wire(side.encryption_key) + tail2;
    assert(side.bytes() + rest =~= name_wire::<EncryptionAlgorithm>(side.algorithm) + tail1);
    name_round_trip::<EncryptionAlgorithm>(side.algorithm, tail1);
    string_round_trip(side.encryption_key, tail2);
    string_round_trip(side.initial_iv, tail3);
    u64_round_trip(side.counter, tail4);
    u32_round_trip(side.sequence_number, rest);
}

/// The state needed to resume an authenticated connection in a session process.
pub struct SessionState<H> {
    /// The address of the client.
    pub addr: String,
    /// The host key.
    pub host_key: H,
    /// The identities exchanged after connection acceptance.
    pub identities: Identities,
    /// Whether post-quantum key exchange was negotiated.
    pub post_quantum_kx: bool,
    /// The strict key exchange state, if negotiated.
    pub strict_kx: Option<StrictKeyExchange>,
    /// The session ID for the connection.
    pub session_id: Digest,
    /// The state for packets from the client.
    pub read: SideState,
    /// The state for packets to the client.
    pub write: SideState,
    /// Residual inbound bytes already drained from the socket (pipelined packets).
    pub read_buf: Vec<u8>,
}

/// What a [`SessionState`] holds, besides the host key.
#[verifier::ext_equal]
pub struct SessionStateView {
    /// The address of the client.
    pub addr: Seq<char>,
    /// The identities exchanged after connection acceptance.
    pub identities: IdentitiesView,
    /// Whether post-quantum key exchange was negotiated.
    pub post_quantum_kx: bool,
    /// Whether strict key exchange was negotiated.
    pub strict_kx: bool,
    /// The session ID for the connection.
    pub session_id: Seq<u8>,
    /// The state for packets from the client.
    pub read: SideStateView,
    /// The state for packets to the client.
    pub write: SideStateView,
    /// Residual inbound bytes.
    pub read_buf: Seq<u8>,
}

impl<H> View for SessionState<H> {
    type V = SessionStateView;

    open spec fn view(&self) -> SessionStateView {
        SessionStateView {
            addr: self.addr@,
            identities: self.identities@,
            post_quantum_kx: self.post_quantum_kx,
            strict_kx: self.strict_kx is Some,
            session_id: self.session_id@,
            read: self.read@,
            write: self.write@,
            read_buf: self.read_buf@,
        }
    }
}

impl SessionStateView {
    /// The fields one after another, with the private value of the host key.
    pub open spec fn bytes(self, pkcs8: Seq<u8>) -> Seq<u8> {
        text_wire(self.addr) + (string_wire(pkcs8) + (self.identities.bytes() + (bool_wire(
            self.post_quantum_kx,
        ) + (bool_wire(self.strict_kx) + (string_wire(self.session_id) + (self.read.bytes() + (
        self.write.bytes() + string_wire(self.read_buf))))))))
    }

    /// The fields fit their length fields, and the keys have the right lengths.
    pub open spec fn wf(self) -> bool {
        &&& encode_utf8(self.addr).len() <= u32::MAX
        &&& self.identities.client.len() <= u32::MAX
        &&& self.identities.server.len() <= u32::MAX
        &&& self.session_id.len() <= u32::MAX
        &&& self.read.wf()
        &&& self.write.wf()
        &&& self.read_buf.len() <= u32::MAX
    }
}

impl Encode for SessionState<ServerHostKey<'_>> {
    open spec fn wire(&self) -> Seq<u8> {
        self@.bytes(self.host_key.pkcs8@)
    }

    fn encode(&self, buf: &mut Vec<u8>) {
        let SessionState {
            addr,
            host_key,
            identities,
            post_quantum_kx,
            strict_kx,
            session_id,
            read,
            write,
            read_buf,
        } = self;

        put_string(buf, addr.as_str());
        host_key.encode(buf);
        identities.encode(buf);
        post_quantum_kx.encode(buf);
        strict_kx.encode(buf);
        session_id.as_bytes().encode(buf);
        read.encode(buf);
        write.encode(buf);
        read_buf.as_slice().encode(buf);
        assert(buf@ =~= old(buf)@ + self.wire());
    }
}

/// What decoding the address of the client at the start of a session state gives.
pub open spec fn parse_addr(bytes: Seq<u8>) -> Parsed<Seq<char>> {
    match parse_string(bytes) {
        Err(e) => Err(e),
        Ok((addr, next)) => if valid_utf8(addr) {
            Ok((decode_utf8(addr), next))
        } else {
            Err(ProtoError::InvalidPacket("invalid UTF-8 in peer address"))
        },
    }
}

/// What decoding a session state gives, with the host key.
pub open spec fn parse_state(bytes: Seq<u8>, provider: Provider<'_>) -> Parsed<
    (SessionStateView, Signer),
> {
    match parse_addr(bytes) {
        Err(e) => Err(e),
        Ok((addr, next)) => match SessionHostKey::parse(next, provider) {
            Err(e) => Err(e),
            Ok((host_key, next)) => match parse_identities(next) {
                Err(e) => Err(e),
                Ok((identities, next)) => match parse_bool(next) {
                    Err(e) => Err(e),
                    Ok((post_quantum_kx, next)) => match parse_bool(next) {
                        Err(e) => Err(e),
                        Ok((strict_kx, next)) => match parse_string(next) {
                            Err(e) => Err(e),
                            Ok((session_id, next)) => match parse_side(next) {
                                Err(e) => Err(e),
                                Ok((read, next)) => match parse_side(next) {
                                    Err(e) => Err(e),
                                    Ok((write, next)) => match parse_string(next) {
                                        Err(e) => Err(e),
                                        Ok((read_buf, next)) => Ok(
                                            (
                                                (
                                                    SessionStateView {
                                                        addr,
                                                        identities,
                                                        post_quantum_kx,
                                                        strict_kx,
                                                        session_id,
                                                        read,
                                                        write,
                                                        read_buf,
                                                    },
                                                    host_key,
                                                ),
                                                next,
                                            ),
                                        ),
                                    },
                                },
                            },
                        },
                    },
                },
            },
        },
    }
}

/// Decode the address of the client at the start of a session state.
pub fn decode_addr(bytes: &[u8]) -> (r: Result<Decoded<'_, &str>, ProtoError>)
    ensures
        parse_addr(bytes@) == match r {
            Ok(d) => Ok::<(Seq<char>, Seq<u8>), ProtoError>((d.value@, d.next@)),
            Err(e) => Err::<(Seq<char>, Seq<u8>), ProtoError>(e),
        },
{
    let Decoded { value: addr, next } = <&[u8]>::decode(bytes)?;
    let Some(addr) = from_utf8(addr) else {
        return Err(ProtoError::InvalidPacket("invalid UTF-8 in peer address"));
    };
    Ok(Decoded { value: addr, next })
}

impl SessionState<SessionHostKey> {
    /// Decode a session state from the start of `bytes`.
    ///
    /// The address is taken as it is.
    pub fn decode<'a>(bytes: &'a [u8], provider: Provider<'_>) -> (r: Result<
        Decoded<'a, Self>,
        ProtoError,
    >)
        ensures
            parse_state(bytes@, provider) == match r {
                Ok(d) => Ok::<((SessionStateView, Signer), Seq<u8>), ProtoError>(
                    ((d.value@, d.value.host_key.0), d.next@),
                ),
                Err(e) => Err::<((SessionStateView, Signer), Seq<u8>), ProtoError>(e),
            },
    {
        let Decoded { value: addr, next } = decode_addr(bytes)?;
        let Decoded { value: host_key, next } = SessionHostKey::decode(next, provider)?;
        let Decoded { value: identities, next } = Identities::decode(next)?;
        let Decoded { value: post_quantum_kx, next } = bool::decode(next)?;
        let Decoded { value: strict_kx, next } = Option::<StrictKeyExchange>::decode(next)?;
        let Decoded { value: session_id, next } = <&[u8]>::decode(next)?;
        let Decoded { value: read, next } = SideState::decode(next)?;
        let Decoded { value: write, next } = SideState::decode(next)?;
        let Decoded { value: read_buf, next } = <&[u8]>::decode(next)?;

        Ok(
            Decoded {
                value: SessionState {
                    addr: addr.to_owned(),
                    host_key,
                    identities,
                    post_quantum_kx,
                    strict_kx,
                    session_id: Digest::new(session_id),
                    read,
                    write,
                    read_buf: copied(read_buf),
                },
                next,
            },
        )
    }
}

/// A session state is read back as it was written, with the host key that its private value
/// stands for, whatever follows it.
pub proof fn session_state_round_trip(
    state: SessionStateView,
    host_key: ServerHostKey<'_>,
    provider: Provider<'_>,
    rest: Seq<u8>,
)
    requires
        state.wf(),
        host_key.pkcs8@.len() <= u32::MAX,
        provider.0.spec_signing_key(host_key.pkcs8@) == Ok::<Signer, CryptoError>(*host_key.key),
    ensures
        parse_state(state.bytes(host_key.pkcs8@) + rest, provider) == Ok::<
            ((SessionStateView, Signer), Seq<u8>),
            ProtoError,
        >(((state, *host_key.key), rest)),
{
    let t8 = string_wire(state.read_buf) + rest;
    let t7 = state.write.bytes() + t8;
    let t6 = state.read.bytes() + t7;
    let t5 = string_wire(state.session_id) + t6;
    let t4 = bool_wire(state.strict_kx) + t5;
    let t3 = bool_wire(state.post_quantum_kx) + t4;
    let t2 = state.identities.bytes() + t3;
    let t1 = string_wire(host_key.pkcs8@) + t2;
    lemma_state_bytes(state, host_key.pkcs8@, rest);
    text_round_trip(state.addr, t1);
    host_key_round_trip(host_key, provider, t2);
    identities_round_trip(state.identities, t3);
    bool_round_trip(state.post_quantum_kx, t4);
    bool_round_trip(state.strict_kx, t5);
    string_round_trip(state.session_id, t6);
    side_round_trip(state.read, t7);
    side_round_trip(state.write, t8);
    string_round_trip(state.read_buf, rest);
}

proof fn lemma_state_bytes(state: SessionStateView, pkcs8: Seq<u8>, rest: Seq<u8>)
    ensures
        state.bytes(pkcs8) + rest == text_wire(state.addr) + (string_wire(pkcs8) + (
        state.identities.bytes() + (bool_wire(state.post_quantum_kx) + (bool_wire(state.strict_kx)
            + (string_wire(state.session_id) + (state.read.bytes() + (state.write.bytes() + (
        string_wire(state.read_buf) + rest)))))))),
{
    let b8 = string_wire(state.read_buf);
    let b7 = state.write.bytes() + b8;
    let b6 = state.read.bytes() + b7;
    let b5 = string_wire(state.session_id) + b6;
    let b4 = bool_wire(state.strict_kx) + b5;
    let b3 = bool_wire(state.post_quantum_kx) + b4;
    let b2 = state.identities.bytes() + b3;
    let b1 = string_wire(pkcs8) + b2;
    lemma_append(state.write.bytes(), b8, rest);
    lemma_append(state.read.bytes(), b7, rest);
    lemma_append(string_wire(state.session_id), b6, rest);
    lemma_append(bool_wire(state.strict_kx), b5, rest);
    lemma_append(bool_wire(state.post_quantum_kx), b4, rest);
    lemma_append(state.identities.bytes(), b3, rest);
    lemma_append(string_wire(pkcs8), b2, rest);
    lemma_append(text_wire(state.addr), b1, rest);
}

proof fn lemma_append(a: Seq<u8>, b: Seq<u8>, rest: Seq<u8>)
    ensures
        (a + b) + rest == a + (b + rest),
{
    assert((a + b) + rest =~= a + (b + rest));
}

impl<'h> SessionState<ServerHostKey<'h>> {
    /// The state of a connection after authentication, to be handed over.
    ///
    /// The last packet is dropped from the incoming data. All that was enqueued must have been
    /// sent.
    pub fn from_connection(
        addr: String,
        kx: KeyExchangeOutput<'h>,
        read: &mut ReadState,
        write: &WriteState,
    ) -> (r: Result<Self, Error>)
        requires
            old(read).wf(),
            write.wf(),
        ensures
            match r {
                Ok(state) => {
                    &&& write.sent() == write.queued().len()
                    &&& state.host_key == kx.host_key
                    &&& state@ == handed_over(addr@, kx, *old(read), *write)
                },
                Err(e) => {
                    &&& write.sent() < write.queued().len()
                    &&& e == Error::InvalidState("unflushed bytes in write buffer")
                },
            },
    {
        if write.buffered().len() != 0 {
            return Err(Error::InvalidState("unflushed bytes in write buffer"));
        }
        // Compact the bytes of the last decoded packet, which are still at the front of
        // the buffer (they are usually dropped at the start of the next `poll_packet()`).
        let read_buf = read.take_arrived();

        let read_counter: u64 = match &read.opener {
            Some(opener) => opener.0.counter(),
            None => 0,
        };
        let write_counter: u64 = match &write.sealer {
            Some(sealer) => sealer.0.counter(),
            None => 0,
        };
        Ok(
            SessionState {
                addr,
                host_key: kx.host_key,
                identities: kx.identities,
                post_quantum_kx: kx.post_quantum_kx,
                strict_kx: kx.strict_kx,
                session_id: kx.session_id,
                read: SideState {
                    source: kx.keys.client_to_server,
                    counter: read_counter,
                    sequence_number: read.sequence_number,
                },
                write: SideState {
                    source: kx.keys.server_to_client,
                    counter: write_counter,
                    sequence_number: write.sequence_number,
                },
                read_buf,
            },
        )
    }
}

/// The state of a connection as it is handed over.
pub open spec fn handed_over(
    addr: Seq<char>,
    kx: KeyExchangeOutput<'_>,
    read: ReadState,
    write: WriteState,
) -> SessionStateView {
    SessionStateView {
        addr,
        identities: kx.identities@,
        post_quantum_kx: kx.post_quantum_kx,
        strict_kx: kx.strict_kx is Some,
        session_id: kx.session_id@,
        read: SideStateView {
            algorithm: kx.keys.client_to_server.algorithm@,
            encryption_key: kx.keys.client_to_server.encryption_key@,
            initial_iv: kx.keys.client_to_server.initial_iv@,
            counter: match read.opener {
                Some(opener) => opener.0.spec_counter(),
                None => 0,
            },
            sequence_number: read.sequence_number,
        },
        write: SideStateView {
            algorithm: kx.keys.server_to_client.algorithm@,
            encryption_key: kx.keys.server_to_client.encryption_key@,
            initial_iv: kx.keys.server_to_client.initial_iv@,
            counter: match write.sealer {
                Some(sealer) => sealer.0.spec_counter(),
                None => 0,
            },
            sequence_number: write.sequence_number,
        },
        read_buf: read.arrived(),
    }
}

/// A connection in the process that runs the session.
pub struct Resumed {
    /// The address of the client.
    pub addr: String,
    /// The state for packets from the client.
    pub read: ReadState,
    /// The state for packets to the client.
    pub write: WriteState,
    /// The state for new key exchanges.
    pub rekey: Rekey,
    /// Whether post-quantum key exchange was negotiated.
    pub post_quantum_kx: bool,
}

impl SessionState<SessionHostKey> {
    /// Set the connection up again from the state that was handed over.
    pub fn resume(self, provider: Provider<'_>) -> (r: Result<Resumed, CryptoError>)
        ensures
            match (
                provider.0.spec_opening_key(self@.read.counter, self@.read.source()),
                provider.0.spec_sealing_key(self@.write.counter, self@.write.source()),
            ) {
                (Err(e), _) => r matches Err(error) && error == e,
                (_, Err(e)) => r matches Err(error) && error == e,
                (Ok(opener), Ok(sealer)) => {
                    &&& r matches Ok(resumed)
                    &&& resumed.addr@ == self@.addr
                    &&& resumed.post_quantum_kx == self@.post_quantum_kx
                    &&& resumed.read.buf@ == self@.read_buf
                    &&& resumed.read.last_length == 0
                    &&& resumed.read.sequence_number == self@.read.sequence_number
                    &&& resumed.read.opener == Some(opener)
                    &&& opener.0.spec_counter() == self@.read.counter
                    &&& resumed.write.queued() == Seq::<u8>::empty()
                    &&& resumed.write.sent() == 0
                    &&& resumed.write.sequence_number == self@.write.sequence_number
                    &&& resumed.write.sealer == Some(sealer)
                    &&& resumed.write.secure_random == provider.0.spec_secure_random()
                    &&& sealer.0.spec_counter() == self@.write.counter
                    &&& resumed.rekey.session_id@ == self@.session_id
                    &&& resumed.rekey.identities@ == self@.identities
                    &&& resumed.rekey.strict_kx is Some == self@.strict_kx
                    &&& resumed.rekey.host_key == self.host_key
                },
            },
    {
        let SessionState {
            addr,
            host_key,
            identities,
            post_quantum_kx,
            strict_kx,
            session_id,
            read,
            write,
            read_buf,
        } = self;

        let opener = provider.0.opening_key(read.counter, &read.source)?;
        let sealer = provider.0.sealing_key(write.counter, &write.source)?;

        let mut write_state = WriteState::new(provider.0.secure_random());
        write_state.sequence_number = write.sequence_number;
        write_state.sealer = Some(sealer);

        Ok(
            Resumed {
                addr,
                read: ReadState {
                    buf: read_buf,
                    last_length: 0,
                    sequence_number: read.sequence_number,
                    opener: Some(opener),
                },
                write: write_state,
                rekey: Rekey::new(session_id, strict_kx, identities, host_key),
                post_quantum_kx,
            },
        )
    }
}

} // verus!
