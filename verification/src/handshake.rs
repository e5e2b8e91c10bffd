//! The start of a connection: identification and the first key exchange.

use vstd::prelude::*;
use vstd::slice::slice_subrange;

use crate::crypto::{copied, Digest, HandshakeBuffer, Provider};
use crate::error::{CryptoError, IdentificationError, ProtoError};
use crate::host_keys::{host_key_algorithms, HostKeys, ServerHostKey};
use crate::identification::{line_end, Identification, IdentificationView, PROTOCOL};
use crate::io::{enqueued, ReadState, WriteState};
use crate::key_exchange::{agreed_on, completed, exchange_hash_covers_handshake, handshake_bytes};
use crate::key_exchange::{recompleted, replied, restarted, started, EcdhKeyExchangeInit};
use crate::key_exchange::{EcdhKeyExchangeReply, ExtInfo, Identities, IdentitiesView, KeyExchange};
use crate::key_exchange::{KeyExchangeOutput, KeySourceSet, NewKeys, Rekey, StrictKeyExchange};
use crate::named::{views, ExtensionId, ExtensionIdView, KeyExchangeAlgorithmView};
use crate::packet::{type_wire, unexpected, IncomingPacket, MessageType};
use crate::text::same_text;
use crate::wire::{string_wire, Completion, Decoded, Encode};

verus! {

/// The name and version of this software.
pub const SOFTWARE: &'static str = "OxiSH/0.1.0";

/// What the client's identification comes to.
pub enum ClientIdentification {
    /// The identification is malformed.
    Malformed(ProtoError),
    /// The line end has not arrived yet.
    Waiting,
    /// The client wants another version of the protocol.
    Unsupported(Seq<char>),
    /// The identification without its line end, and its length with the line end.
    Accepted(Seq<u8>, int),
}

/// What the client's identification at the start of the incoming data comes to.
pub open spec fn client_identification(buf: Seq<u8>) -> ClientIdentification {
    match Identification::parse(buf) {
        Err(e) => ClientIdentification::Malformed(e),
        Ok(None) => ClientIdentification::Waiting,
        Ok(Some((identification, rest))) => if identification.protocol != PROTOCOL@ {
            ClientIdentification::Unsupported(identification.protocol)
        } else {
            ClientIdentification::Accepted(
                buf.take(buf.len() - rest.len() - 2),
                buf.len() - rest.len(),
            )
        },
    }
}

proof fn lemma_line_end_bounds(bytes: Seq<u8>, i: int)
    requires
        0 <= i,
    ensures
        line_end(bytes, i) matches Some(end) ==> i <= end && end + 2 <= bytes.len(),
    decreases bytes.len() - i,
{
    if i + 1 < bytes.len() && !(bytes[i] == 13 && bytes[i + 1] == 10) {
        lemma_line_end_bounds(bytes, i + 1);
    }
}

/// Read the client's identification at the start of the incoming data.
///
/// Returns the identification without its line end, and its length with the line end.
pub fn identify_client(buf: &[u8]) -> (r: Result<Completion<(Vec<u8>, usize)>, ProtoError>)
    ensures
        match client_identification(buf@) {
            ClientIdentification::Malformed(e) => r matches Err(error) && error == e,
            ClientIdentification::Waiting => r matches Ok(Completion::Incomplete(None)),
            ClientIdentification::Unsupported(version) => {
                &&& r matches Err(
                    ProtoError::Identification(IdentificationError::UnsupportedVersion(found)),
                )
                &&& found@ == version
            },
            ClientIdentification::Accepted(identity, length) => {
                &&& r matches Ok(Completion::Complete((found, found_length)))
                &&& found@ == identity
                &&& found_length == length
            },
        },
{
    match Identification::decode(buf) {
        Ok(Completion::Complete(Decoded { value: identification, next })) => {
            if !same_text(identification.protocol, PROTOCOL) {
                return Err(
                    ProtoError::Identification(
                        IdentificationError::UnsupportedVersion(
                            identification.protocol.to_owned(),
                        ),
                    ),
                );
            }
            proof {
                lemma_line_end_bounds(buf@, 0);
            }
            let length: usize = buf.len() - next.len();
            let identity = slice_subrange(buf, 0, length - 2);
            assert(identity@ =~= buf@.take(length - 2));
            Ok(Completion::Complete((copied(identity), length)))
        },
        Ok(Completion::Incomplete(_)) => Ok(Completion::Incomplete(None)),
        Err(e) => Err(e),
    }
}

/// The identification of the server.
pub fn server_identification() -> (r: Identification<'static>)
    ensures
        r@ == (IdentificationView {
            protocol: PROTOCOL@,
            software: SOFTWARE@,
            comments: Seq::empty(),
        }),
{
    proof {
        reveal_strlit("");
        assert(""@ =~= Seq::<char>::empty());
    }
    Identification { protocol: PROTOCOL, software: SOFTWARE, comments: "" }
}

/// Start the exchange hash with the two identifications: the client's without its line end, and
/// the server's as it was sent.
pub fn start_exchange(client: Vec<u8>, server_line: &[u8]) -> (r: (HandshakeBuffer, Identities))
    requires
        server_line@.len() >= 2,
    ensures
        r.1@ == (IdentitiesView {
            client: client@,
            server: server_line@.take(server_line@.len() - 2),
        }),
        r.0@ == r.1@.bytes(),
{
    let server = slice_subrange(server_line, 0, server_line.len() - 2);
    assert(server@ =~= server_line@.take(server_line@.len() - 2));
    let mut exchange = HandshakeBuffer::default();
    exchange.prefixed(client.as_slice());
    exchange.prefixed(server);
    let identities = Identities { client, server: copied(server) };
    assert(exchange@ =~= identities@.bytes());
    (exchange, identities)
}

/// The state of the first key exchange of a connection, after the identifications.
pub enum HandshakeState<'h> {
    /// The client is to start the key exchange.
    AwaitInit {
        /// What has gone into the exchange hash.
        exchange: HandshakeBuffer,
        /// The identities exchanged after connection acceptance.
        identities: Identities,
    },
    /// The client is to send its ephemeral public key, after `kx.local` has been sent to it.
    AwaitExchange {
        /// The key exchange; our own initiation has gone into its exchange hash.
        kx: KeyExchange,
        /// The identities exchanged after connection acceptance.
        identities: Identities,
        /// The strict key exchange state, if negotiated.
        strict_kx: Option<StrictKeyExchange>,
        /// What the client is to be told once the new keys are in use.
        ext_info: Option<ExtInfo<'static>>,
    },
    /// The client is to take the new keys into use, after `reply` has been sent to it.
    AwaitNewKeys {
        /// The reply to the client's ephemeral public key.
        reply: EcdhKeyExchangeReply,
        /// The outcome of the key exchange.
        output: KeyExchangeOutput<'h>,
        /// What the client is to be told once the new keys are in use.
        ext_info: Option<ExtInfo<'static>>,
    },
    /// The new keys can be taken into use, by way of [`update_keys()`].
    Complete {
        /// The outcome of the key exchange.
        output: KeyExchangeOutput<'h>,
        /// What the client is to be told once the new keys are in use.
        ext_info: Option<ExtInfo<'static>>,
    },
}

/// The key exchange after our own initiation has gone into the exchange hash.
pub open spec fn init_sent(before: KeyExchange, after: KeyExchange) -> bool {
    &&& after.local == before.local
    &&& after.negotiated == before.negotiated
    &&& after.exchange.algorithm() == before.exchange.algorithm()
    &&& after.exchange@ == before.exchange@ + string_wire(
        type_wire(MessageType::KeyExchangeInit) + before.local@.payload(),
    )
}

/// What the client's ephemeral public key comes to in the first key exchange.
pub open spec fn exchange_step<'h>(
    kx: KeyExchange,
    identities: Identities,
    strict_kx: Option<StrictKeyExchange>,
    ext_info: Option<ExtInfo<'static>>,
    client_public: Seq<u8>,
    host_keys: HostKeys,
    provider: Provider<'_>,
    r: Result<HandshakeState<'h>, ProtoError>,
) -> bool {
    exists|
        outcome: Result<
            (ServerHostKey<'h>, EcdhKeyExchangeReply, Digest, KeySourceSet),
            CryptoError,
        >,
    |
        {
            &&& #[trigger] completed(kx, client_public, host_keys, provider, outcome)
            &&& match (outcome, r) {
                (Err(e), Err(error)) => error == ProtoError::Crypto(e),
                (
                    Ok((host_key, answer, session_id, keys)),
                    Ok(HandshakeState::AwaitNewKeys { reply, output, ext_info: info }),
                ) => {
                    &&& reply == answer
                    &&& info == ext_info
                    &&& output == (KeyExchangeOutput {
                        identities,
                        host_key,
                        strict_kx,
                        session_id,
                        keys,
                        post_quantum_kx: kx.negotiated.key_exchange@
                            == KeyExchangeAlgorithmView::MlKem768X25519Sha256,
                    })
                },
                _ => false,
            }
        }
}

/// What a packet from the client comes to in the first key exchange.
pub open spec fn handshake_step<'h>(
    state: HandshakeState<'h>,
    packet: IncomingPacket<'_>,
    host_keys: HostKeys,
    provider: Provider<'_>,
    r: Result<HandshakeState<'h>, ProtoError>,
) -> bool {
    match state {
        HandshakeState::AwaitInit { exchange, identities } => exists|
            outcome: Result<
                (KeyExchange, Option<StrictKeyExchange>, Option<ExtInfo<'static>>),
                ProtoError,
            >,
        |
            {
                &&& #[trigger] started(
                    packet,
                    exchange@,
                    host_key_algorithms(host_keys.keys@),
                    seq![ExtensionIdView::StrictKexServer],
                    provider,
                    outcome,
                )
                &&& match (outcome, r) {
                    (Err(e), Err(error)) => error == e,
                    (
                        Ok((kx, strict, info)),
                        Ok(
                            HandshakeState::AwaitExchange {
                                kx: next,
                                identities: kept,
                                strict_kx,
                                ext_info,
                            },
                        ),
                    ) => init_sent(kx, next) && kept == identities && strict_kx == strict
                        && ext_info == info,
                    _ => false,
                }
            },
        HandshakeState::AwaitExchange { kx, identities, strict_kx, ext_info } => if packet.message_type
            != MessageType::KeyExchangeEcdhInit {
            unexpected(packet, seq![MessageType::KeyExchangeEcdhInit], r)
        } else {
            match EcdhKeyExchangeInit::parse(packet.payload@) {
                Err(e) => r matches Err(error) && error == e,
                Ok(client_public) => exchange_step(
                    kx,
                    identities,
                    strict_kx,
                    ext_info,
                    client_public,
                    host_keys,
                    provider,
                    r,
                ),
            }
        },
        HandshakeState::AwaitNewKeys { reply: _, output, ext_info } => if packet.message_type
            != MessageType::NewKeys {
            unexpected(packet, seq![MessageType::NewKeys], r)
        } else {
            match NewKeys::parse(packet.payload@) {
                Err(e) => r matches Err(error) && error == e,
                Ok(()) => r == Ok::<HandshakeState<'h>, ProtoError>(
                    HandshakeState::Complete { output, ext_info },
                ),
            }
        },
        HandshakeState::Complete { output: _, ext_info: _ } => false,
    }
}

impl<'h> HandshakeState<'h> {
    /// Handle a packet from the client.
    pub fn handle(
        self,
        packet: IncomingPacket<'_>,
        host_keys: &'h HostKeys,
        provider: Provider<'_>,
    ) -> (r: Result<Self, ProtoError>)
        requires
            !(self is Complete),
            host_keys.wf(),
        ensures
            handshake_step(self, packet, *host_keys, provider, r),
    {
        match self {
            HandshakeState::AwaitInit { exchange, identities } => {
                let extensions = vec![ExtensionId::StrictKexServer];
                assert(views(extensions@) =~= seq![ExtensionIdView::StrictKexServer]);
                let outcome = KeyExchange::start(
                    packet,
                    exchange,
                    host_keys.algorithms(),
                    extensions.as_slice(),
                    provider,
                );
                let (kx, strict_kx, ext_info) = match outcome {
                    Ok(outcome) => outcome,
                    Err(e) => return Err(e),
                };
                let kx = with_init(kx);
                Ok(HandshakeState::AwaitExchange { kx, identities, strict_kx, ext_info })
            },
            HandshakeState::AwaitExchange { kx, identities, strict_kx, ext_info } => {
                let init = match EcdhKeyExchangeInit::try_from(packet) {
                    Ok(init) => init,
                    Err(e) => return Err(e),
                };
                let post_quantum_kx = kx.negotiated.key_exchange.post_quantum_secure();
                let outcome = kx.complete(init, host_keys, provider);
                let ghost client_public = init.client_ephemeral_public_key@;
                assert(completed(kx, client_public, *host_keys, provider, outcome));
                let (host_key, reply, session_id, keys) = match outcome {
                    Ok(outcome) => outcome,
                    Err(e) => return Err(ProtoError::Crypto(e)),
                };
                Ok(
                    HandshakeState::AwaitNewKeys {
                        reply,
                        output: KeyExchangeOutput {
                            identities,
                            host_key,
                            strict_kx,
                            session_id,
                            keys,
                            post_quantum_kx,
                        },
                        ext_info,
                    },
                )
            },
            HandshakeState::AwaitNewKeys { reply: _, output, ext_info } => {
                match NewKeys::try_from(packet) {
                    Ok(_) => Ok(HandshakeState::Complete { output, ext_info }),
                    Err(e) => Err(e),
                }
            },
            HandshakeState::Complete { output, ext_info } => Ok(
                HandshakeState::Complete { output, ext_info },
            ),
        }
    }
}

/// Put our own initiation, which is to be sent, into the exchange hash.
fn with_init(kx: KeyExchange) -> (r: KeyExchange)
    ensures
        init_sent(kx, r),
{
    let mut kx = kx;
    let mut local: Vec<u8> = Vec::new();
    kx.local.encode(&mut local);
    assert(local@ =~= type_wire(MessageType::KeyExchangeInit) + kx.local@.payload());
    kx.exchange.prefixed(local.as_slice());
    kx
}

/// The state of a further key exchange in a session, after the client has started it.
pub enum RekeyState {
    /// The client is to send its ephemeral public key, after `kx.local` has been sent to it.
    AwaitExchange {
        /// The key exchange; our own initiation has gone into its exchange hash.
        kx: KeyExchange,
    },
    /// The client is to take the new keys into use, after `reply` has been sent to it.
    AwaitNewKeys {
        /// The reply to the client's ephemeral public key.
        reply: EcdhKeyExchangeReply,
        /// The new keys.
        keys: KeySourceSet,
        /// Whether post-quantum key exchange was negotiated.
        post_quantum_kx: bool,
    },
    /// The new keys can be taken into use, by way of [`update_keys()`].
    Complete {
        /// The new keys.
        keys: KeySourceSet,
        /// Whether post-quantum key exchange was negotiated.
        post_quantum_kx: bool,
    },
}

/// What the client's `SSH_MSG_KEXINIT` comes to in a session.
pub open spec fn rekey_started(
    rekey: Rekey,
    packet: IncomingPacket<'_>,
    provider: Provider<'_>,
    r: Result<RekeyState, ProtoError>,
) -> bool {
    exists|outcome: Result<KeyExchange, ProtoError>|
        {
            &&& #[trigger] restarted(rekey, packet, provider, outcome)
            &&& match (outcome, r) {
                (Err(e), Err(error)) => error == e,
                (Ok(kx), Ok(RekeyState::AwaitExchange { kx: next })) => init_sent(kx, next),
                _ => false,
            }
        }
}

/// What the client's ephemeral public key comes to in a further key exchange.
pub open spec fn rekey_exchange_step(
    kx: KeyExchange,
    client_public: Seq<u8>,
    rekey: Rekey,
    provider: Provider<'_>,
    r: Result<RekeyState, ProtoError>,
) -> bool {
    exists|outcome: Result<(EcdhKeyExchangeReply, KeySourceSet), CryptoError>|
        {
            &&& #[trigger] recompleted(
                rekey,
                kx.exchange,
                kx.negotiated@,
                client_public,
                provider,
                outcome,
            )
            &&& match (outcome, r) {
                (Err(e), Err(error)) => error == ProtoError::Crypto(e),
                (
                    Ok((answer, new_keys)),
                    Ok(RekeyState::AwaitNewKeys { reply, keys, post_quantum_kx }),
                ) => {
                    &&& reply == answer
                    &&& keys == new_keys
                    &&& post_quantum_kx == (kx.negotiated.key_exchange@
                        == KeyExchangeAlgorithmView::MlKem768X25519Sha256)
                },
                _ => false,
            }
        }
}

/// What a packet from the client comes to in a further key exchange.
pub open spec fn rekey_step(
    state: RekeyState,
    packet: IncomingPacket<'_>,
    rekey: Rekey,
    provider: Provider<'_>,
    r: Result<RekeyState, ProtoError>,
) -> bool {
    match state {
        RekeyState::AwaitExchange { kx } => if packet.message_type
            != MessageType::KeyExchangeEcdhInit {
            unexpected(packet, seq![MessageType::KeyExchangeEcdhInit], r)
        } else {
            match EcdhKeyExchangeInit::parse(packet.payload@) {
                Err(e) => r matches Err(error) && error == e,
                Ok(client_public) => rekey_exchange_step(kx, client_public, rekey, provider, r),
            }
        },
        RekeyState::AwaitNewKeys { reply: _, keys, post_quantum_kx } => if packet.message_type
            != MessageType::NewKeys {
            unexpected(packet, seq![MessageType::NewKeys], r)
        } else {
            match NewKeys::parse(packet.payload@) {
                Err(e) => r matches Err(error) && error == e,
                Ok(()) => r == Ok::<RekeyState, ProtoError>(
                    RekeyState::Complete { keys, post_quantum_kx },
                ),
            }
        },
        RekeyState::Complete { keys: _, post_quantum_kx: _ } => false,
    }
}

impl RekeyState {
    /// Process the client's `SSH_MSG_KEXINIT`, with which it can start a key exchange at any point.
    pub fn start(packet: IncomingPacket<'_>, rekey: &Rekey, provider: Provider<'_>) -> (r: Result<
        Self,
        ProtoError,
    >)
        ensures
            rekey_started(*rekey, packet, provider, r),
    {
        match rekey.start(packet, provider) {
            Ok(kx) => Ok(RekeyState::AwaitExchange { kx: with_init(kx) }),
            Err(e) => Err(e),
        }
    }

    /// Handle a packet from the client.
    pub fn handle(self, packet: IncomingPacket<'_>, rekey: &Rekey, provider: Provider<'_>) -> (r:
        Result<Self, ProtoError>)
        requires
            !(self is Complete),
            !(rekey.host_key.0.0.spec_algorithm() is Unknown),
        ensures
            rekey_step(self, packet, *rekey, provider, r),
    {
        match self {
            RekeyState::AwaitExchange { kx } => {
                let init = match EcdhKeyExchangeInit::try_from(packet) {
                    Ok(init) => init,
                    Err(e) => return Err(e),
                };
                let post_quantum_kx = kx.negotiated.key_exchange.post_quantum_secure();
                let outcome = rekey.complete(init, &kx.negotiated, kx.exchange, provider);
                let ghost client_public = init.client_ephemeral_public_key@;
                assert(recompleted(
                    *rekey,
                    kx.exchange,
                    kx.negotiated@,
                    client_public,
                    provider,
                    outcome,
                ));
                match outcome {
                    Ok((reply, keys)) => Ok(
                        RekeyState::AwaitNewKeys { reply, keys, post_quantum_kx },
                    ),
                    Err(e) => Err(ProtoError::Crypto(e)),
                }
            },
            RekeyState::AwaitNewKeys { reply: _, keys, post_quantum_kx } => {
                match NewKeys::try_from(packet) {
                    Ok(_) => Ok(RekeyState::Complete { keys, post_quantum_kx }),
                    Err(e) => Err(e),
                }
            },
            RekeyState::Complete { keys, post_quantum_kx } => Ok(
                RekeyState::Complete { keys, post_quantum_kx },
            ),
        }
    }
}

/// The message that is awaited in a state of the first key exchange.
pub open spec fn awaited(state: HandshakeState<'_>) -> MessageType {
    match state {
        HandshakeState::AwaitInit { .. } => MessageType::KeyExchangeInit,
        HandshakeState::AwaitExchange { .. } => MessageType::KeyExchangeEcdhInit,
        _ => MessageType::NewKeys,
    }
}

/// In the first key exchange every message of the client has its turn: any other one is refused,
/// and the one that is awaited leads to the next state or fails.
pub proof fn handshake_in_order<'h>(
    state: HandshakeState<'h>,
    packet: IncomingPacket<'_>,
    host_keys: HostKeys,
    provider: Provider<'_>,
    r: Result<HandshakeState<'h>, ProtoError>,
)
    requires
        handshake_step(state, packet, host_keys, provider, r),
    ensures
        packet.message_type != awaited(state) ==> unexpected(packet, seq![awaited(state)], r),
        r matches Ok(next) ==> match state {
            HandshakeState::AwaitInit { .. } => next is AwaitExchange,
            HandshakeState::AwaitExchange { .. } => next is AwaitNewKeys,
            _ => next is Complete,
        },
{
}

/// The session ID is the hash of the identifications, of the initiations of both sides as they were
/// received and sent, of the host key and of what the key agreement gave for the client's public
/// key, and the reply to the client holds the host key's signature of it.
pub proof fn session_id_covers_handshake<'h>(
    exchange: HandshakeBuffer,
    identities: Identities,
    init: IncomingPacket<'_>,
    ecdh_init: IncomingPacket<'_>,
    host_keys: HostKeys,
    provider: Provider<'_>,
    middle: HandshakeState<'h>,
    last: HandshakeState<'h>,
)
    requires
        exchange@ == identities@.bytes(),
        handshake_step(
            HandshakeState::AwaitInit { exchange, identities },
            init,
            host_keys,
            provider,
            Ok(middle),
        ),
        handshake_step(middle, ecdh_init, host_keys, provider, Ok(last)),
    ensures
        match (middle, last) {
            (
                HandshakeState::AwaitExchange { kx, .. },
                HandshakeState::AwaitNewKeys { reply, output, .. },
            ) => {
                &&& EcdhKeyExchangeInit::parse(ecdh_init.payload@) matches Ok(client_public)
                &&& output.host_key.key.0.spec_signs(
                    output.session_id@,
                    reply.exchange_hash_signature.spec_signature(),
                )
                &&& exists|server_public: Seq<u8>, secret: Seq<u8>|
                    {
                        &&& agreed_on(
                            provider,
                            kx.negotiated@.key_exchange,
                            client_public,
                            server_public,
                            secret,
                        )
                        &&& output.session_id@ == kx.exchange.algorithm().0.spec_digest(
                            #[trigger] handshake_bytes(
                                identities@,
                                type_wire(MessageType::KeyExchangeInit) + init.payload@,
                                type_wire(MessageType::KeyExchangeInit) + kx.local@.payload(),
                                *output.host_key.key,
                                client_public,
                                server_public,
                                kx.negotiated@.key_exchange,
                                secret,
                            ),
                        )
                    }
            },
            _ => false,
        },
{
    match (middle, last) {
        (
            HandshakeState::AwaitExchange { kx, .. },
            HandshakeState::AwaitNewKeys { reply, output, .. },
        ) => {
            let client_public = EcdhKeyExchangeInit::parse(ecdh_init.payload@)->Ok_0;
            let own = type_wire(MessageType::KeyExchangeInit) + kx.local@.payload();
            let peer = type_wire(MessageType::KeyExchangeInit) + init.payload@;
            assert(kx.exchange@ == identities@.bytes() + string_wire(peer) + string_wire(own));
            let (server_public, secret) = choose|server_public: Seq<u8>, secret: Seq<u8>|
                {
                    &&& agreed_on(
                        provider,
                        kx.negotiated@.key_exchange,
                        client_public,
                        server_public,
                        secret,
                    )
                    &&& #[trigger] replied(
                        kx.exchange@,
                        kx.exchange.algorithm(),
                        client_public,
                        kx.negotiated@,
                        None,
                        *output.host_key.key,
                        provider,
                        server_public,
                        secret,
                        reply,
                        output.session_id@,
                        output.keys,
                    )
                };
            exchange_hash_covers_handshake(
                identities@,
                peer,
                own,
                kx.exchange.algorithm(),
                client_public,
                kx.negotiated@,
                None,
                *output.host_key.key,
                provider,
                server_public,
                secret,
                reply,
                output.session_id@,
                output.keys,
            );
        },
        _ => {},
    }
}

/// Take new keys into use, after the client's `SSH_MSG_NEWKEYS` has arrived: enqueue our own and
/// set the keys for what follows.
///
/// Under strict key exchange the sequence numbers are reset to zero once NEWKEYS crosses in each
/// direction, so the first encrypted packet after NEWKEYS uses sequence number zero.
pub fn update_keys(
    read: &mut ReadState,
    write: &mut WriteState,
    keys: &KeySourceSet,
    strict_kx: Option<&StrictKeyExchange>,
    provider: Provider<'_>,
) -> (r: Result<(), ProtoError>)
    requires
        old(write).has_room(1, 1),
    ensures
        keys_updated(*old(read), *final(read), *old(write), *final(write), *keys, strict_kx is Some, provider, r),
{
    read.reset_sequence_number(strict_kx);

    write.handle_packet(&NewKeys, None)?;
    write.reset_sequence_number(strict_kx);

    let opener = match provider.0.opening_key(0, &keys.client_to_server) {
        Ok(opener) => opener,
        Err(e) => return Err(ProtoError::Crypto(e)),
    };
    read.opener = Some(opener);
    let sealer = match provider.0.sealing_key(0, &keys.server_to_client) {
        Ok(sealer) => sealer,
        Err(e) => return Err(ProtoError::Crypto(e)),
    };
    write.sealer = Some(sealer);
    Ok(())
}

/// What taking new keys into use comes to.
pub open spec fn keys_updated(
    read_before: ReadState,
    read_after: ReadState,
    write_before: WriteState,
    write_after: WriteState,
    keys: KeySourceSet,
    strict: bool,
    provider: Provider<'_>,
    r: Result<(), ProtoError>,
) -> bool {
    let read = ReadState {
        sequence_number: if strict {
            0
        } else {
            read_before.sequence_number
        },
        ..read_before
    };
    ||| {
        &&& r is Err
        &&& read_after == read
        &&& enqueued(write_before, write_after, type_wire(MessageType::NewKeys), r)
    }
    ||| exists|mid: WriteState|
        {
            let write = WriteState {
                sequence_number: if strict {
                    0
                } else {
                    mid.sequence_number
                },
                ..mid
            };
            &&& #[trigger] enqueued(write_before, mid, type_wire(MessageType::NewKeys), Ok(()))
            &&& match (
                provider.0.spec_opening_key(0, keys.client_to_server@),
                provider.0.spec_sealing_key(0, keys.server_to_client@),
            ) {
                (Err(e), _) => {
                    &&& r == Err::<(), ProtoError>(ProtoError::Crypto(e))
                    &&& read_after == read
                    &&& write_after == write
                },
                (Ok(opener), Err(e)) => {
                    &&& r == Err::<(), ProtoError>(ProtoError::Crypto(e))
                    &&& read_after == (ReadState { opener: Some(opener), ..read })
                    &&& write_after == write
                },
                (Ok(opener), Ok(sealer)) => {
                    &&& r is Ok
                    &&& read_after == (ReadState { opener: Some(opener), ..read })
                    &&& write_after == (WriteState { sealer: Some(sealer), ..write })
                },
            }
        }
}

/// Under strict key exchange both sequence numbers start from zero with the new keys.
pub proof fn strict_key_exchange_resets(
    read_before: ReadState,
    read_after: ReadState,
    write_before: WriteState,
    write_after: WriteState,
    keys: KeySourceSet,
    provider: Provider<'_>,
)
    requires
        keys_updated(
            read_before,
            read_after,
            write_before,
            write_after,
            keys,
            true,
            provider,
            Ok(()),
        ),
    ensures
        read_after.sequence_number == 0,
        write_after.sequence_number == 0,
        read_after.opener is Some,
        write_after.sealer is Some,
{
}

/// Without strict key exchange the sequence numbers go on with the new keys.
pub proof fn sequence_numbers_go_on(
    read_before: ReadState,
    read_after: ReadState,
    write_before: WriteState,
    write_after: WriteState,
    keys: KeySourceSet,
    provider: Provider<'_>,
)
    requires
        keys_updated(
            read_before,
            read_after,
            write_before,
            write_after,
            keys,
            false,
            provider,
            Ok(()),
        ),
    ensures
        read_after.sequence_number == read_before.sequence_number,
        write_after.sequence_number == (write_before.sequence_number + 1) % 0x1_0000_0000,
{
}

} // verus!
