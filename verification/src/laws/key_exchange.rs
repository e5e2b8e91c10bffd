//! Exchanging keys: the messages, what is offered and hashed, and the keys.

use vstd::prelude::*;

use crate::crypto::{extended, HashFunction, KeyDerivationView, Provider, Signer};
use crate::crypto::SupportedAlgorithmsView;
use crate::error::ProtoError;
use crate::key_exchange::{key_exchange_init_round_trip, listable, mpint_wire, own_init};
use crate::key_exchange::{public_key_blob, replied, signature_blob, EcdhKeyExchangeInit};
use crate::key_exchange::{EcdhKeyExchangeReply, ExtInfo, IdentitiesView, KeyExchangeInit};
use crate::key_exchange::{KeyExchangeInitView, KeySourceSet, NegotiatedView, NewKeys};
use crate::key_exchange::{cow_bytes_view, parse_identities};
use crate::named::{names_wire, views, CompressionAlgorithm, EncryptionAlgorithm};
use crate::named::{EncryptionAlgorithmView, ExtensionIdView, ExtensionName};
use crate::named::KeyExchangeAlgorithmOrExtensionId;
use crate::named::{KeyExchangeAlgorithmOrExtensionIdView, KeyExchangeAlgorithmView, Language};
use crate::named::{CompressionAlgorithmView, MacAlgorithm, MacAlgorithmView, Named};
use crate::named::{PublicKeyAlgorithm, PublicKeyAlgorithmView};
use crate::wire::{string_round_trip, string_wire, text_wire, u32_wire, Encode};

verus! {

/// The fields of a message that starts a key exchange, one after another
/// (<https://www.rfc-editor.org/rfc/rfc4253#section-7.1>). It is read in the same order.
pub proof fn key_exchange_init_layout(m: KeyExchangeInitView)
    requires
        m.cookie.len() == 16,
        listable::<KeyExchangeAlgorithmOrExtensionId>(m.key_exchange_algorithms),
        listable::<PublicKeyAlgorithm>(m.server_host_key_algorithms),
        listable::<EncryptionAlgorithm>(m.encryption_algorithms_client_to_server),
        listable::<EncryptionAlgorithm>(m.encryption_algorithms_server_to_client),
        listable::<MacAlgorithm>(m.mac_algorithms_client_to_server),
        listable::<MacAlgorithm>(m.mac_algorithms_server_to_client),
        listable::<CompressionAlgorithm>(m.compression_algorithms_client_to_server),
        listable::<CompressionAlgorithm>(m.compression_algorithms_server_to_client),
        listable::<Language>(m.languages_client_to_server),
        listable::<Language>(m.languages_server_to_client),
    ensures
        m.payload() == init_fields(m),
        KeyExchangeInit::parse(init_fields(m)) == Ok::<KeyExchangeInitView, ProtoError>(m),
{
    key_exchange_init_round_trip(m);
    lemma_fields(m);
}

proof fn lemma_fields(m: KeyExchangeInitView)
    ensures
        m.payload() == init_fields(m),
{
    assert(m.fields(13) =~= Seq::<u8>::empty());
    assert(m.fields(12) =~= u32_wire(m.extended));
    assert(m.fields(11) == m.field(11) + m.fields(12));
    assert(m.fields(10) == m.field(10) + m.fields(11));
    assert(m.fields(9) == m.field(9) + m.fields(10));
    assert(m.fields(8) == m.field(8) + m.fields(9));
    assert(m.fields(7) == m.field(7) + m.fields(8));
    assert(m.fields(6) == m.field(6) + m.fields(7));
    assert(m.fields(5) == m.field(5) + m.fields(6));
    assert(m.fields(4) == m.field(4) + m.fields(5));
    assert(m.fields(3) == m.field(3) + m.fields(4));
    assert(m.fields(2) == m.field(2) + m.fields(3));
    assert(m.fields(1) == m.field(1) + m.fields(2));
    assert(m.fields(0) == m.field(0) + m.fields(1));
}

/// The fields of a message that starts a key exchange.
pub open spec fn init_fields(m: KeyExchangeInitView) -> Seq<u8> {
    m.cookie + (names_wire::<KeyExchangeAlgorithmOrExtensionId>(m.key_exchange_algorithms) + (
    names_wire::<PublicKeyAlgorithm>(m.server_host_key_algorithms) + (names_wire::<
        EncryptionAlgorithm,
    >(m.encryption_algorithms_client_to_server) + (names_wire::<EncryptionAlgorithm>(
        m.encryption_algorithms_server_to_client,
    ) + (names_wire::<MacAlgorithm>(m.mac_algorithms_client_to_server) + (names_wire::<
        MacAlgorithm,
    >(m.mac_algorithms_server_to_client) + (names_wire::<CompressionAlgorithm>(
        m.compression_algorithms_client_to_server,
    ) + (names_wire::<CompressionAlgorithm>(m.compression_algorithms_server_to_client) + (
    names_wire::<Language>(m.languages_client_to_server) + (names_wire::<Language>(
        m.languages_server_to_client,
    ) + (seq![if m.first_kex_packet_follows { 1u8 } else { 0u8 }] + u32_wire(
        m.extended,
    ))))))))))))
}

/// A message that starts a key exchange is sent as its number and its fields.
pub proof fn key_exchange_init_wire(m: KeyExchangeInit<'_>)
    ensures
        m.wire() == seq![20u8] + init_fields(m@),
{
    lemma_fields(m@);
}

/// The names of the key exchange algorithms and of the markers among them, as they are written and
/// read.
pub proof fn key_exchange_names(value: KeyExchangeAlgorithmOrExtensionIdView, name: Seq<char>)
    ensures
        KeyExchangeAlgorithmOrExtensionId::spec_name(value) == match value {
            KeyExchangeAlgorithmOrExtensionIdView::KeyExchange(
                KeyExchangeAlgorithmView::MlKem768X25519Sha256,
            ) => "mlkem768x25519-sha256"@,
            KeyExchangeAlgorithmOrExtensionIdView::KeyExchange(
                KeyExchangeAlgorithmView::Curve25519Sha256,
            ) => "curve25519-sha256"@,
            KeyExchangeAlgorithmOrExtensionIdView::KeyExchange(
                KeyExchangeAlgorithmView::Unknown(other),
            ) => other,
            KeyExchangeAlgorithmOrExtensionIdView::Extension(ExtensionIdView::ExtInfoC) =>
                "ext-info-c"@,
            KeyExchangeAlgorithmOrExtensionIdView::Extension(ExtensionIdView::StrictKexClient) =>
                "kex-strict-c-v00@openssh.com"@,
            KeyExchangeAlgorithmOrExtensionIdView::Extension(ExtensionIdView::StrictKexServer) =>
                "kex-strict-s-v00@openssh.com"@,
            KeyExchangeAlgorithmOrExtensionIdView::Extension(ExtensionIdView::Unknown(other)) =>
                other,
        },
        match KeyExchangeAlgorithmOrExtensionId::spec_typed(name) {
            KeyExchangeAlgorithmOrExtensionIdView::KeyExchange(algorithm) => match algorithm {
                KeyExchangeAlgorithmView::MlKem768X25519Sha256 => name == "mlkem768x25519-sha256"@,
                KeyExchangeAlgorithmView::Curve25519Sha256 => name == "curve25519-sha256"@,
                KeyExchangeAlgorithmView::Unknown(other) => {
                    &&& name == other
                    &&& name != "mlkem768x25519-sha256"@
                    &&& name != "curve25519-sha256"@
                    &&& name != "ext-info-c"@
                    &&& name != "kex-strict-c-v00@openssh.com"@
                    &&& name != "kex-strict-s-v00@openssh.com"@
                },
            },
            KeyExchangeAlgorithmOrExtensionIdView::Extension(extension) => match extension {
                ExtensionIdView::ExtInfoC => name == "ext-info-c"@,
                ExtensionIdView::StrictKexClient => name == "kex-strict-c-v00@openssh.com"@,
                ExtensionIdView::StrictKexServer => name == "kex-strict-s-v00@openssh.com"@,
                ExtensionIdView::Unknown(_) => false,
            },
        },
{
}

/// The names of the other algorithms, as they are written and read, and the lengths of the keys
/// that they need.
pub proof fn algorithm_names(
    encryption: EncryptionAlgorithmView,
    mac: MacAlgorithmView,
    compression: CompressionAlgorithmView,
    name: Seq<char>,
)
    ensures
        EncryptionAlgorithm::spec_name(encryption) == match encryption {
            EncryptionAlgorithmView::Aes128Gcm => "aes128-gcm@openssh.com"@,
            EncryptionAlgorithmView::Unknown(other) => other,
        },
        EncryptionAlgorithm::spec_typed(name) is Aes128Gcm <==> name == "aes128-gcm@openssh.com"@,
        name != "aes128-gcm@openssh.com"@ ==> EncryptionAlgorithm::spec_typed(name)
            == EncryptionAlgorithmView::Unknown(name),
        encryption is Aes128Gcm <==> encryption.key_lengths() is Some,
        encryption.key_lengths() matches Some(lengths) ==> lengths.key_len == 16 && lengths.iv_len
            == 12,
        MacAlgorithm::spec_name(mac) == match mac {
            MacAlgorithmView::HmacSha2256 => "hmac-sha2-256"@,
            MacAlgorithmView::NoMac => "none"@,
            MacAlgorithmView::Unknown(other) => other,
        },
        match MacAlgorithm::spec_typed(name) {
            MacAlgorithmView::HmacSha2256 => name == "hmac-sha2-256"@,
            MacAlgorithmView::NoMac => name == "none"@,
            MacAlgorithmView::Unknown(other) => name == other && name != "hmac-sha2-256"@ && name
                != "none"@,
        },
        CompressionAlgorithm::spec_name(compression) == match compression {
            CompressionAlgorithmView::NoCompression => "none"@,
            CompressionAlgorithmView::Unknown(other) => other,
        },
        match CompressionAlgorithm::spec_typed(name) {
            CompressionAlgorithmView::NoCompression => name == "none"@,
            CompressionAlgorithmView::Unknown(other) => name == other && name != "none"@,
        },
{
}

/// What the server offers: the key exchange algorithms, and then the markers; the algorithms of
/// its host keys; and for both directions the same, without compression.
pub proof fn server_offer(
    cookie: Seq<u8>,
    supported: SupportedAlgorithmsView,
    host_keys: Seq<PublicKeyAlgorithmView>,
    extensions: Seq<ExtensionIdView>,
    i: int,
)
    ensures
        ({
            let own = own_init(cookie, supported, host_keys, extensions);
            let n = supported.key_exchange.len();
            &&& own.cookie == cookie
            &&& own.key_exchange_algorithms.len() == n + extensions.len()
            &&& 0 <= i < n ==> own.key_exchange_algorithms[i]
                == KeyExchangeAlgorithmOrExtensionIdView::KeyExchange(supported.key_exchange[i])
            &&& n <= i < n + extensions.len() ==> own.key_exchange_algorithms[i]
                == KeyExchangeAlgorithmOrExtensionIdView::Extension(extensions[i - n])
            &&& own.server_host_key_algorithms == host_keys
            &&& own.encryption_algorithms_client_to_server == supported.encryption
            &&& own.encryption_algorithms_server_to_client == supported.encryption
            &&& own.mac_algorithms_client_to_server == supported.mac
            &&& own.mac_algorithms_server_to_client == supported.mac
            &&& own.compression_algorithms_client_to_server.len() == 1
            &&& own.compression_algorithms_client_to_server[0] is NoCompression
            &&& own.compression_algorithms_server_to_client.len() == 1
            &&& own.compression_algorithms_server_to_client[0] is NoCompression
            &&& own.languages_client_to_server.len() == 0
            &&& own.languages_server_to_client.len() == 0
            &&& !own.first_kex_packet_follows
            &&& own.extended == 0
        }),
{
}

/// The client's message with its public key holds the key and nothing else
/// (<https://www.rfc-editor.org/rfc/rfc5656#section-4>); the message that new keys are used from
/// now on holds nothing (<https://www.rfc-editor.org/rfc/rfc4253#section-7.3>).
pub proof fn exchange_message_layout(key: Seq<u8>, rest: Seq<u8>, new_keys: NewKeys)
    requires
        key.len() <= u32::MAX,
    ensures
        EcdhKeyExchangeInit::parse(string_wire(key) + rest) is Err <==> rest.len() > 0,
        rest.len() == 0 ==> EcdhKeyExchangeInit::parse(string_wire(key) + rest) == Ok::<
            Seq<u8>,
            ProtoError,
        >(key),
        NewKeys::parse(rest) is Ok <==> rest.len() == 0,
        new_keys.wire() == seq![21u8],
{
    string_round_trip(key, rest);
}

/// The server's answer: its host key, its public key and its signature
/// (<https://www.rfc-editor.org/rfc/rfc5656#section-4>).
pub proof fn exchange_reply_layout(reply: EcdhKeyExchangeReply)
    ensures
        reply.wire() == seq![31u8] + string_wire(
            public_key_blob(
                reply.server_public_host_key.algorithm@,
                cow_bytes_view(reply.server_public_host_key.key),
            ),
        ) + string_wire(reply.server_ephemeral_public_key@) + string_wire(
            signature_blob(
                reply.exchange_hash_signature.spec_algorithm(),
                reply.exchange_hash_signature.spec_signature(),
            ),
        ),
{
}

/// A public key: the name of its algorithm, for ECDSA the curve, and the key
/// (<https://www.rfc-editor.org/rfc/rfc5656#section-3.1>,
/// <https://www.rfc-editor.org/rfc/rfc8709#section-4>).
pub proof fn public_key_blob_layout(key: Seq<u8>)
    ensures
        public_key_blob(PublicKeyAlgorithmView::EcdsaSha2Nistp256, key) == text_wire(
            "ecdsa-sha2-nistp256"@,
        ) + text_wire("nistp256"@) + string_wire(key),
        public_key_blob(PublicKeyAlgorithmView::Ed25519, key) == text_wire("ssh-ed25519"@)
            + string_wire(key),
{
}

/// A signature: the name of its algorithm, and the signature, which for ECDSA is two numbers: the
/// first half of the bytes and the second half
/// (<https://www.rfc-editor.org/rfc/rfc5656#section-3.1.2>,
/// <https://www.rfc-editor.org/rfc/rfc8709#section-6>).
pub proof fn signature_blob_layout(r: Seq<u8>, s: Seq<u8>, signature: Seq<u8>)
    requires
        r.len() == s.len(),
    ensures
        signature_blob(PublicKeyAlgorithmView::EcdsaSha2Nistp256, r + s) == text_wire(
            "ecdsa-sha2-nistp256"@,
        ) + string_wire(mpint_wire(r) + mpint_wire(s)),
        signature_blob(PublicKeyAlgorithmView::Ed25519, signature) == text_wire("ssh-ed25519"@)
            + string_wire(signature),
{
    assert((r + s).take(r.len() as int) =~= r);
    assert((r + s).skip(r.len() as int) =~= s);
}

/// The message with the server's extensions: their number, and then the name and the value of each
/// (<https://www.rfc-editor.org/rfc/rfc8308#section-2.3>).
pub proof fn ext_info_layout(info: ExtInfo<'_>)
    requires
        info.extensions@.len() == 1,
    ensures
        info.wire() == seq![7u8] + u32_wire(1) + (text_wire(
            ExtensionName::spec_name(info.extensions@[0].0@),
        ) + names_wire::<PublicKeyAlgorithm>(views(info.extensions@[0].1.0@))),
        info.extensions@[0].0@ is ServerSigAlgs ==> ExtensionName::spec_name(
            info.extensions@[0].0@,
        ) == "server-sig-algs"@,
{
    reveal_with_fuel(crate::key_exchange::extensions_wire, 2);
    let name = text_wire(ExtensionName::spec_name(info.extensions@[0].0@));
    assert(Seq::<u8>::empty() + name =~= name);
}

/// The identities of the two sides are kept one after another, the client's first.
pub proof fn identities_layout(client: Seq<u8>, server: Seq<u8>, rest: Seq<u8>)
    requires
        client.len() <= u32::MAX,
        server.len() <= u32::MAX,
    ensures
        (IdentitiesView { client, server }).bytes() == string_wire(client) + string_wire(server),
        parse_identities(string_wire(client) + (string_wire(server) + rest)) == Ok::<
            (IdentitiesView, Seq<u8>),
            ProtoError,
        >(((IdentitiesView { client, server }), rest)),
{
    string_round_trip(client, string_wire(server) + rest);
    string_round_trip(server, rest);
}

/// What is hashed of a key exchange, after the identities and the two messages that start it: the
/// host key, the client's and then the server's public key, and the secret, which is a number for
/// `curve25519-sha256` (<https://www.rfc-editor.org/rfc/rfc8731#section-3>) and a `string`
/// otherwise. The hash is signed by the host key, and the answer to the client holds that
/// signature.
pub proof fn exchange_hash_layout(
    exchange: Seq<u8>,
    hash: HashFunction,
    client_public: Seq<u8>,
    negotiated: NegotiatedView,
    session_id: Option<Seq<u8>>,
    host_key: Signer,
    provider: Provider<'_>,
    server_public: Seq<u8>,
    secret: Seq<u8>,
    reply: EcdhKeyExchangeReply,
    exchange_hash: Seq<u8>,
    keys: KeySourceSet,
)
    requires
        replied(
            exchange,
            hash,
            client_public,
            negotiated,
            session_id,
            host_key,
            provider,
            server_public,
            secret,
            reply,
            exchange_hash,
            keys,
        ),
    ensures
        exchange_hash == hash.0.spec_digest(
            exchange + (string_wire(
                public_key_blob(host_key.0.spec_algorithm(), host_key.0.spec_public_key()),
            ) + string_wire(client_public) + string_wire(server_public) + (
            if negotiated.key_exchange is Curve25519Sha256 {
                mpint_wire(secret)
            } else {
                string_wire(secret)
            })),
        ),
        host_key.0.spec_signs(exchange_hash, reply.exchange_hash_signature.spec_signature()),
        reply.wire() == seq![31u8] + string_wire(
            public_key_blob(host_key.0.spec_algorithm(), host_key.0.spec_public_key()),
        ) + string_wire(server_public) + string_wire(
            signature_blob(
                host_key.0.spec_algorithm(),
                reply.exchange_hash_signature.spec_signature(),
            ),
        ),
{
    reveal(replied);
}

/// The keys for the two directions: the initialisation vectors are derived for the letters `A` and
/// `B`, and the encryption keys for `C` and `D`; in both cases the client's direction comes first
/// (<https://www.rfc-editor.org/rfc/rfc4253#section-7.2>). They are derived from the secret, the
/// exchange hash and the session identifier, which is the hash of the first exchange.
pub proof fn keys_by_letter(
    exchange: Seq<u8>,
    hash: HashFunction,
    client_public: Seq<u8>,
    negotiated: NegotiatedView,
    session_id: Option<Seq<u8>>,
    host_key: Signer,
    provider: Provider<'_>,
    server_public: Seq<u8>,
    secret: Seq<u8>,
    reply: EcdhKeyExchangeReply,
    exchange_hash: Seq<u8>,
    keys: KeySourceSet,
    derivation: KeyDerivationView,
)
    requires
        replied(
            exchange,
            hash,
            client_public,
            negotiated,
            session_id,
            host_key,
            provider,
            server_public,
            secret,
            reply,
            exchange_hash,
            keys,
        ),
        provider.0.spec_hash(negotiated.key_exchange) matches Ok(found) && derivation.hash == found,
        derivation.shared_secret == if negotiated.key_exchange is Curve25519Sha256 {
            mpint_wire(secret)
        } else {
            string_wire(secret)
        },
        derivation.exchange_hash == exchange_hash,
        derivation.session_id == match session_id {
            Some(id) => id,
            None => exchange_hash,
        },
    ensures
        keys.client_to_server.algorithm@ == negotiated.encryption_client_to_server,
        keys.server_to_client.algorithm@ == negotiated.encryption_server_to_client,
        keys.client_to_server.initial_iv@ == derivation.key(65, 12),
        keys.server_to_client.initial_iv@ == derivation.key(66, 12),
        keys.client_to_server.encryption_key@ == derivation.key(67, 16),
        keys.server_to_client.encryption_key@ == derivation.key(68, 16),
{
    reveal(replied);
}

/// Keys are made of blocks as long as what the hash function gives. The first is the hash of the
/// secret, the exchange hash, the letter and the session identifier; every other is the hash of the
/// secret, the exchange hash and all the blocks before it. The key is as much of them as is needed
/// (<https://www.rfc-editor.org/rfc/rfc4253#section-7.2>).
pub proof fn keys_are_chained(derivation: KeyDerivationView, letter: u8, len: nat, block: nat)
    requires
        block > 0,
        forall|data: Seq<u8>| #[trigger] derivation.hash.0.spec_digest(data).len() == block,
    ensures
        ({
            let key = derivation.key(letter, len);
            let start = derivation.shared_secret + derivation.exchange_hash;
            let first = derivation.hash.0.spec_digest(
                start + seq![letter] + derivation.session_id,
            );
            &&& key.len() == len
            &&& len <= block ==> key == first.take(len as int)
            &&& len > block ==> key.take(block as int) == first
            &&& forall|p: int|
                block <= p && p + block <= len && p % block as int == 0 ==> key.subrange(
                    p,
                    p + block,
                ) == derivation.hash.0.spec_digest(start + #[trigger] key.take(p))
            &&& forall|p: int|
                block <= p < len < p + block && p % block as int == 0 ==> key.skip(p)
                    == derivation.hash.0.spec_digest(start + #[trigger] key.take(p)).take(len - p)
        }),
{
    let hash = derivation.hash;
    let start = derivation.shared_secret + derivation.exchange_hash;
    let first = hash.0.spec_digest(start + seq![letter] + derivation.session_id);
    let all = extended(hash, start, first, len);
    let key = derivation.key(letter, len);
    assert(key == all.take(len as int));
    vstd::arithmetic::div_mod::lemma_mod_self_0(block as int);
    lemma_chained(hash, start, first, len, block);
    assert(all.take(block as int) =~= first);
    if len <= block {
        assert(all =~= first);
    } else {
        assert(key.take(block as int) =~= first);
    }
    assert forall|p: int| block <= p && p + block <= len && p % block as int == 0 implies key.subrange(
        p,
        p + block,
    ) == hash.0.spec_digest(start + #[trigger] key.take(p)) by {
        assert(key.take(p) =~= all.take(p));
        assert(key.subrange(p, p + block) =~= all.subrange(p, p + block));
    }
    assert forall|p: int| block <= p < len < p + block && p % block as int == 0 implies key.skip(p)
        == hash.0.spec_digest(start + #[trigger] key.take(p)).take(len - p) by {
        assert(key.take(p) =~= all.take(p));
        lemma_next_multiple(p, all.len() as int, block as int);
        assert(key.skip(p) =~= all.subrange(p, p + block).take(len - p));
    }
}

proof fn lemma_next_multiple(p: int, n: int, block: int)
    requires
        block > 0,
        0 <= p < n,
        p % block == 0,
        n % block == 0,
    ensures
        p + block <= n,
{
    assert(p + block <= n) by (nonlinear_arith)
        requires
            block > 0,
            0 <= p < n,
            p % block == 0,
            n % block == 0,
    {
        let (a, b) = (p / block, n / block);
        assert(p == block * a && n == block * b);
        assert(a < b);
        assert(block * (a + 1) <= block * b);
    }
}

proof fn lemma_chained(
    hash: HashFunction,
    start: Seq<u8>,
    material: Seq<u8>,
    len: nat,
    block: nat,
)
    requires
        block > 0,
        forall|data: Seq<u8>| #[trigger] hash.0.spec_digest(data).len() == block,
        material.len() >= block,
        material.len() % block == 0,
        forall|p: int|
            block <= p && p + block <= material.len() && p % block as int == 0
                ==> material.subrange(p, p + block) == hash.0.spec_digest(
                start + #[trigger] material.take(p),
            ),
    ensures
        ({
            let all = extended(hash, start, material, len);
            &&& all.len() >= len
            &&& all.len() >= material.len()
            &&& all.len() % block == 0
            &&& all.take(material.len() as int) == material
            &&& forall|p: int|
                block <= p && p + block <= all.len() && p % block as int == 0 ==> all.subrange(
                    p,
                    p + block,
                ) == hash.0.spec_digest(start + #[trigger] all.take(p))
        }),
    decreases
            if material.len() < len {
                len - material.len()
            } else {
                0
            },
{
    if material.len() < len {
        let more = hash.0.spec_digest(start + material);
        let longer = material + more;
        vstd::arithmetic::div_mod::lemma_mod_add_multiples_vanish(
            material.len() as int,
            block as int,
        );
        assert(longer.len() % block == 0);
        assert forall|p: int|
            block <= p && p + block <= longer.len() && p % block as int == 0 implies longer.subrange(
            p,
            p + block,
        ) == hash.0.spec_digest(start + #[trigger] longer.take(p)) by {
            if p < material.len() {
                lemma_next_multiple(p, material.len() as int, block as int);
                assert(longer.take(p) =~= material.take(p));
                assert(longer.subrange(p, p + block) =~= material.subrange(p, p + block));
            } else {
                assert(p == material.len());
                assert(longer.take(p) =~= material);
                assert(longer.subrange(p, p + block) =~= more);
            }
        }
        lemma_chained(hash, start, longer, len, block);
        let all = extended(hash, start, longer, len);
        assert(all.take(material.len() as int) =~= all.take(longer.len() as int).take(
            material.len() as int,
        ));
        assert(longer.take(material.len() as int) =~= material);
    } else {
        assert(material.take(material.len() as int) =~= material);
    }
}

} // verus!
