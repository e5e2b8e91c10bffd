//! Key exchange messages and negotiation (RFC 4253 section 7, RFC 5656).

use std::borrow::Cow;

use vstd::prelude::*;
use vstd::slice::slice_subrange;

use crate::crypto::{copied, CompletedKeyExchange, Digest, HandshakeBuffer, HandshakeHash};
use crate::crypto::{KeyDerivation, KeySourceSide, Provider, SharedSecret, Signer};
use crate::crypto::{EphemeralKey, KeyAgreement, SupportedAlgorithmsView};
use crate::error::{CryptoError, ProtoError};
use crate::host_keys::{HostKeys, ServerHostKey, SessionHostKey};
use crate::named::{encoded_names, name_list_round_trip, name_wire, names_wire, parse_names, views};
use crate::named::{with_commas, CompressionAlgorithm, CompressionAlgorithmView};
use crate::named::{EncryptionAlgorithm, EncryptionAlgorithmView, ExtensionId, ExtensionIdView};
use crate::named::{ExtensionName, ExtensionNameView, IncomingNameList, KeyExchangeAlgorithm};
use crate::named::{KeyExchangeAlgorithmOrExtensionId, KeyExchangeAlgorithmOrExtensionIdView};
use crate::named::{KeyExchangeAlgorithmView, Language, LanguageView, MacAlgorithm};
use crate::named::{MacAlgorithmView, Named, OutgoingNameList, PublicKeyAlgorithm};
use crate::named::PublicKeyAlgorithmView;
use crate::packet::{type_wire, unexpected, IncomingPacket, MessageType};
use crate::wire::{bool_round_trip, bool_wire, parse_bool, parse_fixed, parse_string, parse_u32};
use crate::wire::{parse_u8, put, put_string, string_round_trip, string_wire, text_wire};
use crate::wire::{u32_round_trip, u32_wire, Decode, Decoded, Encode, Parsed};

verus! {

/// Marker type for whether the client requested strict key exchange.
#[derive(Clone, Copy, Debug, PartialEq, Eq, Structural)]
pub struct StrictKeyExchange {}

impl Encode for Option<StrictKeyExchange> {
    open spec fn wire(&self) -> Seq<u8> {
        bool_wire(*self is Some)
    }

    fn encode(&self, buf: &mut Vec<u8>) {
        self.is_some().encode(buf);
    }
}

impl<'a> Decode<'a> for Option<StrictKeyExchange> {
    type Model = bool;

    open spec fn model(&self) -> bool {
        *self is Some
    }

    open spec fn parse(bytes: Seq<u8>) -> Parsed<bool> {
        parse_bool(bytes)
    }

    fn decode(buf: &'a [u8]) -> (r: Result<Decoded<'a, Self>, ProtoError>) {
        let Decoded { value, next } = bool::decode(buf)?;
        let value = if value {
            Some(StrictKeyExchange {  })
        } else {
            None
        };
        Ok(Decoded { value, next })
    }
}

/// The `SSH_MSG_KEXINIT` message.
///
/// Lists the algorithms each side supports, in preference order
/// (<https://www.rfc-editor.org/rfc/rfc4253#section-7.1>).
#[derive(Debug)]
pub struct KeyExchangeInit<'a> {
    /// Random bytes.
    pub cookie: [u8; 16],
    /// The key exchange algorithms, and extension markers among them.
    pub key_exchange_algorithms: Vec<KeyExchangeAlgorithmOrExtensionId<'a>>,
    /// The host key algorithms.
    pub server_host_key_algorithms: Vec<PublicKeyAlgorithm<'a>>,
    /// The encryption algorithms for packets from the client to the server.
    pub encryption_algorithms_client_to_server: Vec<EncryptionAlgorithm<'a>>,
    /// The encryption algorithms for packets from the server to the client.
    pub encryption_algorithms_server_to_client: Vec<EncryptionAlgorithm<'a>>,
    /// The MAC algorithms for packets from the client to the server.
    pub mac_algorithms_client_to_server: Vec<MacAlgorithm<'a>>,
    /// The MAC algorithms for packets from the server to the client.
    pub mac_algorithms_server_to_client: Vec<MacAlgorithm<'a>>,
    /// The compression algorithms for packets from the client to the server.
    pub compression_algorithms_client_to_server: Vec<CompressionAlgorithm<'a>>,
    /// The compression algorithms for packets from the server to the client.
    pub compression_algorithms_server_to_client: Vec<CompressionAlgorithm<'a>>,
    /// The languages of texts from the client to the server.
    pub languages_client_to_server: Vec<Language<'a>>,
    /// The languages of texts from the server to the client.
    pub languages_server_to_client: Vec<Language<'a>>,
    /// Whether a guessed key exchange packet follows.
    pub first_kex_packet_follows: bool,
    /// Reserved for extensions.
    pub extended: u32,
}

/// What a [`KeyExchangeInit`] says.
pub struct KeyExchangeInitView {
    /// Random bytes.
    pub cookie: Seq<u8>,
    /// The key exchange algorithms, and extension markers among them.
    pub key_exchange_algorithms: Seq<KeyExchangeAlgorithmOrExtensionIdView>,
    /// The host key algorithms.
    pub server_host_key_algorithms: Seq<PublicKeyAlgorithmView>,
    /// The encryption algorithms for packets from the client to the server.
    pub encryption_algorithms_client_to_server: Seq<EncryptionAlgorithmView>,
    /// The encryption algorithms for packets from the server to the client.
    pub encryption_algorithms_server_to_client: Seq<EncryptionAlgorithmView>,
    /// The MAC algorithms for packets from the client to the server.
    pub mac_algorithms_client_to_server: Seq<MacAlgorithmView>,
    /// The MAC algorithms for packets from the server to the client.
    pub mac_algorithms_server_to_client: Seq<MacAlgorithmView>,
    /// The compression algorithms for packets from the client to the server.
    pub compression_algorithms_client_to_server: Seq<CompressionAlgorithmView>,
    /// The compression algorithms for packets from the server to the client.
    pub compression_algorithms_server_to_client: Seq<CompressionAlgorithmView>,
    /// The languages of texts from the client to the server.
    pub languages_client_to_server: Seq<LanguageView>,
    /// The languages of texts from the server to the client.
    pub languages_server_to_client: Seq<LanguageView>,
    /// Whether a guessed key exchange packet follows.
    pub first_kex_packet_follows: bool,
    /// Reserved for extensions.
    pub extended: u32,
}

impl View for KeyExchangeInit<'_> {
    type V = KeyExchangeInitView;

    open spec fn view(&self) -> KeyExchangeInitView {
        KeyExchangeInitView {
            cookie: self.cookie@,
            key_exchange_algorithms: views(self.key_exchange_algorithms@),
            server_host_key_algorithms: views(self.server_host_key_algorithms@),
            encryption_algorithms_client_to_server: views(self.encryption_algorithms_client_to_server@),
            encryption_algorithms_server_to_client: views(self.encryption_algorithms_server_to_client@),
            mac_algorithms_client_to_server: views(self.mac_algorithms_client_to_server@),
            mac_algorithms_server_to_client: views(self.mac_algorithms_server_to_client@),
            compression_algorithms_client_to_server: views(self.compression_algorithms_client_to_server@),
            compression_algorithms_server_to_client: views(self.compression_algorithms_server_to_client@),
            languages_client_to_server: views(self.languages_client_to_server@),
            languages_server_to_client: views(self.languages_server_to_client@),
            first_kex_packet_follows: self.first_kex_packet_follows,
            extended: self.extended,
        }
    }
}

impl KeyExchangeInitView {
    /// Whether an extension marker is among the key exchange algorithms.
    pub open spec fn has(self, extension: ExtensionIdView) -> bool {
        self.key_exchange_algorithms.contains(
            KeyExchangeAlgorithmOrExtensionIdView::Extension(extension),
        )
    }

    /// The fields of the message after the message type.
    pub open spec fn field(self, k: int) -> Seq<u8> {
        if k == 0 {
            self.cookie
        } else if k == 1 {
            names_wire::<KeyExchangeAlgorithmOrExtensionId>(self.key_exchange_algorithms)
        } else if k == 2 {
            names_wire::<PublicKeyAlgorithm>(self.server_host_key_algorithms)
        } else if k == 3 {
            names_wire::<EncryptionAlgorithm>(self.encryption_algorithms_client_to_server)
        } else if k == 4 {
            names_wire::<EncryptionAlgorithm>(self.encryption_algorithms_server_to_client)
        } else if k == 5 {
            names_wire::<MacAlgorithm>(self.mac_algorithms_client_to_server)
        } else if k == 6 {
            names_wire::<MacAlgorithm>(self.mac_algorithms_server_to_client)
        } else if k == 7 {
            names_wire::<CompressionAlgorithm>(self.compression_algorithms_client_to_server)
        } else if k == 8 {
            names_wire::<CompressionAlgorithm>(self.compression_algorithms_server_to_client)
        } else if k == 9 {
            names_wire::<Language>(self.languages_client_to_server)
        } else if k == 10 {
            names_wire::<Language>(self.languages_server_to_client)
        } else if k == 11 {
            bool_wire(self.first_kex_packet_follows)
        } else {
            u32_wire(self.extended)
        }
    }

    /// The fields of the message from field `k` on.
    pub open spec fn fields(self, k: int) -> Seq<u8>
        decreases 13 - k,
    {
        if k >= 13 {
            Seq::empty()
        } else {
            self.field(k) + self.fields(k + 1)
        }
    }

    /// The message without the message type.
    pub open spec fn payload(self) -> Seq<u8> {
        self.fields(0)
    }
}

impl KeyExchangeInit<'_> {
    /// What the payload of a key exchange initiation says.
    pub open spec fn parse(payload: Seq<u8>) -> Result<KeyExchangeInitView, ProtoError> {
        match parse_fixed(payload, 16) {
            Err(e) => Err(e),
            Ok((cookie, next)) => match parse_names::<KeyExchangeAlgorithmOrExtensionId>(next) {
                Err(e) => Err(e),
                Ok((key_exchange_algorithms, next)) => match parse_names::<PublicKeyAlgorithm>(next) {
                Err(e) => Err(e),
                Ok((server_host_key_algorithms, next)) => match parse_names::<EncryptionAlgorithm>(next) {
                Err(e) => Err(e),
                Ok((encryption_algorithms_client_to_server, next)) => match parse_names::<EncryptionAlgorithm>(next) {
                Err(e) => Err(e),
                Ok((encryption_algorithms_server_to_client, next)) => match parse_names::<MacAlgorithm>(next) {
                Err(e) => Err(e),
                Ok((mac_algorithms_client_to_server, next)) => match parse_names::<MacAlgorithm>(next) {
                Err(e) => Err(e),
                Ok((mac_algorithms_server_to_client, next)) => match parse_names::<CompressionAlgorithm>(next) {
                Err(e) => Err(e),
                Ok((compression_algorithms_client_to_server, next)) => match parse_names::<CompressionAlgorithm>(next) {
                Err(e) => Err(e),
                Ok((compression_algorithms_server_to_client, next)) => match parse_names::<Language>(next) {
                Err(e) => Err(e),
                Ok((languages_client_to_server, next)) => match parse_names::<Language>(next) {
                Err(e) => Err(e),
                Ok((languages_server_to_client, next)) => match parse_u8(next) {
                Err(e) => Err(e),
                Ok((first, next)) => match parse_u32(next) {
                    Err(e) => Err(e),
                    Ok((extended, next)) => if next.len() != 0 {
                        Err(ProtoError::InvalidPacket("unexpected trailing bytes"))
                    } else {
                        Ok(
                            KeyExchangeInitView {
                                cookie,
                                key_exchange_algorithms,
                                server_host_key_algorithms,
                                encryption_algorithms_client_to_server,
                                encryption_algorithms_server_to_client,
                                mac_algorithms_client_to_server,
                                mac_algorithms_server_to_client,
                                compression_algorithms_client_to_server,
                                compression_algorithms_server_to_client,
                                languages_client_to_server,
                                languages_server_to_client,
                                first_kex_packet_follows: first != 0,
                                extended,
                            },
                        )
                    },
                },
            },
            },
            },
            },
            },
            },
            },
            },
            },
            },
            },
        }
    }

    fn has_extension(&self, extension: ExtensionId<'_>) -> (r: bool)
        ensures
            r == self@.has(extension@),
    {
        let mut i: usize = 0;
        while i < self.key_exchange_algorithms.len()
            invariant
                i <= self.key_exchange_algorithms@.len(),
                forall|j: int|
                    0 <= j < i ==> self@.key_exchange_algorithms[j]
                        != KeyExchangeAlgorithmOrExtensionIdView::Extension(extension@),
            decreases self.key_exchange_algorithms@.len() - i,
        {
            if let KeyExchangeAlgorithmOrExtensionId::Extension(found) =
                &self.key_exchange_algorithms[i] {
                if found.same(&extension) {
                    assert(self@.key_exchange_algorithms[i as int]
                        == KeyExchangeAlgorithmOrExtensionIdView::Extension(extension@));
                    return true;
                }
            }
            i += 1;
        }
        false
    }
}

impl<'a> TryFrom<IncomingPacket<'a>> for KeyExchangeInit<'a> {
    type Error = ProtoError;

    fn try_from(packet: IncomingPacket<'a>) -> (r: Result<Self, ProtoError>)
        ensures
            if packet.message_type == MessageType::KeyExchangeInit {
                KeyExchangeInit::parse(packet.payload@) == match r {
                    Ok(m) => Ok::<KeyExchangeInitView, ProtoError>(m@),
                    Err(e) => Err::<KeyExchangeInitView, ProtoError>(e),
                }
            } else {
                unexpected(packet, seq![MessageType::KeyExchangeInit], r)
            },
    {
        packet.expect(&[MessageType::KeyExchangeInit])?;

        let Decoded { value: cookie, next } = <[u8; 16]>::decode(packet.payload)?;
        let Decoded { value: key_exchange_algorithms, next } = IncomingNameList::<
            KeyExchangeAlgorithmOrExtensionId<'a>,
        >::decode(next)?;
        let Decoded { value: server_host_key_algorithms, next } = IncomingNameList::<
            PublicKeyAlgorithm<'a>,
        >::decode(next)?;
        let Decoded { value: encryption_algorithms_client_to_server, next } = IncomingNameList::<
            EncryptionAlgorithm<'a>,
        >::decode(next)?;
        let Decoded { value: encryption_algorithms_server_to_client, next } = IncomingNameList::<
            EncryptionAlgorithm<'a>,
        >::decode(next)?;
        let Decoded { value: mac_algorithms_client_to_server, next } = IncomingNameList::<
            MacAlgorithm<'a>,
        >::decode(next)?;
        let Decoded { value: mac_algorithms_server_to_client, next } = IncomingNameList::<
            MacAlgorithm<'a>,
        >::decode(next)?;
        let Decoded { value: compression_algorithms_client_to_server, next } = IncomingNameList::<
            CompressionAlgorithm<'a>,
        >::decode(next)?;
        let Decoded { value: compression_algorithms_server_to_client, next } = IncomingNameList::<
            CompressionAlgorithm<'a>,
        >::decode(next)?;
        let Decoded { value: languages_client_to_server, next } = IncomingNameList::<
            Language<'a>,
        >::decode(next)?;
        let Decoded { value: languages_server_to_client, next } = IncomingNameList::<
            Language<'a>,
        >::decode(next)?;
        let Decoded { value: first_kex_packet_follows, next } = u8::decode(next)?;
        let Decoded { value: extended, next } = u32::decode(next)?;

        let value = KeyExchangeInit {
            cookie,
            key_exchange_algorithms: key_exchange_algorithms.0,
            server_host_key_algorithms: server_host_key_algorithms.0,
            encryption_algorithms_client_to_server: encryption_algorithms_client_to_server.0,
            encryption_algorithms_server_to_client: encryption_algorithms_server_to_client.0,
            mac_algorithms_client_to_server: mac_algorithms_client_to_server.0,
            mac_algorithms_server_to_client: mac_algorithms_server_to_client.0,
            compression_algorithms_client_to_server: compression_algorithms_client_to_server.0,
            compression_algorithms_server_to_client: compression_algorithms_server_to_client.0,
            languages_client_to_server: languages_client_to_server.0,
            languages_server_to_client: languages_server_to_client.0,
            first_kex_packet_follows: first_kex_packet_follows != 0,
            extended,
        };

        if next.len() != 0 {
            return Err(ProtoError::InvalidPacket("unexpected trailing bytes"));
        }
        Ok(value)
    }
}

impl<'a> vstd::std_specs::convert::TryFromSpecImpl<IncomingPacket<'a>> for KeyExchangeInit<'a> {
    open spec fn obeys_try_from_spec() -> bool {
        false
    }

    open spec fn try_from_spec(packet: IncomingPacket<'a>) -> Result<Self, ProtoError> {
        arbitrary()
    }
}

impl Encode for KeyExchangeInit<'_> {
    open spec fn wire(&self) -> Seq<u8> {
        type_wire(MessageType::KeyExchangeInit) + self@.payload()
    }

    fn encode(&self, buf: &mut Vec<u8>) {
        let KeyExchangeInit {
            cookie,
            key_exchange_algorithms,
            server_host_key_algorithms,
            encryption_algorithms_client_to_server,
            encryption_algorithms_server_to_client,
            mac_algorithms_client_to_server,
            mac_algorithms_server_to_client,
            compression_algorithms_client_to_server,
            compression_algorithms_server_to_client,
            languages_client_to_server,
            languages_server_to_client,
            first_kex_packet_follows,
            extended,
        } = self;

        let ghost all = old(buf)@ + self.wire();
        MessageType::KeyExchangeInit.encode(buf);
        proof {
            lemma_assoc(old(buf)@, type_wire(MessageType::KeyExchangeInit), self@.fields(0));
        }
        let ghost before = buf@;
        put(buf, cookie);
        proof {
            lemma_assoc(before, self@.field(0), self@.fields(1));
        }
        let ghost before = buf@;
        OutgoingNameList(key_exchange_algorithms.as_slice()).encode(buf);
        proof {
            lemma_assoc(before, self@.field(1), self@.fields(2));
        }
        let ghost before = buf@;
        OutgoingNameList(server_host_key_algorithms.as_slice()).encode(buf);
        proof {
            lemma_assoc(before, self@.field(2), self@.fields(3));
        }
        let ghost before = buf@;
        OutgoingNameList(encryption_algorithms_client_to_server.as_slice()).encode(buf);
        proof {
            lemma_assoc(before, self@.field(3), self@.fields(4));
        }
        let ghost before = buf@;
        OutgoingNameList(encryption_algorithms_server_to_client.as_slice()).encode(buf);
        proof {
            lemma_assoc(before, self@.field(4), self@.fields(5));
        }
        let ghost before = buf@;
        OutgoingNameList(mac_algorithms_client_to_server.as_slice()).encode(buf);
        proof {
            lemma_assoc(before, self@.field(5), self@.fields(6));
        }
        let ghost before = buf@;
        OutgoingNameList(mac_algorithms_server_to_client.as_slice()).encode(buf);
        proof {
            lemma_assoc(before, self@.field(6), self@.fields(7));
        }
        let ghost before = buf@;
        OutgoingNameList(compression_algorithms_client_to_server.as_slice()).encode(buf);
        proof {
            lemma_assoc(before, self@.field(7), self@.fields(8));
        }
        let ghost before = buf@;
        OutgoingNameList(compression_algorithms_server_to_client.as_slice()).encode(buf);
        proof {
            lemma_assoc(before, self@.field(8), self@.fields(9));
        }
        let ghost before = buf@;
        OutgoingNameList(languages_client_to_server.as_slice()).encode(buf);
        proof {
            lemma_assoc(before, self@.field(9), self@.fields(10));
        }
        let ghost before = buf@;
        OutgoingNameList(languages_server_to_client.as_slice()).encode(buf);
        proof {
            lemma_assoc(before, self@.field(10), self@.fields(11));
        }
        let ghost before = buf@;
        first_kex_packet_follows.encode(buf);
        proof {
            lemma_assoc(before, self@.field(11), self@.fields(12));
        }
        let ghost before = buf@;
        extended.encode(buf);
        proof {
            lemma_assoc(before, self@.field(12), self@.fields(13));
            assert(buf@ + self@.fields(13) =~= buf@);
        }
        assert(buf@ == all);
    }
}

proof fn lemma_assoc(a: Seq<u8>, b: Seq<u8>, c: Seq<u8>)
    ensures
        (a + b) + c == a + (b + c),
{
    assert((a + b) + c =~= a + (b + c));
}

/// The names of values that can be read back: no name holds a comma, there is not just one name
/// that is empty, and the names fit the length field.
pub open spec fn listable<'a, T: Named<'a>>(values: Seq<T::V>) -> bool {
    &&& with_commas(encoded_names::<T>(values)).len() <= u32::MAX
    &&& forall|i: int| 0 <= i < values.len() ==> !(#[trigger] T::spec_name(values[i])).contains(',')
    &&& !(values.len() == 1 && T::spec_name(values[0]).len() == 0)
    &&& forall|i: int|
        0 <= i < values.len() ==> T::spec_typed(T::spec_name(#[trigger] values[i])) == values[i]
}

proof fn lemma_names<'a, T: Named<'a>>(values: Seq<T::V>, rest: Seq<u8>)
    requires
        listable::<T>(values),
    ensures
        parse_names::<T>(names_wire::<T>(values) + rest) == Ok::<(Seq<T::V>, Seq<u8>), ProtoError>(
            (values, rest),
        ),
{
    name_list_round_trip::<T>(values, rest);
    assert(values.map_values(|value: T::V| T::spec_typed(T::spec_name(value))) =~= values);
}

/// A key exchange initiation says what it was made to say, where the names in its lists can be
/// read back.
pub proof fn key_exchange_init_round_trip(m: KeyExchangeInitView)
    requires
        m.cookie.len() == 16,
        listable::<KeyExchangeAlgorithmOrExtensionId>(m.key_exchange_algorithms),
        listable::<PublicKeyAlgorithm>(m.server_host_key_algorithms),
        listable::<EncryptionAlgorithm>(m.encryption_algorithms_client_to_server),
        listable::<EncryptionAlgorithm>(m.encryption_algorithms_server_to_client),
        listable::<MacAlgorithm>(m.mac_algorithms_client_to_server),
        listable::<MacAlgorithm>(m.mac_algorithms_server_to_client),
        listable::<CompressionAlgorithm>(m.compression_algorithms_client_to_server),
        listable::<CompressionAlgorithm>(m.compression_algorithms_server_to_client),
        listable::<Language>(m.languages_client_to_server),
        listable::<Language>(m.languages_server_to_client),
    ensures
        KeyExchangeInit::parse(m.payload()) == Ok::<KeyExchangeInitView, ProtoError>(m),
{
    assert(m.fields(0).take(16) =~= m.cookie);
    assert(m.fields(0).skip(16) =~= m.fields(1));
    lemma_names::<KeyExchangeAlgorithmOrExtensionId>(m.key_exchange_algorithms, m.fields(2));
    lemma_names::<PublicKeyAlgorithm>(m.server_host_key_algorithms, m.fields(3));
    lemma_names::<EncryptionAlgorithm>(m.encryption_algorithms_client_to_server, m.fields(4));
    lemma_names::<EncryptionAlgorithm>(m.encryption_algorithms_server_to_client, m.fields(5));
    lemma_names::<MacAlgorithm>(m.mac_algorithms_client_to_server, m.fields(6));
    lemma_names::<MacAlgorithm>(m.mac_algorithms_server_to_client, m.fields(7));
    lemma_names::<CompressionAlgorithm>(m.compression_algorithms_client_to_server, m.fields(8));
    lemma_names::<CompressionAlgorithm>(m.compression_algorithms_server_to_client, m.fields(9));
    lemma_names::<Language>(m.languages_client_to_server, m.fields(10));
    lemma_names::<Language>(m.languages_server_to_client, m.fields(11));
    bool_round_trip(m.first_kex_packet_follows, m.fields(12));
    u32_round_trip(m.extended, m.fields(13));
    lemma_bool_byte(m.first_kex_packet_follows, m.fields(12));
}

proof fn lemma_bool_byte(b: bool, rest: Seq<u8>)
    ensures
        parse_u8(bool_wire(b) + rest) matches Ok((value, next)) && next == rest && (value != 0) == b,
{
    assert((bool_wire(b) + rest).take(1) =~= bool_wire(b));
    assert((bool_wire(b) + rest).skip(1) =~= rest);
}

/// A value without the zero bytes at its start.
pub open spec fn stripped(value: Seq<u8>) -> Seq<u8>
    decreases value.len(),
{
    if value.len() == 0 || value[0] != 0 {
        value
    } else {
        stripped(value.skip(1))
    }
}

/// The contents of an mpint: the value without leading zero bytes, behind one zero byte where
/// the most significant bit is set.
pub open spec fn mpint(value: Seq<u8>) -> Seq<u8> {
    let digits = stripped(value);
    if digits.len() > 0 && digits[0] >= 0x80 {
        seq![0u8] + digits
    } else {
        digits
    }
}

/// An unsigned value as an mpint (RFC 4251 section 5).
pub open spec fn mpint_wire(value: Seq<u8>) -> Seq<u8> {
    string_wire(mpint(value))
}

/// Append `value` to `buf` as an SSH mpint (RFC 4251 section 5).
///
/// Leading zero bytes are stripped, and a single zero byte is prepended when the
/// most significant bit is set so the value is interpreted as positive.
pub fn encode_mpint(value: &[u8], buf: &mut Vec<u8>)
    ensures
        final(buf)@ == old(buf)@ + mpint_wire(value@),
{
    let mut first: usize = 0;
    assert(value@.skip(0) =~= value@);
    while first < value.len() && value[first] == 0
        invariant
            first <= value@.len(),
            stripped(value@) == stripped(value@.skip(first as int)),
        decreases value@.len() - first,
    {
        assert(value@.skip(first as int).skip(1) =~= value@.skip(first + 1));
        first += 1;
    }
    let trimmed = slice_subrange(value, first, value.len());
    assert(trimmed@ =~= value@.skip(first as int));
    assert(trimmed@ == stripped(value@));

    let mut contents: Vec<u8> = Vec::new();
    if trimmed.len() > 0 && trimmed[0] >= 0x80 {
        contents.push(0);
    }
    put(&mut contents, trimmed);
    assert(contents@ =~= mpint(value@));
    contents.as_slice().encode(buf);
}

/// The contents of a public key blob: the name of the algorithm, the name of the curve for
/// ECDSA (RFC 5656 section 3.1), and the key.
pub open spec fn public_key_blob(algorithm: PublicKeyAlgorithmView, key: Seq<u8>) -> Seq<u8> {
    if algorithm is EcdsaSha2Nistp256 {
        name_wire::<PublicKeyAlgorithm>(algorithm) + text_wire("nistp256"@) + string_wire(key)
    } else {
        name_wire::<PublicKeyAlgorithm>(algorithm) + string_wire(key)
    }
}

/// The bytes that `cow` holds.
pub open spec fn cow_bytes_view(cow: Cow<'_, [u8]>) -> Seq<u8> {
    match cow {
        Cow::Borrowed(bytes) => bytes@,
        Cow::Owned(bytes) => bytes@,
    }
}

/// The bytes that `cow` holds.
pub fn cow_bytes<'b>(cow: &'b Cow<'_, [u8]>) -> (r: &'b [u8])
    ensures
        r@ == cow_bytes_view(*cow),
{
    match cow {
        Cow::Borrowed(bytes) => bytes,
        Cow::Owned(bytes) => bytes.as_slice(),
    }
}

/// A public key together with its algorithm.
#[derive(Debug)]
pub struct TaggedPublicKey<'a> {
    /// The algorithm of the key.
    pub algorithm: PublicKeyAlgorithm<'a>,
    /// The key.
    pub key: Cow<'a, [u8]>,
}

impl Encode for TaggedPublicKey<'_> {
    open spec fn wire(&self) -> Seq<u8> {
        string_wire(public_key_blob(self.algorithm@, cow_bytes_view(self.key)))
    }

    fn encode(&self, buf: &mut Vec<u8>) {
        let TaggedPublicKey { algorithm, key } = self;
        let mut blob: Vec<u8> = Vec::new();
        algorithm.encode(&mut blob);

        // RFC 5656 section 3.1: an ECDSA public key blob carries the curve
        // identifier between the algorithm name and the point `Q`.
        if let PublicKeyAlgorithm::EcdsaSha2Nistp256 = algorithm {
            put_string(&mut blob, "nistp256");
        }
        cow_bytes(key).encode(&mut blob);
        assert(blob@ =~= public_key_blob(self.algorithm@, cow_bytes_view(self.key)));
        blob.as_slice().encode(buf);
    }
}

/// The contents of a signature blob: the name of the algorithm and the signature. An ECDSA
/// signature is the pair of its halves as mpints (RFC 5656 section 3.1.2).
pub open spec fn signature_blob(algorithm: PublicKeyAlgorithmView, signature: Seq<u8>) -> Seq<u8> {
    if algorithm is EcdsaSha2Nistp256 {
        let half = signature.len() as int / 2;
        name_wire::<PublicKeyAlgorithm>(algorithm) + string_wire(
            mpint_wire(signature.take(half)) + mpint_wire(signature.skip(half)),
        )
    } else {
        name_wire::<PublicKeyAlgorithm>(algorithm) + string_wire(signature)
    }
}

/// A signature together with its algorithm, which is one that can be used for signing.
pub struct TaggedSignature<'a> {
    algorithm: PublicKeyAlgorithm<'a>,
    signature: Vec<u8>,
}

impl<'a> TaggedSignature<'a> {
    #[verifier::type_invariant]
    spec fn inv(self) -> bool {
        !(self.algorithm@ is Unknown)
    }

    /// The algorithm of the signature.
    pub closed spec fn spec_algorithm(&self) -> PublicKeyAlgorithmView {
        self.algorithm@
    }

    /// The signature as the algorithm gives it.
    pub closed spec fn spec_signature(&self) -> Seq<u8> {
        self.signature@
    }

    /// A signature made with the given algorithm.
    pub fn new(algorithm: PublicKeyAlgorithm<'a>, signature: Vec<u8>) -> (r: Self)
        requires
            !(algorithm@ is Unknown),
        ensures
            r.spec_algorithm() == algorithm@,
            r.spec_signature() == signature@,
    {
        TaggedSignature { algorithm, signature }
    }
}

impl Encode for TaggedSignature<'_> {
    open spec fn wire(&self) -> Seq<u8> {
        string_wire(signature_blob(self.spec_algorithm(), self.spec_signature()))
    }

    fn encode(&self, buf: &mut Vec<u8>) {
        proof {
            use_type_invariant(self);
        }
        let TaggedSignature { algorithm, signature } = self;
        let mut blob: Vec<u8> = Vec::new();
        algorithm.encode(&mut blob);

        match algorithm {
            // RFC 5656 section 3.1.2: the ECDSA signature blob is the pair of
            // integers `r` and `s`, each encoded as an mpint. The signing key
            // gives the fixed-length `r || s` form, which is split in half.
            PublicKeyAlgorithm::EcdsaSha2Nistp256 => {
                let half: usize = signature.len() / 2;
                let (r, s) = signature.as_slice().split_at(half);
                assert(r@ =~= signature@.take(half as int));
                assert(s@ =~= signature@.skip(half as int));
                let mut pair: Vec<u8> = Vec::new();
                encode_mpint(r, &mut pair);
                encode_mpint(s, &mut pair);
                assert(pair@ =~= mpint_wire(r@) + mpint_wire(s@));
                pair.as_slice().encode(&mut blob);
            },
            _ => signature.as_slice().encode(&mut blob),
        }
        assert(blob@ =~= signature_blob(self.spec_algorithm(), self.spec_signature()));
        blob.as_slice().encode(buf);
    }
}

/// The `SSH_MSG_KEX_ECDH_INIT` message.
///
/// Carries the client's ephemeral public key (<https://www.rfc-editor.org/rfc/rfc5656#section-4>).
#[derive(Debug)]
pub struct EcdhKeyExchangeInit<'a> {
    /// Also known as `Q_C` (<https://www.rfc-editor.org/rfc/rfc5656#section-4>).
    pub client_ephemeral_public_key: &'a [u8],
}

impl EcdhKeyExchangeInit<'_> {
    /// The public key in the payload of the message.
    pub open spec fn parse(payload: Seq<u8>) -> Result<Seq<u8>, ProtoError> {
        match parse_string(payload) {
            Err(e) => Err(e),
            Ok((key, next)) => if next.len() != 0 {
                Err(ProtoError::InvalidPacket("unexpected trailing bytes"))
            } else {
                Ok(key)
            },
        }
    }
}

impl<'a> TryFrom<IncomingPacket<'a>> for EcdhKeyExchangeInit<'a> {
    type Error = ProtoError;

    fn try_from(packet: IncomingPacket<'a>) -> (r: Result<Self, ProtoError>)
        ensures
            if packet.message_type == MessageType::KeyExchangeEcdhInit {
                EcdhKeyExchangeInit::parse(packet.payload@) == match r {
                    Ok(m) => Ok::<Seq<u8>, ProtoError>(m.client_ephemeral_public_key@),
                    Err(e) => Err::<Seq<u8>, ProtoError>(e),
                }
            } else {
                unexpected(packet, seq![MessageType::KeyExchangeEcdhInit], r)
            },
    {
        packet.expect(&[MessageType::KeyExchangeEcdhInit])?;

        let Decoded { value: client_ephemeral_public_key, next } = <&[u8]>::decode(packet.payload)?;

        if next.len() != 0 {
            return Err(ProtoError::InvalidPacket("unexpected trailing bytes"));
        }
        Ok(EcdhKeyExchangeInit { client_ephemeral_public_key })
    }
}

impl<'a> vstd::std_specs::convert::TryFromSpecImpl<IncomingPacket<'a>> for EcdhKeyExchangeInit<'a> {
    open spec fn obeys_try_from_spec() -> bool {
        false
    }

    open spec fn try_from_spec(packet: IncomingPacket<'a>) -> Result<Self, ProtoError> {
        arbitrary()
    }
}

/// The first of the client's choices that the server has as well.
pub open spec fn first_common<V>(client: Seq<V>, server: Seq<V>, i: int) -> Option<V>
    decreases client.len() - i,
{
    if i >= client.len() {
        None
    } else if server.contains(client[i]) {
        Some(client[i])
    } else {
        first_common(client, server, i + 1)
    }
}

/// The first of the client's key exchange algorithms that the server has as well. Extension
/// markers do not count.
pub open spec fn first_key_exchange(
    client: Seq<KeyExchangeAlgorithmOrExtensionIdView>,
    server: Seq<KeyExchangeAlgorithmOrExtensionIdView>,
    i: int,
) -> Option<KeyExchangeAlgorithmView>
    decreases client.len() - i,
{
    if i >= client.len() {
        None
    } else {
        match client[i] {
            KeyExchangeAlgorithmOrExtensionIdView::KeyExchange(algorithm) if server.contains(
                client[i],
            ) => Some(algorithm),
            _ => first_key_exchange(client, server, i + 1),
        }
    }
}

/// Where in `list` the value is.
fn position<'a, T: Named<'a>>(list: &[T], value: &T) -> (r: Option<usize>)
    ensures
        match r {
            Some(i) => i < list@.len() && list@[i as int]@ == value@ && views(list@).contains(
                value@,
            ),
            None => !views(list@).contains(value@),
        },
{
    let mut i: usize = 0;
    while i < list.len()
        invariant
            i <= list@.len(),
            forall|j: int| 0 <= j < i ==> views(list@)[j] != value@,
        decreases list@.len() - i,
    {
        if list[i].same(value) {
            assert(views(list@)[i as int] == value@);
            return Some(i);
        }
        i += 1;
    }
    None
}

/// Where in the server's list the first common choice is.
fn common<'a, T: Named<'a>>(client: &[T], server: &[T]) -> (r: Option<usize>)
    ensures
        match r {
            Some(i) => i < server@.len() && first_common(views(client@), views(server@), 0) == Some(
                server@[i as int]@,
            ),
            None => first_common(views(client@), views(server@), 0) is None,
        },
{
    let mut i: usize = 0;
    while i < client.len()
        invariant
            i <= client@.len(),
            first_common(views(client@), views(server@), 0) == first_common(
                views(client@),
                views(server@),
                i as int,
            ),
        decreases client@.len() - i,
    {
        if let Some(found) = position(server, &client[i]) {
            return Some(found);
        }
        i += 1;
    }
    None
}

/// The algorithms negotiated from the client's and server's `SSH_MSG_KEXINIT`.
///
/// See <https://www.rfc-editor.org/rfc/rfc4253#section-7.1> for the negotiation procedure.
#[derive(Debug)]
pub struct Negotiated {
    /// Negotiated key exchange algorithm.
    pub key_exchange: KeyExchangeAlgorithm<'static>,
    /// Negotiated host key algorithm.
    pub server_host_key: PublicKeyAlgorithm<'static>,
    /// Negotiated encryption algorithm for packets from the client to the server.
    pub encryption_client_to_server: EncryptionAlgorithm<'static>,
    /// Negotiated encryption algorithm for packets from the server to the client.
    pub encryption_server_to_client: EncryptionAlgorithm<'static>,
    /// Whether the client requested `SSH_MSG_EXT_INFO` via `ext-info-c` (RFC 8308).
    pub want_extension_info: bool,
    /// Whether the client requested strict key exchange via `kex-strict-c-v00@openssh.com`.
    pub strict_key_exchange: bool,
}

/// What was [`Negotiated`].
pub struct NegotiatedView {
    /// Negotiated key exchange algorithm.
    pub key_exchange: KeyExchangeAlgorithmView,
    /// Negotiated host key algorithm.
    pub server_host_key: PublicKeyAlgorithmView,
    /// Negotiated encryption algorithm for packets from the client to the server.
    pub encryption_client_to_server: EncryptionAlgorithmView,
    /// Negotiated encryption algorithm for packets from the server to the client.
    pub encryption_server_to_client: EncryptionAlgorithmView,
    /// Whether the client requested `SSH_MSG_EXT_INFO`.
    pub want_extension_info: bool,
    /// Whether the client requested strict key exchange.
    pub strict_key_exchange: bool,
}

impl View for Negotiated {
    type V = NegotiatedView;

    open spec fn view(&self) -> NegotiatedView {
        NegotiatedView {
            key_exchange: self.key_exchange@,
            server_host_key: self.server_host_key@,
            encryption_client_to_server: self.encryption_client_to_server@,
            encryption_server_to_client: self.encryption_server_to_client@,
            want_extension_info: self.want_extension_info,
            strict_key_exchange: self.strict_key_exchange,
        }
    }
}

impl Negotiated {
    /// The algorithms that the two sides agree on.
    pub open spec fn agreed(client: KeyExchangeInitView, server: KeyExchangeInitView) -> Result<
        NegotiatedView,
        ProtoError,
    > {
        match (
            first_key_exchange(client.key_exchange_algorithms, server.key_exchange_algorithms, 0),
            first_common(client.server_host_key_algorithms, server.server_host_key_algorithms, 0),
            first_common(
                client.encryption_algorithms_client_to_server,
                server.encryption_algorithms_client_to_server,
                0,
            ),
            first_common(
                client.encryption_algorithms_server_to_client,
                server.encryption_algorithms_server_to_client,
                0,
            ),
        ) {
            (None, _, _, _) => Err(ProtoError::NoCommonAlgorithm("key exchange")),
            (_, None, _, _) => Err(ProtoError::NoCommonAlgorithm("host key")),
            (_, _, None, _) => Err(ProtoError::NoCommonAlgorithm("encryption (client to server)")),
            (_, _, _, None) => Err(ProtoError::NoCommonAlgorithm("encryption (server to client)")),
            (Some(key_exchange), Some(host_key), Some(client_to_server), Some(server_to_client)) =>
                Ok(
                NegotiatedView {
                    key_exchange,
                    server_host_key: host_key,
                    encryption_client_to_server: client_to_server,
                    encryption_server_to_client: server_to_client,
                    want_extension_info: client.has(ExtensionIdView::ExtInfoC),
                    strict_key_exchange: client.has(ExtensionIdView::StrictKexClient),
                },
            ),
        }
    }

    /// Choose the algorithms that the two sides agree on.
    pub fn negotiate(client: &KeyExchangeInit<'_>, server: &KeyExchangeInit<'static>) -> (r: Result<
        Self,
        ProtoError,
    >)
        ensures
            Negotiated::agreed(client@, server@) == match r {
                Ok(negotiated) => Ok::<NegotiatedView, ProtoError>(negotiated@),
                Err(e) => Err::<NegotiatedView, ProtoError>(e),
            },
    {
        let mut key_exchange: Option<KeyExchangeAlgorithm<'static>> = None;
        let mut i: usize = 0;
        while i < client.key_exchange_algorithms.len() && key_exchange.is_none()
            invariant
                i <= client.key_exchange_algorithms@.len(),
                match key_exchange {
                    None => first_key_exchange(
                        client@.key_exchange_algorithms,
                        server@.key_exchange_algorithms,
                        0,
                    ) == first_key_exchange(
                        client@.key_exchange_algorithms,
                        server@.key_exchange_algorithms,
                        i as int,
                    ),
                    Some(algorithm) => first_key_exchange(
                        client@.key_exchange_algorithms,
                        server@.key_exchange_algorithms,
                        0,
                    ) == Some(algorithm@),
                },
            decreases client.key_exchange_algorithms@.len() - i,
        {
            let candidate = &client.key_exchange_algorithms[i];
            assert(client@.key_exchange_algorithms[i as int] == candidate@);
            if let KeyExchangeAlgorithmOrExtensionId::KeyExchange(_) = candidate {
                if let Some(found) = position(
                    server.key_exchange_algorithms.as_slice(),
                    candidate,
                ) {
                    if let KeyExchangeAlgorithmOrExtensionId::KeyExchange(algorithm) =
                        server.key_exchange_algorithms[found] {
                        key_exchange = Some(algorithm);
                    }
                }
            }
            i += 1;
        }
        let Some(key_exchange) = key_exchange else {
            return Err(ProtoError::NoCommonAlgorithm("key exchange"));
        };

        let Some(i) = common(
            client.server_host_key_algorithms.as_slice(),
            server.server_host_key_algorithms.as_slice(),
        ) else {
            return Err(ProtoError::NoCommonAlgorithm("host key"));
        };
        let server_host_key = server.server_host_key_algorithms[i].clone();

        let Some(i) = common(
            client.encryption_algorithms_client_to_server.as_slice(),
            server.encryption_algorithms_client_to_server.as_slice(),
        ) else {
            return Err(ProtoError::NoCommonAlgorithm("encryption (client to server)"));
        };
        let encryption_client_to_server = server.encryption_algorithms_client_to_server[i].clone();

        let Some(i) = common(
            client.encryption_algorithms_server_to_client.as_slice(),
            server.encryption_algorithms_server_to_client.as_slice(),
        ) else {
            return Err(ProtoError::NoCommonAlgorithm("encryption (server to client)"));
        };
        let encryption_server_to_client = server.encryption_algorithms_server_to_client[i].clone();

        Ok(
            Negotiated {
                key_exchange,
                server_host_key,
                encryption_client_to_server,
                encryption_server_to_client,
                want_extension_info: client.has_extension(ExtensionId::ExtInfoC),
                strict_key_exchange: client.has_extension(ExtensionId::StrictKexClient),
            },
        )
    }
}

/// The first common choice is in both lists, and nothing that the client would rather have is in
/// the server's.
pub proof fn first_common_is_preferred<V>(client: Seq<V>, server: Seq<V>)
    ensures
        match first_common(client, server, 0) {
            Some(choice) => server.contains(choice) && exists|i: int|
                #![trigger client[i]]
                0 <= i < client.len() && client[i] == choice && forall|j: int|
                    0 <= j < i ==> !server.contains(#[trigger] client[j]),
            None => forall|j: int| 0 <= j < client.len() ==> !server.contains(#[trigger] client[j]),
        },
{
    lemma_first_common(client, server, 0);
}

proof fn lemma_first_common<V>(client: Seq<V>, server: Seq<V>, from: int)
    requires
        0 <= from <= client.len(),
        forall|j: int| 0 <= j < from ==> !server.contains(#[trigger] client[j]),
    ensures
        match first_common(client, server, from) {
            Some(choice) => server.contains(choice) && exists|i: int|
                #![trigger client[i]]
                0 <= i < client.len() && client[i] == choice && forall|j: int|
                    0 <= j < i ==> !server.contains(#[trigger] client[j]),
            None => forall|j: int| 0 <= j < client.len() ==> !server.contains(#[trigger] client[j]),
        },
    decreases client.len() - from,
{
    if from < client.len() && !server.contains(client[from]) {
        lemma_first_common(client, server, from + 1);
    }
}

/// The key exchange algorithm that is chosen is the first of the client's that the server has as
/// well.
pub proof fn first_key_exchange_is_preferred(
    client: Seq<KeyExchangeAlgorithmOrExtensionIdView>,
    server: Seq<KeyExchangeAlgorithmOrExtensionIdView>,
)
    ensures
        match first_key_exchange(client, server, 0) {
            Some(choice) => {
                let named = KeyExchangeAlgorithmOrExtensionIdView::KeyExchange(choice);
                server.contains(named) && exists|i: int|
                    #![trigger client[i]]
                    0 <= i < client.len() && client[i] == named && forall|j: int|
                        0 <= j < i ==> !((#[trigger] client[j]) is KeyExchange && server.contains(
                            client[j],
                        ))
            },
            None => forall|j: int|
                0 <= j < client.len() ==> !((#[trigger] client[j]) is KeyExchange
                    && server.contains(client[j])),
        },
{
    lemma_first_key_exchange(client, server, 0);
}

proof fn lemma_first_key_exchange(
    client: Seq<KeyExchangeAlgorithmOrExtensionIdView>,
    server: Seq<KeyExchangeAlgorithmOrExtensionIdView>,
    from: int,
)
    requires
        0 <= from <= client.len(),
        forall|j: int|
            0 <= j < from ==> !((#[trigger] client[j]) is KeyExchange && server.contains(client[j])),
    ensures
        match first_key_exchange(client, server, from) {
            Some(choice) => {
                let named = KeyExchangeAlgorithmOrExtensionIdView::KeyExchange(choice);
                server.contains(named) && exists|i: int|
                    #![trigger client[i]]
                    0 <= i < client.len() && client[i] == named && forall|j: int|
                        0 <= j < i ==> !((#[trigger] client[j]) is KeyExchange && server.contains(
                            client[j],
                        ))
            },
            None => forall|j: int|
                0 <= j < client.len() ==> !((#[trigger] client[j]) is KeyExchange
                    && server.contains(client[j])),
        },
    decreases client.len() - from,
{
    if from < client.len() && !(client[from] is KeyExchange && server.contains(client[from])) {
        lemma_first_key_exchange(client, server, from + 1);
    }
}

/// The `SSH_MSG_NEWKEYS` message.
///
/// Signals that all following packets use the newly negotiated keys and algorithms.
///
/// See <https://www.rfc-editor.org/rfc/rfc4253#section-7.3>.
#[derive(Debug)]
pub struct NewKeys;

impl NewKeys {
    /// What the payload of the message says.
    pub open spec fn parse(payload: Seq<u8>) -> Result<(), ProtoError> {
        if payload.len() != 0 {
            Err(ProtoError::InvalidPacket("unexpected trailing bytes"))
        } else {
            Ok(())
        }
    }
}

impl<'a> TryFrom<IncomingPacket<'a>> for NewKeys {
    type Error = ProtoError;

    fn try_from(packet: IncomingPacket<'a>) -> (r: Result<Self, ProtoError>)
        ensures
            if packet.message_type == MessageType::NewKeys {
                NewKeys::parse(packet.payload@) == match r {
                    Ok(_) => Ok::<(), ProtoError>(()),
                    Err(e) => Err::<(), ProtoError>(e),
                }
            } else {
                unexpected(packet, seq![MessageType::NewKeys], r)
            },
    {
        packet.expect(&[MessageType::NewKeys])?;

        if packet.payload.len() != 0 {
            return Err(ProtoError::InvalidPacket("unexpected trailing bytes"));
        }
        Ok(NewKeys)
    }
}

impl<'a> vstd::std_specs::convert::TryFromSpecImpl<IncomingPacket<'a>> for NewKeys {
    open spec fn obeys_try_from_spec() -> bool {
        false
    }

    open spec fn try_from_spec(packet: IncomingPacket<'a>) -> Result<Self, ProtoError> {
        arbitrary()
    }
}

impl Encode for NewKeys {
    open spec fn wire(&self) -> Seq<u8> {
        type_wire(MessageType::NewKeys)
    }

    fn encode(&self, buf: &mut Vec<u8>) {
        MessageType::NewKeys.encode(buf);
    }
}

/// Identities from the connection's initial setup.
///
/// Used to derive the session id and the exchange hash for rekeying.
#[derive(Debug)]
pub struct Identities {
    /// Client identity.
    pub client: Vec<u8>,
    /// Server identity.
    pub server: Vec<u8>,
}

/// What two [`Identities`] are.
#[verifier::ext_equal]
pub struct IdentitiesView {
    /// Client identity.
    pub client: Seq<u8>,
    /// Server identity.
    pub server: Seq<u8>,
}

impl View for Identities {
    type V = IdentitiesView;

    open spec fn view(&self) -> IdentitiesView {
        IdentitiesView { client: self.client@, server: self.server@ }
    }
}

impl IdentitiesView {
    /// The two identities as `string`s.
    pub open spec fn bytes(self) -> Seq<u8> {
        string_wire(self.client) + string_wire(self.server)
    }
}

/// What decoding identities gives.
pub open spec fn parse_identities(bytes: Seq<u8>) -> Parsed<IdentitiesView> {
    match parse_string(bytes) {
        Err(e) => Err(e),
        Ok((client, next)) => match parse_string(next) {
            Err(e) => Err(e),
            Ok((server, next)) => Ok((IdentitiesView { client, server }, next)),
        },
    }
}

impl Encode for Identities {
    open spec fn wire(&self) -> Seq<u8> {
        self@.bytes()
    }

    fn encode(&self, buf: &mut Vec<u8>) {
        let Identities { client, server } = self;
        client.as_slice().encode(buf);
        server.as_slice().encode(buf);
        assert(buf@ =~= old(buf)@ + self@.bytes());
    }
}

impl<'a> Decode<'a> for Identities {
    type Model = IdentitiesView;

    open spec fn model(&self) -> IdentitiesView {
        self@
    }

    open spec fn parse(bytes: Seq<u8>) -> Parsed<IdentitiesView> {
        parse_identities(bytes)
    }

    fn decode(bytes: &'a [u8]) -> (r: Result<Decoded<'a, Self>, ProtoError>) {
        let Decoded { value: client, next } = <&[u8]>::decode(bytes)?;
        let Decoded { value: server, next } = <&[u8]>::decode(next)?;

        Ok(Decoded { value: Identities { client: copied(client), server: copied(server) }, next })
    }
}

/// Identities that fit their length fields are read back as they were written.
pub proof fn identities_round_trip(identities: IdentitiesView, rest: Seq<u8>)
    requires
        identities.client.len() <= u32::MAX,
        identities.server.len() <= u32::MAX,
    ensures
        parse_identities(identities.bytes() + rest) == Ok::<(IdentitiesView, Seq<u8>), ProtoError>(
            (identities, rest),
        ),
{
    assert(identities.bytes() + rest =~= string_wire(identities.client) + (string_wire(
        identities.server,
    ) + rest));
    string_round_trip(identities.client, string_wire(identities.server) + rest);
    string_round_trip(identities.server, rest);
}

/// The `SSH_MSG_EXT_INFO` message.
///
/// Carries protocol extensions such as `server-sig-algs`.
///
/// See <https://www.rfc-editor.org/rfc/rfc8308#section-2.3>.
pub struct ExtInfo<'a> {
    /// The extensions, each with the algorithms that it lists.
    pub extensions: Vec<(ExtensionName<'a>, OutgoingNameList<'a, PublicKeyAlgorithm<'static>>)>,
}

/// The first `n` extensions, each as its name and value.
pub open spec fn extensions_wire(
    extensions: Seq<(ExtensionName<'_>, OutgoingNameList<'_, PublicKeyAlgorithm<'static>>)>,
    n: int,
) -> Seq<u8>
    decreases n,
{
    if n <= 0 {
        Seq::empty()
    } else {
        extensions_wire(extensions, n - 1) + name_wire::<ExtensionName>(extensions[n - 1].0@)
            + names_wire::<PublicKeyAlgorithm>(views(extensions[n - 1].1.0@))
    }
}

impl Encode for ExtInfo<'_> {
    open spec fn wire(&self) -> Seq<u8> {
        type_wire(MessageType::ExtInfo) + u32_wire(self.extensions@.len() as u32)
            + extensions_wire(self.extensions@, self.extensions@.len() as int)
    }

    fn encode(&self, buf: &mut Vec<u8>) {
        let ExtInfo { extensions } = self;
        MessageType::ExtInfo.encode(buf);
        (extensions.len() as u32).encode(buf);
        let ghost head = buf@;
        let mut i: usize = 0;
        assert(buf@ =~= head + extensions_wire(extensions@, 0));
        while i < extensions.len()
            invariant
                i <= extensions@.len(),
                buf@ == head + extensions_wire(extensions@, i as int),
            decreases extensions@.len() - i,
        {
            let (name, value) = &extensions[i];
            name.encode(buf);
            value.encode(buf);
            i += 1;
            assert(buf@ =~= head + extensions_wire(extensions@, i as int));
        }
        assert(buf@ =~= old(buf)@ + self.wire());
    }
}

/// The `SSH_MSG_KEXINIT` message of the server.
pub open spec fn own_init(
    cookie: Seq<u8>,
    supported: SupportedAlgorithmsView,
    host_keys: Seq<PublicKeyAlgorithmView>,
    extensions: Seq<ExtensionIdView>,
) -> KeyExchangeInitView {
    KeyExchangeInitView {
        cookie,
        key_exchange_algorithms: supported.key_exchange.map_values(
            |algorithm: KeyExchangeAlgorithmView|
                KeyExchangeAlgorithmOrExtensionIdView::KeyExchange(algorithm),
        ) + extensions.map_values(
            |extension: ExtensionIdView|
                KeyExchangeAlgorithmOrExtensionIdView::Extension(extension),
        ),
        server_host_key_algorithms: host_keys,
        encryption_algorithms_client_to_server: supported.encryption,
        encryption_algorithms_server_to_client: supported.encryption,
        mac_algorithms_client_to_server: supported.mac,
        mac_algorithms_server_to_client: supported.mac,
        compression_algorithms_client_to_server: seq![CompressionAlgorithmView::NoCompression],
        compression_algorithms_server_to_client: seq![CompressionAlgorithmView::NoCompression],
        languages_client_to_server: Seq::empty(),
        languages_server_to_client: Seq::empty(),
        first_kex_packet_follows: false,
        extended: 0,
    }
}

fn encryption_list(list: &[EncryptionAlgorithm<'static>]) -> (r: Vec<EncryptionAlgorithm<'static>>)
    ensures
        views(r@) == views(list@),
{
    let mut out: Vec<EncryptionAlgorithm<'static>> = Vec::new();
    let mut i: usize = 0;
    while i < list.len()
        invariant
            i <= list@.len(),
            out@.len() == i,
            forall|j: int| 0 <= j < i ==> (#[trigger] out@[j])@ == list@[j]@,
        decreases list@.len() - i,
    {
        out.push(list[i].clone());
        i += 1;
    }
    assert(views(out@) =~= views(list@));
    out
}

fn mac_list(list: &[MacAlgorithm<'static>]) -> (r: Vec<MacAlgorithm<'static>>)
    ensures
        views(r@) == views(list@),
{
    let mut out: Vec<MacAlgorithm<'static>> = Vec::new();
    let mut i: usize = 0;
    while i < list.len()
        invariant
            i <= list@.len(),
            out@.len() == i,
            forall|j: int| 0 <= j < i ==> (#[trigger] out@[j])@ == list@[j]@,
        decreases list@.len() - i,
    {
        out.push(list[i]);
        i += 1;
    }
    assert(views(out@) =~= views(list@));
    out
}

fn key_exchange_list(
    list: &[KeyExchangeAlgorithm<'static>],
    extensions: &[ExtensionId<'static>],
) -> (r: Vec<KeyExchangeAlgorithmOrExtensionId<'static>>)
    ensures
        views(r@) == views(list@).map_values(
            |algorithm: KeyExchangeAlgorithmView|
                KeyExchangeAlgorithmOrExtensionIdView::KeyExchange(algorithm),
        ) + views(extensions@).map_values(
            |extension: ExtensionIdView|
                KeyExchangeAlgorithmOrExtensionIdView::Extension(extension),
        ),
{
    let mut out: Vec<KeyExchangeAlgorithmOrExtensionId<'static>> = Vec::new();
    let mut i: usize = 0;
    while i < list.len()
        invariant
            i <= list@.len(),
            out@.len() == i,
            forall|j: int|
                0 <= j < i ==> (#[trigger] out@[j])@
                    == KeyExchangeAlgorithmOrExtensionIdView::KeyExchange(list@[j]@),
        decreases list@.len() - i,
    {
        out.push(KeyExchangeAlgorithmOrExtensionId::KeyExchange(list[i]));
        i += 1;
    }
    let mut i: usize = 0;
    while i < extensions.len()
        invariant
            i <= extensions@.len(),
            out@.len() == list@.len() + i,
            forall|j: int|
                0 <= j < list@.len() ==> (#[trigger] out@[j])@
                    == KeyExchangeAlgorithmOrExtensionIdView::KeyExchange(list@[j]@),
            forall|j: int|
                list@.len() <= j < out@.len() ==> (#[trigger] out@[j])@
                    == KeyExchangeAlgorithmOrExtensionIdView::Extension(
                    extensions@[j - list@.len()]@,
                ),
        decreases extensions@.len() - i,
    {
        out.push(KeyExchangeAlgorithmOrExtensionId::Extension(extensions[i]));
        i += 1;
    }
    assert(views(out@) =~= views(list@).map_values(
        |algorithm: KeyExchangeAlgorithmView|
            KeyExchangeAlgorithmOrExtensionIdView::KeyExchange(algorithm),
    ) + views(extensions@).map_values(
        |extension: ExtensionIdView| KeyExchangeAlgorithmOrExtensionIdView::Extension(extension),
    ));
    out
}

/// Output from the initial key exchange phase.
pub struct KeyExchange {
    /// Our own `SSH_MSG_KEXINIT` message, to be sent to the peer.
    pub local: KeyExchangeInit<'static>,
    /// The in-progress exchange hash computation.
    pub exchange: HandshakeHash,
    /// The negotiated algorithms.
    pub negotiated: Negotiated,
}

/// A cookie for our own initiation: 16 bytes from the provider's source of random bytes.
pub open spec fn random_cookie(provider: Provider<'_>, cookie: Seq<u8>) -> bool {
    cookie.len() == 16 && provider.0.spec_secure_random().0.spec_fill(16, Ok(cookie))
}

/// The outcome of negotiating with a peer whose initiation is `peer`.
pub open spec fn negotiation(
    peer: KeyExchangeInitView,
    own: KeyExchangeInitView,
    exchange: Seq<u8>,
    provider: Provider<'_>,
    r: Result<(KeyExchange, Option<StrictKeyExchange>, Option<ExtInfo<'static>>), ProtoError>,
) -> bool {
    match Negotiated::agreed(peer, own) {
        Err(e) => r matches Err(error) && error == e,
        Ok(negotiated) => match provider.0.spec_hash(negotiated.key_exchange) {
            Err(e) => r matches Err(error) && error == ProtoError::Crypto(e),
            Ok(hash) => match r {
                Err(_) => false,
                Ok((kx, strict, ext_info)) => {
                    &&& kx.local@ == own
                    &&& kx.negotiated@ == negotiated
                    &&& kx.exchange@ == exchange
                    &&& kx.exchange.algorithm() == hash
                    &&& strict is Some == negotiated.strict_key_exchange
                    &&& match ext_info {
                        Some(info) => {
                            &&& negotiated.want_extension_info
                            &&& info.extensions@.len() == 1
                            &&& info.extensions@[0].0@ == ExtensionNameView::ServerSigAlgs
                            &&& views(info.extensions@[0].1.0@)
                                == provider.0.spec_supported_algorithms().public_key
                        },
                        None => !negotiated.want_extension_info,
                    }
                },
            },
        },
    }
}

/// The outcome of processing the peer's `SSH_MSG_KEXINIT` after `exchange` has gone into the
/// exchange hash.
pub open spec fn started(
    packet: IncomingPacket<'_>,
    exchange: Seq<u8>,
    server_host_key_algorithms: Seq<PublicKeyAlgorithmView>,
    extensions: Seq<ExtensionIdView>,
    provider: Provider<'_>,
    r: Result<(KeyExchange, Option<StrictKeyExchange>, Option<ExtInfo<'static>>), ProtoError>,
) -> bool {
    if packet.message_type != MessageType::KeyExchangeInit {
        unexpected(packet, seq![MessageType::KeyExchangeInit], r)
    } else {
        match KeyExchangeInit::parse(packet.payload@) {
            Err(e) => r matches Err(error) && error == e,
            Ok(peer) => {
                // Without random bytes there is no cookie.
                ||| r matches Err(ProtoError::Crypto(e))
                    && provider.0.spec_secure_random().0.spec_fill(16, Err(e))
                ||| exists|cookie: Seq<u8>|
                    random_cookie(provider, cookie) && negotiation(
                        peer,
                        #[trigger] own_init(
                            cookie,
                            provider.0.spec_supported_algorithms(),
                            server_host_key_algorithms,
                            extensions,
                        ),
                        exchange + string_wire(type_wire(packet.message_type) + packet.payload@),
                        provider,
                        r,
                    )
            },
        }
    }
}

/// The outcome of completing a key exchange with the client's public value.
pub open spec fn completed(
    kx: KeyExchange,
    client_public: Seq<u8>,
    host_keys: HostKeys,
    provider: Provider<'_>,
    r: Result<(ServerHostKey<'_>, EcdhKeyExchangeReply, Digest, KeySourceSet), CryptoError>,
) -> bool {
    match host_keys.first_with(kx.negotiated.server_host_key@, 0) {
        None => r matches Err(e) && e == CryptoError::UnknownAlgorithm,
        Some(i) => match r {
            Ok((host_key, reply, session_id, keys)) => {
                &&& *host_key.key == host_keys.keys@[i].key
                &&& host_key.pkcs8@ == host_keys.keys@[i].pkcs8@
                &&& reply_follows(
                    kx.exchange@,
                    kx.exchange.algorithm(),
                    client_public,
                    kx.negotiated@,
                    None,
                    *host_key.key,
                    provider,
                    reply,
                    session_id@,
                    keys,
                )
            },
            Err(e) => reply_fails(client_public, kx.negotiated@, provider, e),
        },
    }
}

impl KeyExchange {
    /// Process the peer's `SSH_MSG_KEXINIT` and negotiate algorithms.
    ///
    /// See <https://www.rfc-editor.org/rfc/rfc4253#section-7.1> for the negotiation procedure.
    pub fn start(
        packet: IncomingPacket<'_>,
        exchange: HandshakeBuffer,
        server_host_key_algorithms: Vec<PublicKeyAlgorithm<'static>>,
        extensions: &[ExtensionId<'static>],
        provider: Provider<'_>,
    ) -> (r: Result<
        (Self, Option<StrictKeyExchange>, Option<ExtInfo<'static>>),
        ProtoError,
    >)
        ensures
            started(
                packet,
                exchange@,
                views(server_host_key_algorithms@),
                views(extensions@),
                provider,
                r,
            ),
    {
        let mut exchange = exchange;
        let mut init: Vec<u8> = Vec::new();
        packet.message_type.encode(&mut init);
        put(&mut init, packet.payload);
        assert(init@ =~= type_wire(packet.message_type) + packet.payload@);
        exchange.prefixed(init.as_slice());

        let peer_key_exchange_init = KeyExchangeInit::try_from(packet)?;

        let mut cookie: [u8; 16] = [0; 16];
        match provider.0.secure_random().0.fill(&mut cookie) {
            Ok(()) => {},
            Err(e) => return Err(ProtoError::Crypto(e)),
        }
        KeyExchange::negotiate(
            &peer_key_exchange_init,
            exchange,
            cookie,
            server_host_key_algorithms,
            extensions,
            provider,
        )
    }

    /// Negotiate algorithms with a peer, given the random bytes for the server's own message.
    pub fn negotiate(
        peer: &KeyExchangeInit<'_>,
        exchange: HandshakeBuffer,
        cookie: [u8; 16],
        server_host_key_algorithms: Vec<PublicKeyAlgorithm<'static>>,
        extensions: &[ExtensionId<'static>],
        provider: Provider<'_>,
    ) -> (r: Result<
        (Self, Option<StrictKeyExchange>, Option<ExtInfo<'static>>),
        ProtoError,
    >)
        ensures
            negotiation(
                peer@,
                own_init(
                    cookie@,
                    provider.0.spec_supported_algorithms(),
                    views(server_host_key_algorithms@),
                    views(extensions@),
                ),
                exchange@,
                provider,
                r,
            ),
    {
        let supported = provider.0.supported_algorithms();
        let local = KeyExchangeInit {
            cookie,
            key_exchange_algorithms: key_exchange_list(supported.key_exchange, extensions),
            server_host_key_algorithms,
            encryption_algorithms_client_to_server: encryption_list(supported.encryption),
            encryption_algorithms_server_to_client: encryption_list(supported.encryption),
            mac_algorithms_client_to_server: mac_list(supported.mac),
            mac_algorithms_server_to_client: mac_list(supported.mac),
            compression_algorithms_client_to_server: vec![CompressionAlgorithm::NoCompression],
            compression_algorithms_server_to_client: vec![CompressionAlgorithm::NoCompression],
            languages_client_to_server: Vec::new(),
            languages_server_to_client: Vec::new(),
            first_kex_packet_follows: false,
            extended: 0,
        };
        proof {
            let own = own_init(
                cookie@,
                provider.0.spec_supported_algorithms(),
                views(server_host_key_algorithms@),
                views(extensions@),
            );
            assert(local@.compression_algorithms_client_to_server
                =~= own.compression_algorithms_client_to_server);
            assert(local@.compression_algorithms_server_to_client
                =~= own.compression_algorithms_server_to_client);
            assert(local@.languages_client_to_server =~= own.languages_client_to_server);
            assert(local@.languages_server_to_client =~= own.languages_server_to_client);
            assert(local@ == own);
        }

        let negotiated = Negotiated::negotiate(peer, &local)?;
        let ext_info = if negotiated.want_extension_info {
            Some(
                ExtInfo {
                    extensions: vec![
                        (ExtensionName::ServerSigAlgs, OutgoingNameList(supported.public_key)),
                    ],
                },
            )
        } else {
            None
        };
        let strict = if negotiated.strict_key_exchange {
            Some(StrictKeyExchange {  })
        } else {
            None
        };
        let hash = match provider.0.hash(&negotiated.key_exchange) {
            Ok(hash) => hash,
            Err(e) => return Err(ProtoError::Crypto(e)),
        };

        Ok((KeyExchange { local, exchange: exchange.hash(hash), negotiated }, strict, ext_info))
    }

    /// Complete the key exchange and produce the reply message, exchange hash and derived keys.
    pub fn complete<'h>(
        self,
        ecdh_key_exchange_init: EcdhKeyExchangeInit<'_>,
        host_keys: &'h HostKeys,
        provider: Provider<'_>,
    ) -> (r: Result<(ServerHostKey<'h>, EcdhKeyExchangeReply, Digest, KeySourceSet), CryptoError>)
        requires
            host_keys.wf(),
        ensures
            completed(
                self,
                ecdh_key_exchange_init.client_ephemeral_public_key@,
                *host_keys,
                provider,
                r,
            ),
    {
        let host_key = host_keys.key(&self.negotiated.server_host_key)?;
        let no_session: Option<Digest> = None;
        assert(id_bytes(no_session) is None);
        let (reply, session_id, keys) = EcdhKeyExchangeReply::new(
            ecdh_key_exchange_init,
            &self.negotiated,
            self.exchange,
            no_session,
            host_key.key,
            provider,
        )?;
        Ok((host_key, reply, session_id, keys))
    }
}

/// The `SSH_MSG_KEX_ECDH_REPLY` message.
///
/// Carries the server's host key, its ephemeral public key and its signature over the exchange hash
/// (<https://www.rfc-editor.org/rfc/rfc5656#section-4>).
pub struct EcdhKeyExchangeReply {
    /// The server's host key.
    pub server_public_host_key: TaggedPublicKey<'static>,
    /// The server's ephemeral public key.
    pub server_ephemeral_public_key: Vec<u8>,
    /// The signature over the exchange hash.
    pub exchange_hash_signature: TaggedSignature<'static>,
}

impl Encode for EcdhKeyExchangeReply {
    open spec fn wire(&self) -> Seq<u8> {
        type_wire(MessageType::KeyExchangeEcdhReply) + string_wire(
            public_key_blob(
                self.server_public_host_key.algorithm@,
                cow_bytes_view(self.server_public_host_key.key),
            ),
        ) + string_wire(self.server_ephemeral_public_key@) + string_wire(
            signature_blob(
                self.exchange_hash_signature.spec_algorithm(),
                self.exchange_hash_signature.spec_signature(),
            ),
        )
    }

    fn encode(&self, buf: &mut Vec<u8>) {
        let EcdhKeyExchangeReply {
            server_public_host_key,
            server_ephemeral_public_key,
            exchange_hash_signature,
        } = self;

        MessageType::KeyExchangeEcdhReply.encode(buf);
        server_public_host_key.encode(buf);
        server_ephemeral_public_key.as_slice().encode(buf);
        exchange_hash_signature.encode(buf);
        assert(buf@ =~= old(buf)@ + self.wire());
    }
}

/// The raw hashes from which we will derive the crypto keys.
///
/// See <https://www.rfc-editor.org/rfc/rfc4253#section-7.2>.
pub struct KeySourceSet {
    /// Key material for the client-to-server direction.
    pub client_to_server: KeySourceSide,
    /// Key material for the server-to-client direction.
    pub server_to_client: KeySourceSide,
}

/// The shared secret as it goes into hashes: an mpint for X25519 (RFC 8731 section 3), a `string`
/// for the hybrid with a fixed-length secret.
pub open spec fn secret_wire(algorithm: KeyExchangeAlgorithmView, secret: Seq<u8>) -> Seq<u8> {
    if algorithm is Curve25519Sha256 {
        mpint_wire(secret)
    } else {
        string_wire(secret)
    }
}

/// What goes into the exchange hash after the two initiations: the host key (`K_S`), the
/// ephemeral public keys (`Q_C` and `Q_S`) and the shared secret (`K`).
pub open spec fn exchanged(
    algorithm: KeyExchangeAlgorithmView,
    host_key: Signer,
    client_public: Seq<u8>,
    server_public: Seq<u8>,
    secret: Seq<u8>,
) -> Seq<u8> {
    string_wire(public_key_blob(host_key.0.spec_algorithm(), host_key.0.spec_public_key()))
        + string_wire(client_public) + string_wire(server_public) + secret_wire(algorithm, secret)
}

/// The bytes of a session identifier, if there is one.
pub open spec fn id_bytes(session_id: Option<Digest>) -> Option<Seq<u8>> {
    match session_id {
        Some(id) => Some(id@),
        None => None,
    }
}

/// A reply, exchange hash and keys that follow from a key exchange in which the server's public
/// value and the shared secret are as given.
#[verifier::opaque]
pub open spec fn replied(
    exchange: Seq<u8>,
    hash: crate::crypto::HashFunction,
    client_public: Seq<u8>,
    negotiated: NegotiatedView,
    session_id: Option<Seq<u8>>,
    host_key: Signer,
    provider: Provider<'_>,
    server_public: Seq<u8>,
    secret: Seq<u8>,
    reply: EcdhKeyExchangeReply,
    exchange_hash: Seq<u8>,
    keys: KeySourceSet,
) -> bool {
    &&& reply.server_public_host_key.algorithm@ == host_key.0.spec_algorithm()
    &&& cow_bytes_view(reply.server_public_host_key.key) == host_key.0.spec_public_key()
    &&& reply.server_ephemeral_public_key@ == server_public
    &&& reply.exchange_hash_signature.spec_algorithm() == host_key.0.spec_algorithm()
    &&& exchange_hash == hash.0.spec_digest(
        exchange + exchanged(
            negotiated.key_exchange,
            host_key,
            client_public,
            server_public,
            secret,
        ),
    )
    &&& host_key.0.spec_signs(exchange_hash, reply.exchange_hash_signature.spec_signature())
    &&& match provider.0.spec_hash(negotiated.key_exchange) {
        Err(_) => false,
        Ok(derivation_hash) => {
            let derivation = crate::crypto::KeyDerivationView {
                hash: derivation_hash,
                shared_secret: secret_wire(negotiated.key_exchange, secret),
                exchange_hash,
                // The first exchange hash is used as session id.
                session_id: match session_id {
                    Some(session_id) => session_id,
                    None => exchange_hash,
                },
            };
            &&& keys.client_to_server.derived(
                derivation,
                negotiated.encryption_client_to_server,
                65,
                67,
            )
            &&& keys.server_to_client.derived(
                derivation,
                negotiated.encryption_server_to_client,
                66,
                68,
            )
        },
    }
}

/// Whether a method can start with the ephemeral key, and completing it with the client's public
/// value can then have the outcome: the server's public value and the shared secret, or a failure.
pub open spec fn agrees_with(
    method: KeyAgreement,
    key: EphemeralKey,
    client_public: Seq<u8>,
    outcome: Result<(Seq<u8>, Seq<u8>), CryptoError>,
) -> bool {
    method.0.spec_start(Ok(key)) && key.0.spec_complete(client_public, outcome)
}

/// Whether the key agreement of an algorithm with the client's public value can give the server's
/// public value and the shared secret.
pub open spec fn agreed_on(
    provider: Provider<'_>,
    algorithm: KeyExchangeAlgorithmView,
    client_public: Seq<u8>,
    server_public: Seq<u8>,
    secret: Seq<u8>,
) -> bool {
    match provider.0.spec_key_exchange(algorithm) {
        Err(_) => false,
        Ok(method) => exists|key: EphemeralKey|
            agrees_with(method, key, client_public, Ok((server_public, secret))),
    }
}

/// Whether the key agreement of an algorithm with the client's public value can fail like this:
/// there is no such method, it does not start, or it cannot be completed.
pub open spec fn agreement_fails(
    provider: Provider<'_>,
    algorithm: KeyExchangeAlgorithmView,
    client_public: Seq<u8>,
    e: CryptoError,
) -> bool {
    match provider.0.spec_key_exchange(algorithm) {
        Err(error) => e == error,
        Ok(method) => method.0.spec_start(Err(e)) || exists|key: EphemeralKey|
            agrees_with(method, key, client_public, Err(e)),
    }
}

/// Whether keys cannot be derived for what was negotiated, and why.
pub open spec fn derivation_fails(
    negotiated: NegotiatedView,
    provider: Provider<'_>,
    e: CryptoError,
) -> bool {
    match provider.0.spec_hash(negotiated.key_exchange) {
        Err(error) => e == error,
        Ok(_) => {
            &&& e == CryptoError::UnknownAlgorithm
            &&& (negotiated.encryption_client_to_server.key_lengths() is None
                || negotiated.encryption_server_to_client.key_lengths() is None)
        },
    }
}

/// Whether a key exchange can fail like this: the key agreement does, or it succeeds and no keys
/// can be derived.
pub open spec fn reply_fails(
    client_public: Seq<u8>,
    negotiated: NegotiatedView,
    provider: Provider<'_>,
    e: CryptoError,
) -> bool {
    ||| agreement_fails(provider, negotiated.key_exchange, client_public, e)
    ||| {
        &&& derivation_fails(negotiated, provider, e)
        &&& exists|server_public: Seq<u8>, secret: Seq<u8>|
            agreed_on(provider, negotiated.key_exchange, client_public, server_public, secret)
    }
}

/// A reply, exchange hash and keys that follow from a key exchange, for some public value of the
/// server and some shared secret that were agreed on with the client's public value.
pub open spec fn reply_follows(
    exchange: Seq<u8>,
    hash: crate::crypto::HashFunction,
    client_public: Seq<u8>,
    negotiated: NegotiatedView,
    session_id: Option<Seq<u8>>,
    host_key: Signer,
    provider: Provider<'_>,
    reply: EcdhKeyExchangeReply,
    exchange_hash: Seq<u8>,
    keys: KeySourceSet,
) -> bool {
    exists|server_public: Seq<u8>, secret: Seq<u8>|
        {
            &&& agreed_on(
                provider,
                negotiated.key_exchange,
                client_public,
                server_public,
                secret,
            )
            &&& #[trigger] replied(
                exchange,
                hash,
                client_public,
                negotiated,
                session_id,
                host_key,
                provider,
                server_public,
                secret,
                reply,
                exchange_hash,
                keys,
            )
        }
}

/// All that two peers say to each other up to the end of a key exchange, and the secret that they
/// share (<https://www.rfc-editor.org/rfc/rfc5656#section-4>).
pub open spec fn handshake_bytes(
    identities: IdentitiesView,
    client_init: Seq<u8>,
    server_init: Seq<u8>,
    host_key: Signer,
    client_public: Seq<u8>,
    server_public: Seq<u8>,
    algorithm: KeyExchangeAlgorithmView,
    secret: Seq<u8>,
) -> Seq<u8> {
    string_wire(identities.client) + string_wire(identities.server) + string_wire(client_init)
        + string_wire(server_init) + string_wire(
        public_key_blob(host_key.0.spec_algorithm(), host_key.0.spec_public_key()),
    ) + string_wire(client_public) + string_wire(server_public) + secret_wire(algorithm, secret)
}

/// The exchange hash covers, in this order, the identifications of the client and the server,
/// their key exchange initiations, the host key, the ephemeral public keys of the client and the
/// server, and the shared secret (<https://www.rfc-editor.org/rfc/rfc5656#section-4>). The host key
/// signs it.
pub proof fn exchange_hash_covers_handshake(
    identities: IdentitiesView,
    client_init: Seq<u8>,
    server_init: Seq<u8>,
    hash: crate::crypto::HashFunction,
    client_public: Seq<u8>,
    negotiated: NegotiatedView,
    session_id: Option<Seq<u8>>,
    host_key: Signer,
    provider: Provider<'_>,
    server_public: Seq<u8>,
    secret: Seq<u8>,
    reply: EcdhKeyExchangeReply,
    exchange_hash: Seq<u8>,
    keys: KeySourceSet,
)
    requires
        replied(
            identities.bytes() + string_wire(client_init) + string_wire(server_init),
            hash,
            client_public,
            negotiated,
            session_id,
            host_key,
            provider,
            server_public,
            secret,
            reply,
            exchange_hash,
            keys,
        ),
    ensures
        host_key.0.spec_signs(exchange_hash, reply.exchange_hash_signature.spec_signature()),
        exchange_hash == hash.0.spec_digest(
            handshake_bytes(
                identities,
                client_init,
                server_init,
                host_key,
                client_public,
                server_public,
                negotiated.key_exchange,
                secret,
            ),
        ),
{
    reveal(replied);
    assert(identities.bytes() + string_wire(client_init) + string_wire(server_init) + exchanged(
        negotiated.key_exchange,
        host_key,
        client_public,
        server_public,
        secret,
    ) =~= handshake_bytes(
        identities,
        client_init,
        server_init,
        host_key,
        client_public,
        server_public,
        negotiated.key_exchange,
        secret,
    ));
}

impl EcdhKeyExchangeReply {
    /// Complete the key exchange started by the client's `SSH_MSG_KEX_ECDH_INIT`.
    ///
    /// Returns the reply message, the exchange hash and the derived key material
    /// (<https://www.rfc-editor.org/rfc/rfc4253#section-7.2>).
    fn new(
        ecdh_key_exchange_init: EcdhKeyExchangeInit<'_>,
        negotiated: &Negotiated,
        exchange: HandshakeHash,
        session_id: Option<Digest>,
        host_key: &Signer,
        provider: Provider<'_>,
    ) -> (r: Result<(Self, Digest, KeySourceSet), CryptoError>)
        requires
            !(host_key.0.spec_algorithm() is Unknown),
        ensures
            match r {
                Ok((reply, exchange_hash, keys)) => reply_follows(
                    exchange@,
                    exchange.algorithm(),
                    ecdh_key_exchange_init.client_ephemeral_public_key@,
                    negotiated@,
                    id_bytes(session_id),
                    *host_key,
                    provider,
                    reply,
                    exchange_hash@,
                    keys,
                ),
                Err(e) => reply_fails(
                    ecdh_key_exchange_init.client_ephemeral_public_key@,
                    negotiated@,
                    provider,
                    e,
                ),
            },
    {
        let client_public = ecdh_key_exchange_init.client_ephemeral_public_key;
        let method = provider.0.key_exchange(&negotiated.key_exchange)?;
        let key = method.0.start()?;
        let completed = match key.0.complete(client_public) {
            Ok(completed) => completed,
            Err(e) => {
                assert(agrees_with(method, key, client_public@, Err(e)));
                return Err(e);
            },
        };
        proof {
            let outcome = Ok((completed.public_key@, completed.shared_secret@));
            assert(agrees_with(method, key, client_public@, outcome));
            assert(agreed_on(
                provider,
                negotiated@.key_exchange,
                client_public@,
                completed.public_key@,
                completed.shared_secret@,
            ));
        }
        EcdhKeyExchangeReply::with_secret(
            client_public,
            completed,
            negotiated,
            exchange,
            session_id,
            host_key,
            provider,
        )
    }

    /// The reply message, the exchange hash and the derived key material, given the outcome of
    /// the key agreement.
    pub fn with_secret(
        client_public: &[u8],
        completed: CompletedKeyExchange,
        negotiated: &Negotiated,
        exchange: HandshakeHash,
        session_id: Option<Digest>,
        host_key: &Signer,
        provider: Provider<'_>,
    ) -> (r: Result<(Self, Digest, KeySourceSet), CryptoError>)
        requires
            !(host_key.0.spec_algorithm() is Unknown),
        ensures
            match r {
                Ok((reply, exchange_hash, keys)) => replied(
                    exchange@,
                    exchange.algorithm(),
                    client_public@,
                    negotiated@,
                    id_bytes(session_id),
                    *host_key,
                    provider,
                    completed.public_key@,
                    completed.shared_secret@,
                    reply,
                    exchange_hash@,
                    keys,
                ),
                Err(e) => derivation_fails(negotiated@, provider, e),
            },
    {
        proof {
            reveal(replied);
        }
        let KeyExchangeStarted { shared_secret, exchange_hash, reply } = KeyExchangeStarted::new(
            exchange,
            client_public,
            completed,
            negotiated,
            host_key,
        );

        // The first exchange hash is used as session id.
        let session_id = match session_id {
            Some(session_id) => session_id,
            None => exchange_hash.clone(),
        };
        let derivation = KeyDerivation {
            hash: provider.0.hash(&negotiated.key_exchange)?,
            shared_secret,
            exchange_hash: exchange_hash.clone(),
            session_id,
        };

        let client_to_server = KeySourceSide::client_to_server(
            &derivation,
            negotiated.encryption_client_to_server.clone(),
        )?;
        let server_to_client = KeySourceSide::server_to_client(
            &derivation,
            negotiated.encryption_server_to_client.clone(),
        )?;
        Ok((reply, exchange_hash, KeySourceSet { client_to_server, server_to_client }))
    }
}

/// A key exchange of which the shared secret is known.
pub struct KeyExchangeStarted {
    /// The shared secret, encoded as it goes into hashes.
    pub shared_secret: SharedSecret,
    /// The exchange hash.
    pub exchange_hash: Digest,
    /// The reply message.
    pub reply: EcdhKeyExchangeReply,
}

impl KeyExchangeStarted {
    fn new(
        exchange: HandshakeHash,
        client_ephemeral_public_key: &[u8],
        completed: CompletedKeyExchange,
        negotiated: &Negotiated,
        host_key: &Signer,
    ) -> (r: Self)
        requires
            !(host_key.0.spec_algorithm() is Unknown),
        ensures
            r.shared_secret@ == secret_wire(negotiated@.key_exchange, completed.shared_secret@),
            r.exchange_hash@ == exchange.algorithm().0.spec_digest(
                exchange@ + exchanged(
                    negotiated@.key_exchange,
                    *host_key,
                    client_ephemeral_public_key@,
                    completed.public_key@,
                    completed.shared_secret@,
                ),
            ),
            r.reply.server_public_host_key.algorithm@ == host_key.0.spec_algorithm(),
            cow_bytes_view(r.reply.server_public_host_key.key) == host_key.0.spec_public_key(),
            r.reply.server_ephemeral_public_key@ == completed.public_key@,
            r.reply.exchange_hash_signature.spec_algorithm() == host_key.0.spec_algorithm(),
            host_key.0.spec_signs(
                r.exchange_hash@,
                r.reply.exchange_hash_signature.spec_signature(),
            ),
    {
        let mut exchange = exchange;
        let ghost before = exchange@;

        // Write the server's public host key (`K_S`) to the exchange hash

        let server_public_host_key = TaggedPublicKey {
            algorithm: host_key.0.algorithm(),
            key: Cow::Owned(copied(host_key.0.public_key())),
        };
        let mut host_key_buf: Vec<u8> = Vec::with_capacity(128);
        server_public_host_key.encode(&mut host_key_buf);
        exchange.update(host_key_buf.as_slice());

        // Write the client's ephemeral public key (`Q_C`) to the exchange hash

        exchange.prefixed(client_ephemeral_public_key);

        // Write the server's reply public value (`Q_S` / `S_REPLY`) to the exchange hash
        exchange.prefixed(completed.public_key.as_slice());
        let secret_bytes = completed.shared_secret.secret_bytes();
        let mut shared_secret: Vec<u8> = Vec::new();
        match negotiated.key_exchange {
            // RFC 8731 section 3: `K` is the raw X25519 output encoded as an mpint
            KeyExchangeAlgorithm::Curve25519Sha256 => {
                encode_mpint(secret_bytes, &mut shared_secret)
            },
            // The PQ hybrid draft encodes `K` (a fixed-length hash output) as a string
            _ => secret_bytes.encode(&mut shared_secret),
        }
        assert(shared_secret@ =~= secret_wire(negotiated@.key_exchange, secret_bytes@));
        exchange.update(shared_secret.as_slice());
        assert(host_key_buf@ =~= string_wire(
            public_key_blob(host_key.0.spec_algorithm(), host_key.0.spec_public_key()),
        ));
        assert(exchange@ =~= before + exchanged(
            negotiated@.key_exchange,
            *host_key,
            client_ephemeral_public_key@,
            completed.public_key@,
            completed.shared_secret@,
        ));

        let exchange_hash = exchange.finish();
        let signature = host_key.0.sign(exchange_hash.as_bytes());
        KeyExchangeStarted {
            shared_secret: SharedSecret::new(shared_secret),
            reply: EcdhKeyExchangeReply {
                server_public_host_key,
                server_ephemeral_public_key: completed.public_key,
                exchange_hash_signature: TaggedSignature::new(host_key.0.algorithm(), signature),
            },
            exchange_hash,
        }
    }
}

/// Output of the initial key exchange.
pub struct KeyExchangeOutput<'a> {
    /// The identities exchanged after connection acceptance.
    pub identities: Identities,
    /// The host key used for the connection.
    pub host_key: ServerHostKey<'a>,
    /// The strict key exchange state, if negotiated.
    pub strict_kx: Option<StrictKeyExchange>,
    /// The session ID for the connection.
    pub session_id: Digest,
    /// The keys derived for the connection.
    pub keys: KeySourceSet,
    /// Whether post-quantum key exchange was negotiated.
    pub post_quantum_kx: bool,
}

/// State required for a rekeying exchange.
pub struct Rekey {
    /// The host key of the session.
    pub host_key: SessionHostKey,
    /// The identities exchanged after connection acceptance.
    pub identities: Identities,
    /// The strict key exchange state, if negotiated.
    pub strict_kx: Option<StrictKeyExchange>,
    /// The session ID for the connection.
    pub session_id: Digest,
}

/// The outcome of processing the client's `SSH_MSG_KEXINIT` in a session.
pub open spec fn restarted(
    rekey: Rekey,
    packet: IncomingPacket<'_>,
    provider: Provider<'_>,
    r: Result<KeyExchange, ProtoError>,
) -> bool {
    if packet.message_type != MessageType::KeyExchangeInit {
        unexpected(packet, seq![MessageType::KeyExchangeInit], r)
    } else {
        match KeyExchangeInit::parse(packet.payload@) {
            Err(e) => r matches Err(error) && error == e,
            Ok(peer) => {
                // Without random bytes there is no cookie.
                ||| r matches Err(ProtoError::Crypto(e))
                    && provider.0.spec_secure_random().0.spec_fill(16, Err(e))
                ||| exists|cookie: Seq<u8>|
                    random_cookie(provider, cookie) && renegotiation(
                        peer,
                        #[trigger] own_init(
                            cookie,
                            provider.0.spec_supported_algorithms(),
                            seq![rekey.host_key.0.0.spec_algorithm()],
                            Seq::empty(),
                        ),
                        rekey.identities@.bytes() + string_wire(
                            type_wire(packet.message_type) + packet.payload@,
                        ),
                        provider,
                        r,
                    )
            },
        }
    }
}

/// The outcome of completing a key exchange in a session with the client's public value.
pub open spec fn recompleted(
    rekey: Rekey,
    exchange: HandshakeHash,
    negotiated: NegotiatedView,
    client_public: Seq<u8>,
    provider: Provider<'_>,
    r: Result<(EcdhKeyExchangeReply, KeySourceSet), CryptoError>,
) -> bool {
    match r {
        Ok((reply, keys)) => exists|exchange_hash: Seq<u8>| #[trigger]
            reply_follows(
                exchange@,
                exchange.algorithm(),
                client_public,
                negotiated,
                Some(rekey.session_id@),
                rekey.host_key.0,
                provider,
                reply,
                exchange_hash,
                keys,
            ),
        Err(e) => reply_fails(client_public, negotiated, provider, e),
    }
}

impl Rekey {
    /// Create a new rekey state from its constituent parts.
    pub fn new(
        session_id: Digest,
        strict_kx: Option<StrictKeyExchange>,
        identities: Identities,
        host_key: SessionHostKey,
    ) -> (r: Self)
        ensures
            r == (Rekey { host_key, identities, strict_kx, session_id }),
    {
        Rekey { host_key, identities, strict_kx, session_id }
    }

    /// Process the client's `SSH_MSG_KEXINIT` and negotiate the new algorithms.
    pub fn start(&self, packet: IncomingPacket<'_>, provider: Provider<'_>) -> (r: Result<
        KeyExchange,
        ProtoError,
    >)
        ensures
            restarted(*self, packet, provider, r),
    {
        let mut exchange = HandshakeBuffer::default();
        exchange.prefixed(self.identities.client.as_slice());
        exchange.prefixed(self.identities.server.as_slice());
        assert(exchange@ =~= self.identities@.bytes());
        let algorithms = vec![self.host_key.algorithm()];
        let extensions: Vec<ExtensionId<'static>> = Vec::new();
        assert(views(algorithms@) =~= seq![self.host_key.0.0.spec_algorithm()]);
        assert(views(extensions@) =~= Seq::<ExtensionIdView>::empty());
        let (kx, _, _) = KeyExchange::start(
            packet,
            exchange,
            algorithms,
            extensions.as_slice(),
            provider,
        )?;
        Ok(kx)
    }

    /// Complete a client-initiated rekey.
    pub fn complete(
        &self,
        ecdh_key_exchange_init: EcdhKeyExchangeInit<'_>,
        negotiated: &Negotiated,
        exchange: HandshakeHash,
        provider: Provider<'_>,
    ) -> (r: Result<(EcdhKeyExchangeReply, KeySourceSet), CryptoError>)
        requires
            !(self.host_key.0.0.spec_algorithm() is Unknown),
        ensures
            recompleted(
                *self,
                exchange,
                negotiated@,
                ecdh_key_exchange_init.client_ephemeral_public_key@,
                provider,
                r,
            ),
    {
        let (reply, _, keys) = EcdhKeyExchangeReply::new(
            ecdh_key_exchange_init,
            negotiated,
            exchange,
            Some(self.session_id.clone()),
            &self.host_key.0,
            provider,
        )?;
        Ok((reply, keys))
    }

    /// Whether we negotiated strict key exchange with the client.
    pub fn strict_key_exchange(&self) -> (r: Option<&StrictKeyExchange>)
        ensures
            r is Some == self.strict_kx is Some,
    {
        match &self.strict_kx {
            Some(strict_kx) => Some(strict_kx),
            None => None,
        }
    }

    /// The client's identity.
    pub fn client_identity(&self) -> (r: &[u8])
        ensures
            r@ == self.identities.client@,
    {
        self.identities.client.as_slice()
    }
}

/// The outcome of negotiating anew with a peer whose initiation is `peer`.
pub open spec fn renegotiation(
    peer: KeyExchangeInitView,
    own: KeyExchangeInitView,
    exchange: Seq<u8>,
    provider: Provider<'_>,
    r: Result<KeyExchange, ProtoError>,
) -> bool {
    match Negotiated::agreed(peer, own) {
        Err(e) => r matches Err(error) && error == e,
        Ok(negotiated) => match provider.0.spec_hash(negotiated.key_exchange) {
            Err(e) => r matches Err(error) && error == ProtoError::Crypto(e),
            Ok(hash) => match r {
                Err(_) => false,
                Ok(kx) => {
                    &&& kx.local@ == own
                    &&& kx.negotiated@ == negotiated
                    &&& kx.exchange@ == exchange
                    &&& kx.exchange.algorithm() == hash
                },
            },
        },
    }
}

} // verus!
