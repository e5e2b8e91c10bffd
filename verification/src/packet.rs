//! Packets and the messages of the transport layer (RFC 4253).

use vstd::prelude::*;
use vstd::utf8::{decode_utf8, encode_utf8, valid_utf8};

use crate::error::ProtoError;
use crate::text::from_utf8;
use crate::wire::{parse_bool, parse_string, parse_u32, parse_u8};
use crate::wire::{put_string, string_wire, text_round_trip, text_wire};
use crate::wire::{u32_round_trip, u32_wire};
use crate::wire::{Decode, Decoded, Encode, Parsed};

verus! {

/// Maximum packet length in bytes.
///
/// Must be at least 35 kB per
/// <https://datatracker.ietf.org/doc/html/rfc4253#section-6.1>.
pub const MAX_PACKET_LEN: u32 = 64 * 1024;

/// SSH message numbers, sent as the first byte of each packet payload.
///
/// See <https://www.rfc-editor.org/rfc/rfc4250#section-4.1> for the registry.
#[derive(Clone, Copy, Debug, Eq, PartialEq, Structural)]
pub enum MessageType {
    /// `SSH_MSG_DISCONNECT` (RFC 4253 section 11.1)
    Disconnect,
    /// `SSH_MSG_IGNORE` (RFC 4253 section 11.2)
    Ignore,
    /// `SSH_MSG_UNIMPLEMENTED` (RFC 4253 section 11.4)
    Unimplemented,
    /// `SSH_MSG_DEBUG` (RFC 4253 section 11.3)
    Debug,
    /// `SSH_MSG_SERVICE_REQUEST` (RFC 4253 section 10)
    ServiceRequest,
    /// `SSH_MSG_SERVICE_ACCEPT` (RFC 4253 section 10)
    ServiceAccept,
    /// `SSH_MSG_EXT_INFO` (RFC 8308 section 2.3)
    ExtInfo,
    /// `SSH_MSG_KEXINIT` (RFC 4253 section 7.1)
    KeyExchangeInit,
    /// `SSH_MSG_NEWKEYS` (RFC 4253 section 7.3)
    NewKeys,
    /// `SSH_MSG_KEX_ECDH_INIT` (RFC 5656 section 4)
    KeyExchangeEcdhInit,
    /// `SSH_MSG_KEX_ECDH_REPLY` (RFC 5656 section 4)
    KeyExchangeEcdhReply,
    /// `SSH_MSG_USERAUTH_REQUEST` (RFC 4252 section 5)
    UserAuthRequest,
    /// `SSH_MSG_USERAUTH_FAILURE` (RFC 4252 section 5.1)
    UserAuthFailure,
    /// `SSH_MSG_USERAUTH_SUCCESS` (RFC 4252 section 5.1)
    UserAuthSuccess,
    /// `SSH_MSG_USERAUTH_BANNER` (RFC 4252 section 5.4)
    UserAuthBanner,
    /// `SSH_MSG_USERAUTH_PK_OK` (RFC 4252 section 7)
    UserAuthPkOk,
    /// `SSH_MSG_GLOBAL_REQUEST` (RFC 4254 section 4)
    GlobalRequest,
    /// `SSH_MSG_REQUEST_SUCCESS` (RFC 4254 section 4)
    RequestSuccess,
    /// `SSH_MSG_REQUEST_FAILURE` (RFC 4254 section 4)
    RequestFailure,
    /// `SSH_MSG_CHANNEL_OPEN` (RFC 4254 section 5.1)
    ChannelOpen,
    /// `SSH_MSG_CHANNEL_OPEN_CONFIRMATION` (RFC 4254 section 5.1)
    ChannelOpenConfirmation,
    /// `SSH_MSG_CHANNEL_OPEN_FAILURE` (RFC 4254 section 5.1)
    ChannelOpenFailure,
    /// `SSH_MSG_CHANNEL_WINDOW_ADJUST` (RFC 4254 section 5.2)
    ChannelWindowAdjust,
    /// `SSH_MSG_CHANNEL_DATA` (RFC 4254 section 5.2)
    ChannelData,
    /// `SSH_MSG_CHANNEL_EXTENDED_DATA` (RFC 4254 section 5.2)
    ChannelExtendedData,
    /// `SSH_MSG_CHANNEL_EOF` (RFC 4254 section 5.3)
    ChannelEof,
    /// `SSH_MSG_CHANNEL_CLOSE` (RFC 4254 section 5.3)
    ChannelClose,
    /// `SSH_MSG_CHANNEL_REQUEST` (RFC 4254 section 5.4)
    ChannelRequest,
    /// `SSH_MSG_CHANNEL_SUCCESS` (RFC 4254 section 5.4)
    ChannelSuccess,
    /// `SSH_MSG_CHANNEL_FAILURE` (RFC 4254 section 5.4)
    ChannelFailure,
    /// A message number not known to this implementation.
    Unknown(u8),
}

impl MessageType {
    /// The message number.
    pub open spec fn number(self) -> u8 {
        match self {
            MessageType::Disconnect => 1,
            MessageType::Ignore => 2,
            MessageType::Unimplemented => 3,
            MessageType::Debug => 4,
            MessageType::ServiceRequest => 5,
            MessageType::ServiceAccept => 6,
            MessageType::ExtInfo => 7,
            MessageType::KeyExchangeInit => 20,
            MessageType::NewKeys => 21,
            MessageType::KeyExchangeEcdhInit => 30,
            MessageType::KeyExchangeEcdhReply => 31,
            MessageType::UserAuthRequest => 50,
            MessageType::UserAuthFailure => 51,
            MessageType::UserAuthSuccess => 52,
            MessageType::UserAuthBanner => 53,
            MessageType::UserAuthPkOk => 60,
            MessageType::GlobalRequest => 80,
            MessageType::RequestSuccess => 81,
            MessageType::RequestFailure => 82,
            MessageType::ChannelOpen => 90,
            MessageType::ChannelOpenConfirmation => 91,
            MessageType::ChannelOpenFailure => 92,
            MessageType::ChannelWindowAdjust => 93,
            MessageType::ChannelData => 94,
            MessageType::ChannelExtendedData => 95,
            MessageType::ChannelEof => 96,
            MessageType::ChannelClose => 97,
            MessageType::ChannelRequest => 98,
            MessageType::ChannelSuccess => 99,
            MessageType::ChannelFailure => 100,
            MessageType::Unknown(value) => value,
        }
    }

    /// The message type with the given number.
    pub open spec fn numbered(value: u8) -> MessageType {
        if value == 1 {
            MessageType::Disconnect
        } else if value == 2 {
            MessageType::Ignore
        } else if value == 3 {
            MessageType::Unimplemented
        } else if value == 4 {
            MessageType::Debug
        } else if value == 5 {
            MessageType::ServiceRequest
        } else if value == 6 {
            MessageType::ServiceAccept
        } else if value == 7 {
            MessageType::ExtInfo
        } else if value == 20 {
            MessageType::KeyExchangeInit
        } else if value == 21 {
            MessageType::NewKeys
        } else if value == 30 {
            MessageType::KeyExchangeEcdhInit
        } else if value == 31 {
            MessageType::KeyExchangeEcdhReply
        } else if value == 50 {
            MessageType::UserAuthRequest
        } else if value == 51 {
            MessageType::UserAuthFailure
        } else if value == 52 {
            MessageType::UserAuthSuccess
        } else if value == 53 {
            MessageType::UserAuthBanner
        } else if value == 60 {
            MessageType::UserAuthPkOk
        } else if value == 80 {
            MessageType::GlobalRequest
        } else if value == 81 {
            MessageType::RequestSuccess
        } else if value == 82 {
            MessageType::RequestFailure
        } else if value == 90 {
            MessageType::ChannelOpen
        } else if value == 91 {
            MessageType::ChannelOpenConfirmation
        } else if value == 92 {
            MessageType::ChannelOpenFailure
        } else if value == 93 {
            MessageType::ChannelWindowAdjust
        } else if value == 94 {
            MessageType::ChannelData
        } else if value == 95 {
            MessageType::ChannelExtendedData
        } else if value == 96 {
            MessageType::ChannelEof
        } else if value == 97 {
            MessageType::ChannelClose
        } else if value == 98 {
            MessageType::ChannelRequest
        } else if value == 99 {
            MessageType::ChannelSuccess
        } else if value == 100 {
            MessageType::ChannelFailure
        } else {
            MessageType::Unknown(value)
        }
    }
}

/// The byte of a message type.
pub open spec fn type_wire(message_type: MessageType) -> Seq<u8> {
    seq![message_type.number()]
}

/// What decoding a message type gives.
pub open spec fn parse_message_type(bytes: Seq<u8>) -> Parsed<MessageType> {
    match parse_u8(bytes) {
        Ok((value, rest)) => Ok((MessageType::numbered(value), rest)),
        Err(e) => Err(e),
    }
}

impl Encode for MessageType {
    open spec fn wire(&self) -> Seq<u8> {
        type_wire(*self)
    }

    fn encode(&self, buf: &mut Vec<u8>) {
        buf.push(u8::from(*self));
        assert(buf@ =~= old(buf)@ + type_wire(*self));
    }
}

impl<'a> Decode<'a> for MessageType {
    type Model = MessageType;

    open spec fn model(&self) -> MessageType {
        *self
    }

    open spec fn parse(bytes: Seq<u8>) -> Parsed<MessageType> {
        parse_message_type(bytes)
    }

    fn decode(bytes: &'a [u8]) -> (r: Result<Decoded<'a, Self>, ProtoError>) {
        let Decoded { value, next } = u8::decode(bytes)?;
        Ok(Decoded { value: MessageType::from(value), next })
    }
}

impl From<u8> for MessageType {
    fn from(value: u8) -> (r: Self) {
        match value {
            1 => MessageType::Disconnect,
            2 => MessageType::Ignore,
            3 => MessageType::Unimplemented,
            4 => MessageType::Debug,
            5 => MessageType::ServiceRequest,
            6 => MessageType::ServiceAccept,
            7 => MessageType::ExtInfo,
            20 => MessageType::KeyExchangeInit,
            21 => MessageType::NewKeys,
            30 => MessageType::KeyExchangeEcdhInit,
            31 => MessageType::KeyExchangeEcdhReply,
            50 => MessageType::UserAuthRequest,
            51 => MessageType::UserAuthFailure,
            52 => MessageType::UserAuthSuccess,
            53 => MessageType::UserAuthBanner,
            60 => MessageType::UserAuthPkOk,
            80 => MessageType::GlobalRequest,
            81 => MessageType::RequestSuccess,
            82 => MessageType::RequestFailure,
            90 => MessageType::ChannelOpen,
            91 => MessageType::ChannelOpenConfirmation,
            92 => MessageType::ChannelOpenFailure,
            93 => MessageType::ChannelWindowAdjust,
            94 => MessageType::ChannelData,
            95 => MessageType::ChannelExtendedData,
            96 => MessageType::ChannelEof,
            97 => MessageType::ChannelClose,
            98 => MessageType::ChannelRequest,
            99 => MessageType::ChannelSuccess,
            100 => MessageType::ChannelFailure,
            value => MessageType::Unknown(value),
        }
    }
}

impl vstd::std_specs::convert::FromSpecImpl<u8> for MessageType {
    open spec fn obeys_from_spec() -> bool {
        true
    }

    open spec fn from_spec(value: u8) -> Self {
        MessageType::numbered(value)
    }
}

impl From<MessageType> for u8 {
    fn from(value: MessageType) -> (r: Self) {
        match value {
            MessageType::Disconnect => 1,
            MessageType::Ignore => 2,
            MessageType::Unimplemented => 3,
            MessageType::Debug => 4,
            MessageType::ServiceRequest => 5,
            MessageType::ServiceAccept => 6,
            MessageType::ExtInfo => 7,
            MessageType::KeyExchangeInit => 20,
            MessageType::NewKeys => 21,
            MessageType::KeyExchangeEcdhInit => 30,
            MessageType::KeyExchangeEcdhReply => 31,
            MessageType::UserAuthRequest => 50,
            MessageType::UserAuthFailure => 51,
            MessageType::UserAuthSuccess => 52,
            MessageType::UserAuthBanner => 53,
            MessageType::UserAuthPkOk => 60,
            MessageType::GlobalRequest => 80,
            MessageType::RequestSuccess => 81,
            MessageType::RequestFailure => 82,
            MessageType::ChannelOpen => 90,
            MessageType::ChannelOpenConfirmation => 91,
            MessageType::ChannelOpenFailure => 92,
            MessageType::ChannelWindowAdjust => 93,
            MessageType::ChannelData => 94,
            MessageType::ChannelExtendedData => 95,
            MessageType::ChannelEof => 96,
            MessageType::ChannelClose => 97,
            MessageType::ChannelRequest => 98,
            MessageType::ChannelSuccess => 99,
            MessageType::ChannelFailure => 100,
            MessageType::Unknown(value) => value,
        }
    }
}

impl vstd::std_specs::convert::FromSpecImpl<MessageType> for u8 {
    open spec fn obeys_from_spec() -> bool {
        true
    }

    open spec fn from_spec(value: MessageType) -> Self {
        value.number()
    }
}

/// Every message number stands for exactly one message type.
pub proof fn message_number_round_trip(value: u8)
    ensures
        MessageType::numbered(value).number() == value,
{
}

/// A decrypted incoming packet, before message-specific decoding.
///
/// See <https://www.rfc-editor.org/rfc/rfc4253#section-6> for the packet format.
pub struct IncomingPacket<'a> {
    /// The number of packets received before this one, modulo 2^32.
    pub sequence_number: u32,
    /// The message type from the first byte of the payload.
    pub message_type: MessageType,
    /// The payload after the message type.
    pub payload: &'a [u8],
}

/// `r` reports that `packet` is not one of the `expected` messages.
pub open spec fn unexpected<T>(
    packet: IncomingPacket<'_>,
    expected: Seq<MessageType>,
    r: Result<T, ProtoError>,
) -> bool {
    match r {
        Err(ProtoError::UnexpectedMessage(found, wanted)) => found == packet.message_type
            && wanted@ =~= expected,
        _ => false,
    }
}

impl IncomingPacket<'_> {
    /// Check that `self` is one of the expected message types.
    pub fn expect(&self, expected: &'static [MessageType]) -> (r: Result<(), ProtoError>)
        ensures
            match r {
                Ok(_) => expected@.contains(self.message_type),
                Err(e) => {
                    &&& e == ProtoError::UnexpectedMessage(self.message_type, expected)
                    &&& forall|i: int|
                        0 <= i < expected@.len() ==> expected@[i] != self.message_type
                },
            },
    {
        let mut i: usize = 0;
        while i < expected.len()
            invariant
                i <= expected@.len(),
                forall|j: int| 0 <= j < i ==> expected@[j] != self.message_type,
            decreases expected@.len() - i,
        {
            if expected[i] == self.message_type {
                assert(expected@[i as int] == self.message_type);
                return Ok(());
            }
            i += 1;
        }
        Err(ProtoError::UnexpectedMessage(self.message_type, expected))
    }
}

/// The `packet_length` field at the start of each packet.
///
/// Covers `padding_length`, `payload` and `padding`, but not the length field itself or the MAC
/// (<https://www.rfc-editor.org/rfc/rfc4253#section-6>). Decoding rejects lengths beyond
/// [`MAX_PACKET_LEN`].
#[derive(Clone, Copy, Debug)]
pub struct PacketLength(pub u32);

/// What decoding a packet length gives.
pub open spec fn parse_packet_length(bytes: Seq<u8>) -> Parsed<u32> {
    match parse_u32(bytes) {
        Ok((value, rest)) => if value > MAX_PACKET_LEN {
            Err(ProtoError::InvalidPacket("packet too large"))
        } else {
            Ok((value, rest))
        },
        Err(e) => Err(e),
    }
}

impl<'a> Decode<'a> for PacketLength {
    type Model = u32;

    open spec fn model(&self) -> u32 {
        self.0
    }

    open spec fn parse(bytes: Seq<u8>) -> Parsed<u32> {
        parse_packet_length(bytes)
    }

    fn decode(bytes: &'a [u8]) -> (r: Result<Decoded<'a, Self>, ProtoError>) {
        let Decoded { value, next } = u32::decode(bytes)?;

        if value > MAX_PACKET_LEN {
            return Err(ProtoError::InvalidPacket("packet too large"));
        }
        Ok(Decoded { value: PacketLength(value), next })
    }
}

impl From<PacketLength> for usize {
    fn from(len: PacketLength) -> (r: Self) {
        len.0 as usize
    }
}

impl vstd::std_specs::convert::FromSpecImpl<PacketLength> for usize {
    open spec fn obeys_from_spec() -> bool {
        true
    }

    open spec fn from_spec(len: PacketLength) -> Self {
        len.0 as usize
    }
}

impl From<PacketLength> for u32 {
    fn from(len: PacketLength) -> (r: Self) {
        len.0
    }
}

impl vstd::std_specs::convert::FromSpecImpl<PacketLength> for u32 {
    open spec fn obeys_from_spec() -> bool {
        true
    }

    open spec fn from_spec(len: PacketLength) -> Self {
        len.0
    }
}

/// The `padding_length` field of a packet.
///
/// There must be at least 4 bytes of padding.
///
/// See <https://www.rfc-editor.org/rfc/rfc4253#section-6>.
#[derive(Debug)]
pub struct PaddingLength(pub u8);

/// What decoding a padding length gives.
pub open spec fn parse_padding_length(bytes: Seq<u8>) -> Parsed<u8> {
    match parse_u8(bytes) {
        Ok((value, rest)) => if value < 4 {
            Err(ProtoError::InvalidPacket("padding too short"))
        } else {
            Ok((value, rest))
        },
        Err(e) => Err(e),
    }
}

impl<'a> Decode<'a> for PaddingLength {
    type Model = u8;

    open spec fn model(&self) -> u8 {
        self.0
    }

    open spec fn parse(bytes: Seq<u8>) -> Parsed<u8> {
        parse_padding_length(bytes)
    }

    fn decode(bytes: &'a [u8]) -> (r: Result<Decoded<'a, Self>, ProtoError>) {
        let Decoded { value, next } = u8::decode(bytes)?;
        if value < 4 {
            return Err(ProtoError::InvalidPacket("padding too short"));
        }
        Ok(Decoded { value: PaddingLength(value), next })
    }
}

/// Reason codes for the `SSH_MSG_DISCONNECT` message.
///
/// See <https://www.rfc-editor.org/rfc/rfc4253#section-11.1> for the semantics and
/// <https://www.rfc-editor.org/rfc/rfc4250#section-4.2.2> for the registry.
#[derive(Clone, Copy, Debug, PartialEq, Eq, Structural)]
pub enum DisconnectReason {
    /// `SSH_DISCONNECT_HOST_NOT_ALLOWED_TO_CONNECT`
    HostNotAllowedToConnect,
    /// `SSH_DISCONNECT_PROTOCOL_ERROR`
    ProtocolError,
    /// `SSH_DISCONNECT_KEY_EXCHANGE_FAILED`
    KeyExchangeFailed,
    /// `SSH_DISCONNECT_RESERVED`
    Reserved,
    /// `SSH_DISCONNECT_MAC_ERROR`
    MacError,
    /// `SSH_DISCONNECT_COMPRESSION_ERROR`
    CompressionError,
    /// `SSH_DISCONNECT_SERVICE_NOT_AVAILABLE`
    ServiceNotAvailable,
    /// `SSH_DISCONNECT_PROTOCOL_VERSION_NOT_SUPPORTED`
    ProtocolVersionNotSupported,
    /// `SSH_DISCONNECT_HOST_KEY_NOT_VERIFIABLE`
    HostKeyNotVerifiable,
    /// `SSH_DISCONNECT_CONNECTION_LOST`
    ConnectionLost,
    /// `SSH_DISCONNECT_BY_APPLICATION`
    ByApplication,
    /// `SSH_DISCONNECT_TOO_MANY_CONNECTIONS`
    TooManyConnections,
    /// `SSH_DISCONNECT_AUTH_CANCELLED_BY_USER`
    AuthCancelledByUser,
    /// `SSH_DISCONNECT_NO_MORE_AUTH_METHODS_AVAILABLE`
    NoMoreAuthMethodsAvailable,
    /// `SSH_DISCONNECT_ILLEGAL_USER_NAME`
    IllegalUserName,
}

impl DisconnectReason {
    /// The reason code.
    pub open spec fn spec_code(self) -> u32 {
        match self {
            DisconnectReason::HostNotAllowedToConnect => 1,
            DisconnectReason::ProtocolError => 2,
            DisconnectReason::KeyExchangeFailed => 3,
            DisconnectReason::Reserved => 4,
            DisconnectReason::MacError => 5,
            DisconnectReason::CompressionError => 6,
            DisconnectReason::ServiceNotAvailable => 7,
            DisconnectReason::ProtocolVersionNotSupported => 8,
            DisconnectReason::HostKeyNotVerifiable => 9,
            DisconnectReason::ConnectionLost => 10,
            DisconnectReason::ByApplication => 11,
            DisconnectReason::TooManyConnections => 12,
            DisconnectReason::AuthCancelledByUser => 13,
            DisconnectReason::NoMoreAuthMethodsAvailable => 14,
            DisconnectReason::IllegalUserName => 15,
        }
    }

    /// The reason with the given code.
    pub open spec fn coded(value: u32) -> Result<DisconnectReason, ProtoError> {
        if value == 1 {
            Ok(DisconnectReason::HostNotAllowedToConnect)
        } else if value == 2 {
            Ok(DisconnectReason::ProtocolError)
        } else if value == 3 {
            Ok(DisconnectReason::KeyExchangeFailed)
        } else if value == 4 {
            Ok(DisconnectReason::Reserved)
        } else if value == 5 {
            Ok(DisconnectReason::MacError)
        } else if value == 6 {
            Ok(DisconnectReason::CompressionError)
        } else if value == 7 {
            Ok(DisconnectReason::ServiceNotAvailable)
        } else if value == 8 {
            Ok(DisconnectReason::ProtocolVersionNotSupported)
        } else if value == 9 {
            Ok(DisconnectReason::HostKeyNotVerifiable)
        } else if value == 10 {
            Ok(DisconnectReason::ConnectionLost)
        } else if value == 11 {
            Ok(DisconnectReason::ByApplication)
        } else if value == 12 {
            Ok(DisconnectReason::TooManyConnections)
        } else if value == 13 {
            Ok(DisconnectReason::AuthCancelledByUser)
        } else if value == 14 {
            Ok(DisconnectReason::NoMoreAuthMethodsAvailable)
        } else if value == 15 {
            Ok(DisconnectReason::IllegalUserName)
        } else {
            Err(ProtoError::InvalidPacket("unknown disconnect reason code"))
        }
    }

    /// The reason code.
    pub fn code(self) -> (r: u32)
        ensures
            r == self.spec_code(),
    {
        match self {
            DisconnectReason::HostNotAllowedToConnect => 1,
            DisconnectReason::ProtocolError => 2,
            DisconnectReason::KeyExchangeFailed => 3,
            DisconnectReason::Reserved => 4,
            DisconnectReason::MacError => 5,
            DisconnectReason::CompressionError => 6,
            DisconnectReason::ServiceNotAvailable => 7,
            DisconnectReason::ProtocolVersionNotSupported => 8,
            DisconnectReason::HostKeyNotVerifiable => 9,
            DisconnectReason::ConnectionLost => 10,
            DisconnectReason::ByApplication => 11,
            DisconnectReason::TooManyConnections => 12,
            DisconnectReason::AuthCancelledByUser => 13,
            DisconnectReason::NoMoreAuthMethodsAvailable => 14,
            DisconnectReason::IllegalUserName => 15,
        }
    }
}

impl TryFrom<u32> for DisconnectReason {
    type Error = ProtoError;

    fn try_from(value: u32) -> (r: Result<Self, ProtoError>) {
        Ok(
            match value {
                1 => DisconnectReason::HostNotAllowedToConnect,
                2 => DisconnectReason::ProtocolError,
                3 => DisconnectReason::KeyExchangeFailed,
                4 => DisconnectReason::Reserved,
                5 => DisconnectReason::MacError,
                6 => DisconnectReason::CompressionError,
                7 => DisconnectReason::ServiceNotAvailable,
                8 => DisconnectReason::ProtocolVersionNotSupported,
                9 => DisconnectReason::HostKeyNotVerifiable,
                10 => DisconnectReason::ConnectionLost,
                11 => DisconnectReason::ByApplication,
                12 => DisconnectReason::TooManyConnections,
                13 => DisconnectReason::AuthCancelledByUser,
                14 => DisconnectReason::NoMoreAuthMethodsAvailable,
                15 => DisconnectReason::IllegalUserName,
                _ => return Err(ProtoError::InvalidPacket("unknown disconnect reason code")),
            },
        )
    }
}

impl vstd::std_specs::convert::TryFromSpecImpl<u32> for DisconnectReason {
    open spec fn obeys_try_from_spec() -> bool {
        true
    }

    open spec fn try_from_spec(value: u32) -> Result<Self, ProtoError> {
        DisconnectReason::coded(value)
    }
}

/// A reason is read back from its code.
pub proof fn disconnect_reason_round_trip(reason: DisconnectReason)
    ensures
        DisconnectReason::coded(reason.spec_code()) == Ok::<DisconnectReason, ProtoError>(reason),
{
}

/// The `SSH_MSG_DISCONNECT` message.
///
/// Terminates the connection; no party may send or receive data after it.
///
/// <https://www.rfc-editor.org/rfc/rfc4253#section-11.1>.
#[derive(Debug)]
pub struct Disconnect<'a> {
    /// Machine-readable reason for the disconnect.
    pub reason_code: DisconnectReason,
    /// Human-readable description of the reason.
    pub description: &'a str,
}

/// What a [`Disconnect`] says.
pub struct DisconnectView {
    /// Machine-readable reason for the disconnect.
    pub reason_code: DisconnectReason,
    /// Human-readable description of the reason.
    pub description: Seq<char>,
}

impl View for Disconnect<'_> {
    type V = DisconnectView;

    open spec fn view(&self) -> DisconnectView {
        DisconnectView { reason_code: self.reason_code, description: self.description@ }
    }
}

impl Disconnect<'_> {
    /// What the payload of a disconnect message says.
    pub open spec fn parse(payload: Seq<u8>) -> Result<DisconnectView, ProtoError> {
        match parse_u32(payload) {
            Err(e) => Err(e),
            Ok((code, next)) => match parse_string(next) {
                Err(e) => Err(e),
                Ok((description, next)) => if !valid_utf8(description) {
                    Err(ProtoError::InvalidPacket("invalid UTF-8 in disconnect description"))
                } else {
                    match parse_string(next) {
                        Err(e) => Err(e),
                        Ok((_, next)) => if next.len() != 0 {
                            Err(ProtoError::InvalidPacket("extra data in disconnect packet"))
                        } else {
                            match DisconnectReason::coded(code) {
                                Err(e) => Err(e),
                                Ok(reason_code) => Ok(
                                    DisconnectView {
                                        reason_code,
                                        description: decode_utf8(description),
                                    },
                                ),
                            }
                        },
                    }
                },
            },
        }
    }
}

impl<'a> TryFrom<IncomingPacket<'a>> for Disconnect<'a> {
    type Error = ProtoError;

    fn try_from(packet: IncomingPacket<'a>) -> (r: Result<Self, ProtoError>)
        ensures
            if packet.message_type == MessageType::Disconnect {
                Disconnect::parse(packet.payload@) == match r {
                    Ok(m) => Ok::<DisconnectView, ProtoError>(m@),
                    Err(e) => Err::<DisconnectView, ProtoError>(e),
                }
            } else {
                unexpected(packet, seq![MessageType::Disconnect], r)
            },
    {
        packet.expect(&[MessageType::Disconnect])?;

        let Decoded { value: reason_code, next } = u32::decode(packet.payload)?;

        let Decoded { value: description, next } = <&[u8]>::decode(next)?;

        let Some(description) = from_utf8(description) else {
            return Err(ProtoError::InvalidPacket("invalid UTF-8 in disconnect description"));
        };

        // The language tag is not used.
        let Decoded { value: _, next } = <&[u8]>::decode(next)?;

        if next.len() != 0 {
            return Err(ProtoError::InvalidPacket("extra data in disconnect packet"));
        }
        Ok(Disconnect { reason_code: DisconnectReason::try_from(reason_code)?, description })
    }
}

impl<'a> vstd::std_specs::convert::TryFromSpecImpl<IncomingPacket<'a>> for Disconnect<'a> {
    open spec fn obeys_try_from_spec() -> bool {
        false
    }

    open spec fn try_from_spec(packet: IncomingPacket<'a>) -> Result<Self, ProtoError> {
        arbitrary()
    }
}

impl Encode for Disconnect<'_> {
    open spec fn wire(&self) -> Seq<u8> {
        type_wire(MessageType::Disconnect) + u32_wire(self.reason_code.spec_code()) + text_wire(
            self.description@,
        ) + text_wire("en-US"@)
    }

    fn encode(&self, buf: &mut Vec<u8>) {
        let Disconnect { reason_code, description } = self;

        MessageType::Disconnect.encode(buf);
        reason_code.code().encode(buf);
        put_string(buf, description);
        put_string(buf, "en-US");
        assert(buf@ =~= old(buf)@ + self.wire());
    }
}

/// A disconnect message whose description fits its length field says what it was made to say.
pub proof fn disconnect_round_trip(m: Disconnect<'_>)
    requires
        encode_utf8(m.description@).len() <= u32::MAX,
    ensures
        m.wire()[0] == MessageType::Disconnect.number(),
        Disconnect::parse(m.wire().skip(1)) == Ok::<DisconnectView, ProtoError>(m@),
{
    let code = m.reason_code.spec_code();
    let description = text_wire(m.description@);
    let tag = text_wire("en-US"@);
    assert(m.wire() == (type_wire(MessageType::Disconnect) + u32_wire(code)) + description + tag);
    lemma_after_type(MessageType::Disconnect, u32_wire(code), description, tag);
    lemma_language_tag();
    u32_round_trip(code, description + tag);
    text_round_trip(m.description@, tag);
    disconnect_reason_round_trip(m.reason_code);
}

proof fn lemma_after_type(t: MessageType, a: Seq<u8>, b: Seq<u8>, c: Seq<u8>)
    ensures
        (type_wire(t) + a + b + c)[0] == t.number(),
        (type_wire(t) + a + b + c).skip(1) == a + (b + c),
{
    assert((type_wire(t) + a + b + c).skip(1) =~= a + (b + c));
}

proof fn lemma_language_tag()
    ensures
        parse_string(text_wire("en-US"@)) matches Ok((_, rest)) && rest.len() == 0,
{
    reveal_strlit("en-US");
    vstd::utf8::is_ascii_chars_encode_utf8("en-US"@);
    text_round_trip("en-US"@, Seq::empty());
    assert(text_wire("en-US"@) + Seq::<u8>::empty() =~= text_wire("en-US"@));
}

/// The `SSH_MSG_IGNORE` message.
///
/// Must be ignored by the receiver; can be used as a countermeasure against traffic analysis.
///
/// See <https://www.rfc-editor.org/rfc/rfc4253#section-11.2>.
#[derive(Debug)]
pub struct Ignore<'a>(pub &'a [u8]);

impl Default for Ignore<'_> {
    fn default() -> (r: Self)
        ensures
            r.0@ == Seq::<u8>::empty(),
    {
        let r = Ignore(&[]);
        assert(r.0@ =~= Seq::<u8>::empty());
        r
    }
}

impl Encode for Ignore<'_> {
    open spec fn wire(&self) -> Seq<u8> {
        type_wire(MessageType::Ignore) + string_wire(self.0@)
    }

    fn encode(&self, buf: &mut Vec<u8>) {
        let Ignore(payload) = self;
        MessageType::Ignore.encode(buf);
        payload.encode(buf);
        assert(buf@ =~= old(buf)@ + self.wire());
    }
}

/// The `SSH_MSG_GLOBAL_REQUEST` message.
///
/// Requests that apply to the connection as a whole rather than to a single channel, such as
/// the client's `keepalive@openssh.com` liveness probe.
///
/// See <https://www.rfc-editor.org/rfc/rfc4254#section-4>.
#[derive(Debug)]
pub struct GlobalRequest<'a> {
    /// The name of the request.
    pub name: &'a [u8],
    /// Whether the sender wants a `SSH_MSG_REQUEST_SUCCESS` or `SSH_MSG_REQUEST_FAILURE` reply.
    pub want_reply: bool,
}

/// What a [`GlobalRequest`] asks for.
pub struct GlobalRequestView {
    /// The name of the request.
    pub name: Seq<u8>,
    /// Whether the sender wants a reply.
    pub want_reply: bool,
}

impl View for GlobalRequest<'_> {
    type V = GlobalRequestView;

    open spec fn view(&self) -> GlobalRequestView {
        GlobalRequestView { name: self.name@, want_reply: self.want_reply }
    }
}

impl GlobalRequest<'_> {
    /// What the payload of a global request says. Request-specific data may follow.
    pub open spec fn parse(payload: Seq<u8>) -> Result<GlobalRequestView, ProtoError> {
        match parse_string(payload) {
            Err(e) => Err(e),
            Ok((name, next)) => match parse_bool(next) {
                Err(e) => Err(e),
                Ok((want_reply, _)) => Ok(GlobalRequestView { name, want_reply }),
            },
        }
    }
}

impl<'a> TryFrom<IncomingPacket<'a>> for GlobalRequest<'a> {
    type Error = ProtoError;

    fn try_from(packet: IncomingPacket<'a>) -> (r: Result<Self, ProtoError>)
        ensures
            if packet.message_type == MessageType::GlobalRequest {
                GlobalRequest::parse(packet.payload@) == match r {
                    Ok(m) => Ok::<GlobalRequestView, ProtoError>(m@),
                    Err(e) => Err::<GlobalRequestView, ProtoError>(e),
                }
            } else {
                unexpected(packet, seq![MessageType::GlobalRequest], r)
            },
    {
        packet.expect(&[MessageType::GlobalRequest])?;

        let Decoded { value: name, next } = <&[u8]>::decode(packet.payload)?;
        // Request-specific data follows `want_reply`, but no request is acted on, so
        // parsing the boolean is enough to know whether the sender expects a reply.
        let Decoded { value: want_reply, .. } = bool::decode(next)?;

        Ok(GlobalRequest { name, want_reply })
    }
}

impl<'a> vstd::std_specs::convert::TryFromSpecImpl<IncomingPacket<'a>> for GlobalRequest<'a> {
    open spec fn obeys_try_from_spec() -> bool {
        false
    }

    open spec fn try_from_spec(packet: IncomingPacket<'a>) -> Result<Self, ProtoError> {
        arbitrary()
    }
}

} // verus!
