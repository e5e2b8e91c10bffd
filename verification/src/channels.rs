//! Connection protocol channel messages (RFC 4254).

use std::borrow::Cow;
use std::collections::BTreeMap;

use vstd::prelude::*;
use vstd::utf8::{decode_utf8, encode_utf8, valid_utf8};

use crate::error::ProtoError;
use crate::key_exchange::{cow_bytes, cow_bytes_view};
use crate::named::{cow_text, cow_view, parse_name, ChannelType, ChannelTypeView};
use crate::packet::{type_wire, unexpected, IncomingPacket, MessageType};
use crate::text::{from_utf8, same_bytes};
use crate::wire::{parse_bool, parse_string, parse_u32, parse_u8, put_string, string_round_trip};
use crate::wire::{string_wire, text_wire, u32_round_trip, u32_wire, Decode, Decoded, Encode};
use crate::wire::Parsed;

verus! {

/// The `SSH_MSG_CHANNEL_OPEN` message.
///
/// See <https://www.rfc-editor.org/rfc/rfc4254#section-5.1>.
#[derive(Debug)]
pub struct ChannelOpen<'a> {
    /// The channel type to open.
    pub channel_type: ChannelType<'a>,
    /// The sender's identifier for the channel.
    pub sender_channel: u32,
    /// Initial number of bytes the sender is willing to receive.
    pub initial_window_size: u32,
    /// Maximum packet size the sender is willing to receive.
    pub maximum_packet_size: u32,
}

/// What a [`ChannelOpen`] asks for.
pub struct ChannelOpenView {
    /// The channel type to open.
    pub channel_type: ChannelTypeView,
    /// The sender's identifier for the channel.
    pub sender_channel: u32,
    /// Initial number of bytes the sender is willing to receive.
    pub initial_window_size: u32,
    /// Maximum packet size the sender is willing to receive.
    pub maximum_packet_size: u32,
}

impl View for ChannelOpen<'_> {
    type V = ChannelOpenView;

    open spec fn view(&self) -> ChannelOpenView {
        ChannelOpenView {
            channel_type: self.channel_type@,
            sender_channel: self.sender_channel,
            initial_window_size: self.initial_window_size,
            maximum_packet_size: self.maximum_packet_size,
        }
    }
}

impl ChannelOpen<'_> {
    /// What the payload of the message says. Data specific to an unknown channel type may follow.
    pub open spec fn parse(payload: Seq<u8>) -> Result<ChannelOpenView, ProtoError> {
        match parse_name::<ChannelType>(payload) {
            Err(e) => Err(e),
            Ok((channel_type, next)) => match parse_u32(next) {
                Err(e) => Err(e),
                Ok((sender_channel, next)) => match parse_u32(next) {
                    Err(e) => Err(e),
                    Ok((initial_window_size, next)) => match parse_u32(next) {
                        Err(e) => Err(e),
                        Ok((maximum_packet_size, next)) => if channel_type is Session && next.len()
                            != 0 {
                            Err(ProtoError::InvalidPacket("extra data in channel open packet"))
                        } else {
                            Ok(
                                ChannelOpenView {
                                    channel_type,
                                    sender_channel,
                                    initial_window_size,
                                    maximum_packet_size,
                                },
                            )
                        },
                    },
                },
            },
        }
    }
}

impl<'a> TryFrom<IncomingPacket<'a>> for ChannelOpen<'a> {
    type Error = ProtoError;

    fn try_from(packet: IncomingPacket<'a>) -> (r: Result<Self, ProtoError>)
        ensures
            if packet.message_type == MessageType::ChannelOpen {
                ChannelOpen::parse(packet.payload@) == match r {
                    Ok(m) => Ok::<ChannelOpenView, ProtoError>(m@),
                    Err(e) => Err::<ChannelOpenView, ProtoError>(e),
                }
            } else {
                unexpected(packet, seq![MessageType::ChannelOpen], r)
            },
    {
        packet.expect(&[MessageType::ChannelOpen])?;

        let Decoded { value: channel_type, next } = ChannelType::decode(packet.payload)?;
        let Decoded { value: sender_channel, next } = u32::decode(next)?;
        let Decoded { value: initial_window_size, next } = u32::decode(next)?;
        let Decoded { value: maximum_packet_size, next } = u32::decode(next)?;

        match channel_type {
            ChannelType::Session => match next.len() == 0 {
                true => {},
                false => {
                    return Err(ProtoError::InvalidPacket("extra data in channel open packet"));
                },
            },
            ChannelType::Unknown(_) => {},
        }

        Ok(
            ChannelOpen { channel_type, sender_channel, initial_window_size, maximum_packet_size },
        )
    }
}

impl<'a> vstd::std_specs::convert::TryFromSpecImpl<IncomingPacket<'a>> for ChannelOpen<'a> {
    open spec fn obeys_try_from_spec() -> bool {
        false
    }

    open spec fn try_from_spec(packet: IncomingPacket<'a>) -> Result<Self, ProtoError> {
        arbitrary()
    }
}

/// The `SSH_MSG_CHANNEL_OPEN_CONFIRMATION` message.
///
/// See <https://www.rfc-editor.org/rfc/rfc4254#section-5.1>.
#[derive(Debug)]
pub struct ChannelOpenConfirmation {
    /// The channel identifier chosen by the original sender.
    pub recipient_channel: u32,
    /// The responder's identifier for the channel.
    pub sender_channel: u32,
    /// Initial number of bytes the responder is willing to receive.
    pub initial_window_size: u32,
    /// Maximum packet size the responder is willing to receive.
    pub maximum_packet_size: u32,
}

/// The bytes of a [`ChannelOpenConfirmation`].
pub open spec fn confirmation_wire(m: ChannelOpenConfirmation) -> Seq<u8> {
    type_wire(MessageType::ChannelOpenConfirmation) + u32_wire(m.recipient_channel) + u32_wire(
        m.sender_channel,
    ) + u32_wire(m.initial_window_size) + u32_wire(m.maximum_packet_size)
}

impl Encode for ChannelOpenConfirmation {
    open spec fn wire(&self) -> Seq<u8> {
        confirmation_wire(*self)
    }

    fn encode(&self, buffer: &mut Vec<u8>) {
        let ChannelOpenConfirmation {
            recipient_channel,
            sender_channel,
            initial_window_size,
            maximum_packet_size,
        } = self;

        MessageType::ChannelOpenConfirmation.encode(buffer);
        recipient_channel.encode(buffer);
        sender_channel.encode(buffer);
        initial_window_size.encode(buffer);
        maximum_packet_size.encode(buffer);
        assert(buffer@ =~= old(buffer)@ + self.wire());
    }
}

/// Why a channel could not be opened.
#[derive(Clone, Copy, Debug, PartialEq, Eq, Structural)]
pub enum ChannelOpenFailureReason {
    /// `SSH_OPEN_ADMINISTRATIVELY_PROHIBITED`
    AdministrativelyProhibited,
    /// `SSH_OPEN_CONNECT_FAILED`
    ConnectFailed,
    /// `SSH_OPEN_UNKNOWN_CHANNEL_TYPE`
    UnknownChannelType,
    /// `SSH_OPEN_RESOURCE_SHORTAGE`
    ResourceShortage,
}

impl ChannelOpenFailureReason {
    /// The reason code.
    pub open spec fn code(self) -> u32 {
        match self {
            ChannelOpenFailureReason::AdministrativelyProhibited => 1,
            ChannelOpenFailureReason::ConnectFailed => 2,
            ChannelOpenFailureReason::UnknownChannelType => 3,
            ChannelOpenFailureReason::ResourceShortage => 4,
        }
    }
}

impl Encode for ChannelOpenFailureReason {
    open spec fn wire(&self) -> Seq<u8> {
        u32_wire(self.code())
    }

    fn encode(&self, buffer: &mut Vec<u8>) {
        let code: u32 = match self {
            ChannelOpenFailureReason::AdministrativelyProhibited => 1,
            ChannelOpenFailureReason::ConnectFailed => 2,
            ChannelOpenFailureReason::UnknownChannelType => 3,
            ChannelOpenFailureReason::ResourceShortage => 4,
        };
        code.encode(buffer);
    }
}

/// The `SSH_MSG_CHANNEL_OPEN_FAILURE` message.
///
/// See <https://www.rfc-editor.org/rfc/rfc4254#section-5.1>.
#[derive(Debug)]
pub struct ChannelOpenFailure<'a> {
    /// The channel identifier chosen by the original sender.
    pub recipient_channel: u32,
    /// Why the channel could not be opened.
    pub reason_code: ChannelOpenFailureReason,
    /// Human-readable description of the reason.
    pub description: &'a str,
}

impl ChannelOpenFailure<'static> {
    /// Failure response for a channel open reusing an active channel identifier.
    pub fn duplicate_id(recipient_channel: u32) -> (r: Self)
        ensures
            r.recipient_channel == recipient_channel,
            r.reason_code == ChannelOpenFailureReason::AdministrativelyProhibited,
            r.description@ == "channel ID already in use"@,
    {
        ChannelOpenFailure {
            recipient_channel,
            reason_code: ChannelOpenFailureReason::AdministrativelyProhibited,
            description: "channel ID already in use",
        }
    }

    /// Failure response for a channel open with an unsupported channel type.
    pub fn unknown_type(recipient_channel: u32) -> (r: Self)
        ensures
            r.recipient_channel == recipient_channel,
            r.reason_code == ChannelOpenFailureReason::UnknownChannelType,
            r.description@ == "only 'session' channel type is supported"@,
    {
        ChannelOpenFailure {
            recipient_channel,
            reason_code: ChannelOpenFailureReason::UnknownChannelType,
            description: "only 'session' channel type is supported",
        }
    }
}

/// The bytes of a [`ChannelOpenFailure`].
pub open spec fn open_failure_wire(
    recipient_channel: u32,
    reason_code: ChannelOpenFailureReason,
    description: Seq<char>,
) -> Seq<u8> {
    type_wire(MessageType::ChannelOpenFailure) + u32_wire(recipient_channel) + u32_wire(
        reason_code.code(),
    ) + text_wire(description) + text_wire("en-US"@)
}

impl Encode for ChannelOpenFailure<'_> {
    open spec fn wire(&self) -> Seq<u8> {
        open_failure_wire(self.recipient_channel, self.reason_code, self.description@)
    }

    fn encode(&self, buffer: &mut Vec<u8>) {
        let ChannelOpenFailure { recipient_channel, reason_code, description } = self;

        MessageType::ChannelOpenFailure.encode(buffer);
        recipient_channel.encode(buffer);
        reason_code.encode(buffer);
        put_string(buffer, description);
        put_string(buffer, "en-US");
        assert(buffer@ =~= old(buffer)@ + self.wire());
    }
}

/// Terminal mode opcodes for the `pty-req` channel request.
///
/// See <https://www.rfc-editor.org/rfc/rfc4254#section-8> for the encoding and opcode semantics;
/// these largely mirror the POSIX termios flags.
#[derive(Clone, Copy, Debug, PartialEq, Eq, PartialOrd, Ord, Structural)]
pub enum Mode {
    /// `VINTR`, interrupt character.
    VIntr,
    /// `VQUIT`, quit character.
    VQuit,
    /// `VERASE`, erase the character to the left of the cursor.
    VErase,
    /// `VKILL`, kill the current input line.
    VKill,
    /// `VEOF`, end-of-file character.
    VEof,
    /// `VEOL`, end-of-line character in addition to carriage return and/or linefeed.
    VEol,
    /// `VEOL2`, additional end-of-line character.
    VEol2,
    /// `VSTART`, continues paused output.
    VStart,
    /// `VSTOP`, pauses output.
    VStop,
    /// `VSUSP`, suspends the current program.
    VSusp,
    /// `VDSUSP`, another suspend character.
    VDSusp,
    /// `VREPRINT`, reprints the current input line.
    VReprint,
    /// `VWERASE`, erases a word left of the cursor.
    VWErase,
    /// `VLNEXT`, enter the next character typed literally.
    VLNext,
    /// `VFLUSH`, character to flush output.
    VFlush,
    /// `VSWTCH`, switch to a different shell layer.
    VSwtch,
    /// `VSTATUS`, prints the system status line.
    VStatus,
    /// `VDISCARD`, toggles the flushing of terminal output.
    VDiscard,
    /// `IGNPAR`, the ignore parity flag.
    IgnPar,
    /// `PARMRK`, mark parity and framing errors.
    ParMrk,
    /// `INPCK`, enable checking of parity errors.
    INPck,
    /// `ISTRIP`, strip 8th bit off characters.
    IStrip,
    /// `INLCR`, map NL into CR on input.
    INlCr,
    /// `IGNCR`, ignore CR on input.
    IgnCr,
    /// `ICRNL`, map CR to NL on input.
    ICrNl,
    /// `IUCLC`, translate uppercase characters to lowercase.
    IUcLc,
    /// `IXON`, enable output flow control.
    IxOn,
    /// `IXANY`, any character will restart after stop.
    IxAny,
    /// `IXOFF`, enable input flow control.
    IxOff,
    /// `IMAXBEL`, ring bell on input queue full.
    IMaxBel,
    /// `IUTF8`, terminal input and output is assumed to be UTF-8 encoded.
    IUtf8,
    /// `ISIG`, enable signals INTR, QUIT and \[D\]SUSP.
    ISig,
    /// `ICANON`, canonicalize input lines.
    ICanon,
    /// `XCASE`, escaped uppercase input and output.
    XCase,
    /// `ECHO`, enable echoing.
    Echo,
    /// `ECHOE`, visually erase characters.
    EchoE,
    /// `ECHOK`, kill character discards current line.
    EchoK,
    /// `ECHONL`, echo NL even if ECHO is off.
    EchoNl,
    /// `NOFLSH`, don't flush after interrupt.
    NoFlsh,
    /// `TOSTOP`, stop background jobs from output.
    TOStop,
    /// `IEXTEN`, enable extensions.
    IExten,
    /// `ECHOCTL`, echo control characters as ^X.
    EchoCtl,
    /// `ECHOKE`, visual erase for line kill.
    EchoKe,
    /// `PENDIN`, retype pending input.
    Pendin,
    /// `OPOST`, enable output processing.
    OPost,
    /// `OLCUC`, convert lowercase to uppercase on output.
    OLcUc,
    /// `ONLCR`, map NL to CR-NL on output.
    ONlCr,
    /// `OCRNL`, translate carriage return to newline on output.
    OCrNl,
    /// `ONOCR`, translate newline to carriage return-newline on output.
    ONoCr,
    /// `ONLRET`, newline performs a carriage return on output.
    ONlRet,
    /// `CS7`, 7-bit mode.
    Cs7,
    /// `CS8`, 8-bit mode.
    Cs8,
    /// `PARENB`, parity enable.
    ParenB,
    /// `PARODD`, odd parity, else even.
    ParOdd,
    /// `TTY_OP_ISPEED`, input baud rate in bits per second.
    TtyOpISpeed,
    /// `TTY_OP_OSPEED`, output baud rate in bits per second.
    TtyOpOSpeed,
}

impl Mode {
    /// The opcode of the mode.
    pub open spec fn spec_opcode(self) -> u8 {
        match self {
            Mode::VIntr => 1,
            Mode::VQuit => 2,
            Mode::VErase => 3,
            Mode::VKill => 4,
            Mode::VEof => 5,
            Mode::VEol => 6,
            Mode::VEol2 => 7,
            Mode::VStart => 8,
            Mode::VStop => 9,
            Mode::VSusp => 10,
            Mode::VDSusp => 11,
            Mode::VReprint => 12,
            Mode::VWErase => 13,
            Mode::VLNext => 14,
            Mode::VFlush => 15,
            Mode::VSwtch => 16,
            Mode::VStatus => 17,
            Mode::VDiscard => 18,
            Mode::IgnPar => 30,
            Mode::ParMrk => 31,
            Mode::INPck => 32,
            Mode::IStrip => 33,
            Mode::INlCr => 34,
            Mode::IgnCr => 35,
            Mode::ICrNl => 36,
            Mode::IUcLc => 37,
            Mode::IxOn => 38,
            Mode::IxAny => 39,
            Mode::IxOff => 40,
            Mode::IMaxBel => 41,
            Mode::IUtf8 => 42,
            Mode::ISig => 50,
            Mode::ICanon => 51,
            Mode::XCase => 52,
            Mode::Echo => 53,
            Mode::EchoE => 54,
            Mode::EchoK => 55,
            Mode::EchoNl => 56,
            Mode::NoFlsh => 57,
            Mode::TOStop => 58,
            Mode::IExten => 59,
            Mode::EchoCtl => 60,
            Mode::EchoKe => 61,
            Mode::Pendin => 62,
            Mode::OPost => 70,
            Mode::OLcUc => 71,
            Mode::ONlCr => 72,
            Mode::OCrNl => 73,
            Mode::ONoCr => 74,
            Mode::ONlRet => 75,
            Mode::Cs7 => 90,
            Mode::Cs8 => 91,
            Mode::ParenB => 92,
            Mode::ParOdd => 93,
            Mode::TtyOpISpeed => 128,
            Mode::TtyOpOSpeed => 129,
        }
    }

    /// The mode with the given opcode.
    pub open spec fn spec_from_opcode(value: u8) -> Option<Mode> {
        if value == 1 {
            Some(Mode::VIntr)
        } else if value == 2 {
            Some(Mode::VQuit)
        } else if value == 3 {
            Some(Mode::VErase)
        } else if value == 4 {
            Some(Mode::VKill)
        } else if value == 5 {
            Some(Mode::VEof)
        } else if value == 6 {
            Some(Mode::VEol)
        } else if value == 7 {
            Some(Mode::VEol2)
        } else if value == 8 {
            Some(Mode::VStart)
        } else if value == 9 {
            Some(Mode::VStop)
        } else if value == 10 {
            Some(Mode::VSusp)
        } else if value == 11 {
            Some(Mode::VDSusp)
        } else if value == 12 {
            Some(Mode::VReprint)
        } else if value == 13 {
            Some(Mode::VWErase)
        } else if value == 14 {
            Some(Mode::VLNext)
        } else if value == 15 {
            Some(Mode::VFlush)
        } else if value == 16 {
            Some(Mode::VSwtch)
        } else if value == 17 {
            Some(Mode::VStatus)
        } else if value == 18 {
            Some(Mode::VDiscard)
        } else if value == 30 {
            Some(Mode::IgnPar)
        } else if value == 31 {
            Some(Mode::ParMrk)
        } else if value == 32 {
            Some(Mode::INPck)
        } else if value == 33 {
            Some(Mode::IStrip)
        } else if value == 34 {
            Some(Mode::INlCr)
        } else if value == 35 {
            Some(Mode::IgnCr)
        } else if value == 36 {
            Some(Mode::ICrNl)
        } else if value == 37 {
            Some(Mode::IUcLc)
        } else if value == 38 {
            Some(Mode::IxOn)
        } else if value == 39 {
            Some(Mode::IxAny)
        } else if value == 40 {
            Some(Mode::IxOff)
        } else if value == 41 {
            Some(Mode::IMaxBel)
        } else if value == 42 {
            Some(Mode::IUtf8)
        } else if value == 50 {
            Some(Mode::ISig)
        } else if value == 51 {
            Some(Mode::ICanon)
        } else if value == 52 {
            Some(Mode::XCase)
        } else if value == 53 {
            Some(Mode::Echo)
        } else if value == 54 {
            Some(Mode::EchoE)
        } else if value == 55 {
            Some(Mode::EchoK)
        } else if value == 56 {
            Some(Mode::EchoNl)
        } else if value == 57 {
            Some(Mode::NoFlsh)
        } else if value == 58 {
            Some(Mode::TOStop)
        } else if value == 59 {
            Some(Mode::IExten)
        } else if value == 60 {
            Some(Mode::EchoCtl)
        } else if value == 61 {
            Some(Mode::EchoKe)
        } else if value == 62 {
            Some(Mode::Pendin)
        } else if value == 70 {
            Some(Mode::OPost)
        } else if value == 71 {
            Some(Mode::OLcUc)
        } else if value == 72 {
            Some(Mode::ONlCr)
        } else if value == 73 {
            Some(Mode::OCrNl)
        } else if value == 74 {
            Some(Mode::ONoCr)
        } else if value == 75 {
            Some(Mode::ONlRet)
        } else if value == 90 {
            Some(Mode::Cs7)
        } else if value == 91 {
            Some(Mode::Cs8)
        } else if value == 92 {
            Some(Mode::ParenB)
        } else if value == 93 {
            Some(Mode::ParOdd)
        } else if value == 128 {
            Some(Mode::TtyOpISpeed)
        } else if value == 129 {
            Some(Mode::TtyOpOSpeed)
        } else {
            None
        }
    }

    /// The opcode of the mode.
    pub fn opcode(self) -> (r: u8)
        ensures
            r == self.spec_opcode(),
    {
        match self {
            Mode::VIntr => 1,
            Mode::VQuit => 2,
            Mode::VErase => 3,
            Mode::VKill => 4,
            Mode::VEof => 5,
            Mode::VEol => 6,
            Mode::VEol2 => 7,
            Mode::VStart => 8,
            Mode::VStop => 9,
            Mode::VSusp => 10,
            Mode::VDSusp => 11,
            Mode::VReprint => 12,
            Mode::VWErase => 13,
            Mode::VLNext => 14,
            Mode::VFlush => 15,
            Mode::VSwtch => 16,
            Mode::VStatus => 17,
            Mode::VDiscard => 18,
            Mode::IgnPar => 30,
            Mode::ParMrk => 31,
            Mode::INPck => 32,
            Mode::IStrip => 33,
            Mode::INlCr => 34,
            Mode::IgnCr => 35,
            Mode::ICrNl => 36,
            Mode::IUcLc => 37,
            Mode::IxOn => 38,
            Mode::IxAny => 39,
            Mode::IxOff => 40,
            Mode::IMaxBel => 41,
            Mode::IUtf8 => 42,
            Mode::ISig => 50,
            Mode::ICanon => 51,
            Mode::XCase => 52,
            Mode::Echo => 53,
            Mode::EchoE => 54,
            Mode::EchoK => 55,
            Mode::EchoNl => 56,
            Mode::NoFlsh => 57,
            Mode::TOStop => 58,
            Mode::IExten => 59,
            Mode::EchoCtl => 60,
            Mode::EchoKe => 61,
            Mode::Pendin => 62,
            Mode::OPost => 70,
            Mode::OLcUc => 71,
            Mode::ONlCr => 72,
            Mode::OCrNl => 73,
            Mode::ONoCr => 74,
            Mode::ONlRet => 75,
            Mode::Cs7 => 90,
            Mode::Cs8 => 91,
            Mode::ParenB => 92,
            Mode::ParOdd => 93,
            Mode::TtyOpISpeed => 128,
            Mode::TtyOpOSpeed => 129,
        }
    }

    /// The mode with the given opcode.
    pub fn from_opcode(value: u8) -> (r: Option<Mode>)
        ensures
            r == Mode::spec_from_opcode(value),
    {
        Some(
            match value {
                1 => Mode::VIntr,
                2 => Mode::VQuit,
                3 => Mode::VErase,
                4 => Mode::VKill,
                5 => Mode::VEof,
                6 => Mode::VEol,
                7 => Mode::VEol2,
                8 => Mode::VStart,
                9 => Mode::VStop,
                10 => Mode::VSusp,
                11 => Mode::VDSusp,
                12 => Mode::VReprint,
                13 => Mode::VWErase,
                14 => Mode::VLNext,
                15 => Mode::VFlush,
                16 => Mode::VSwtch,
                17 => Mode::VStatus,
                18 => Mode::VDiscard,
                30 => Mode::IgnPar,
                31 => Mode::ParMrk,
                32 => Mode::INPck,
                33 => Mode::IStrip,
                34 => Mode::INlCr,
                35 => Mode::IgnCr,
                36 => Mode::ICrNl,
                37 => Mode::IUcLc,
                38 => Mode::IxOn,
                39 => Mode::IxAny,
                40 => Mode::IxOff,
                41 => Mode::IMaxBel,
                42 => Mode::IUtf8,
                50 => Mode::ISig,
                51 => Mode::ICanon,
                52 => Mode::XCase,
                53 => Mode::Echo,
                54 => Mode::EchoE,
                55 => Mode::EchoK,
                56 => Mode::EchoNl,
                57 => Mode::NoFlsh,
                58 => Mode::TOStop,
                59 => Mode::IExten,
                60 => Mode::EchoCtl,
                61 => Mode::EchoKe,
                62 => Mode::Pendin,
                70 => Mode::OPost,
                71 => Mode::OLcUc,
                72 => Mode::ONlCr,
                73 => Mode::OCrNl,
                74 => Mode::ONoCr,
                75 => Mode::ONlRet,
                90 => Mode::Cs7,
                91 => Mode::Cs8,
                92 => Mode::ParenB,
                93 => Mode::ParOdd,
                128 => Mode::TtyOpISpeed,
                129 => Mode::TtyOpOSpeed,
                _ => return None,
            },
        )
    }
}

/// A mode is read back from its opcode, and no mode has the opcode that ends a list of modes.
pub proof fn mode_round_trip(mode: Mode)
    ensures
        Mode::spec_from_opcode(mode.spec_opcode()) == Some(mode),
        mode.spec_opcode() != 0,
{
}

/// What decoding a mode gives: nothing at the end of a list of modes.
pub open spec fn parse_mode(input: Seq<u8>) -> Parsed<Option<Mode>> {
    match parse_u8(input) {
        Err(e) => Err(e),
        Ok((value, next)) => if value == 0 {
            Ok((None, next))
        } else {
            match Mode::spec_from_opcode(value) {
                Some(mode) => Ok((Some(mode), next)),
                None => Err(ProtoError::InvalidPacket("unknown terminal mode code")),
            }
        },
    }
}

impl<'a> Decode<'a> for Option<Mode> {
    type Model = Option<Mode>;

    open spec fn model(&self) -> Option<Mode> {
        *self
    }

    open spec fn parse(bytes: Seq<u8>) -> Parsed<Option<Mode>> {
        parse_mode(bytes)
    }

    fn decode(input: &'a [u8]) -> (r: Result<Decoded<'a, Self>, ProtoError>) {
        let Decoded { value, next } = u8::decode(input)?;
        if value == 0 {
            return Ok(Decoded { value: None, next });
        }
        match Mode::from_opcode(value) {
            Some(mode) => Ok(Decoded { value: Some(mode), next }),
            None => Err(ProtoError::InvalidPacket("unknown terminal mode code")),
        }
    }
}

/// The modes in a list of opcodes and arguments, added to those from before. The last argument
/// of an opcode counts.
pub open spec fn parse_modes(input: Seq<u8>, modes: Map<u8, u32>) -> Result<
    Map<u8, u32>,
    ProtoError,
>
    decreases input.len(),
{
    match parse_mode(input) {
        Err(e) => Err(e),
        Ok((None, _)) => Ok(modes),
        Ok((Some(mode), next)) => match parse_u32(next) {
            Err(e) => Err(e),
            Ok((value, next)) => if next.len() < input.len() {
                parse_modes(next, modes.insert(mode.spec_opcode(), value))
            } else {
                Ok(modes)
            },
        },
    }
}

/// What decoding terminal modes gives, as arguments by opcode.
pub open spec fn parse_terminal_modes(input: Seq<u8>) -> Parsed<Map<u8, u32>> {
    match parse_string(input) {
        Err(e) => Err(e),
        Ok((value, rest)) => match parse_modes(value, Map::empty()) {
            Err(e) => Err(e),
            Ok(modes) => Ok((modes, rest)),
        },
    }
}

impl<'a> Decode<'a> for BTreeMap<u8, u32> {
    type Model = Map<u8, u32>;

    open spec fn model(&self) -> Map<u8, u32> {
        self@
    }

    open spec fn parse(bytes: Seq<u8>) -> Parsed<Map<u8, u32>> {
        parse_terminal_modes(bytes)
    }

    fn decode(bytes: &'a [u8]) -> (r: Result<Decoded<'a, Self>, ProtoError>) {
        broadcast use vstd::laws_cmp::group_laws_cmp;

        let Decoded { value, next: rest } = <&[u8]>::decode(bytes)?;
        let ghost list = value@;
        let mut input = value;
        let mut modes: BTreeMap<u8, u32> = BTreeMap::new();

        loop
            invariant
                parse_modes(list, Map::empty()) == parse_modes(input@, modes@),
                parse_string(bytes@) == Ok::<(Seq<u8>, Seq<u8>), ProtoError>((list, rest@)),
            decreases input@.len(),
        {
            let Decoded { value, next } = Option::<Mode>::decode(input)?;
            match value {
                Some(mode) => {
                    let Decoded { value, next } = u32::decode(next)?;
                    modes.insert(mode.opcode(), value);
                    input = next;
                },
                None => {
                    return Ok(Decoded { value: modes, next: rest });
                },
            }
        }
    }
}

/// Type-specific data for the `pty-req` channel request.
///
/// See <https://www.rfc-editor.org/rfc/rfc4254#section-6.2>.
#[derive(Debug)]
pub struct PtyReq<'a> {
    /// The `TERM` environment variable value (e.g. `vt100`).
    pub term: Cow<'a, str>,
    /// Terminal width in columns.
    pub cols: u32,
    /// Terminal height in rows.
    pub rows: u32,
    /// Terminal width in pixels.
    pub width_px: u32,
    /// Terminal height in pixels.
    pub height_px: u32,
    /// Terminal modes: the argument of each, by the opcode of a [`Mode`].
    ///
    /// See <https://www.rfc-editor.org/rfc/rfc4254#section-8>.
    pub terminal_modes: BTreeMap<u8, u32>,
}

/// What a [`PtyReq`] asks for.
pub struct PtyReqView {
    /// The `TERM` environment variable value.
    pub term: Seq<char>,
    /// Terminal width in columns.
    pub cols: u32,
    /// Terminal height in rows.
    pub rows: u32,
    /// Terminal width in pixels.
    pub width_px: u32,
    /// Terminal height in pixels.
    pub height_px: u32,
    /// Terminal modes: the argument of each, by opcode.
    pub terminal_modes: Map<u8, u32>,
}

impl View for PtyReq<'_> {
    type V = PtyReqView;

    open spec fn view(&self) -> PtyReqView {
        PtyReqView {
            term: cow_view(self.term),
            cols: self.cols,
            rows: self.rows,
            width_px: self.width_px,
            height_px: self.height_px,
            terminal_modes: self.terminal_modes@,
        }
    }
}

impl<'a> PtyReq<'a> {
    /// Copy any borrowed data so the value can outlive the input buffer.
    pub fn into_owned(self) -> (r: PtyReq<'static>)
        ensures
            r@ == self@,
    {
        PtyReq {
            term: Cow::Owned(cow_text(&self.term).to_owned()),
            cols: self.cols,
            rows: self.rows,
            width_px: self.width_px,
            height_px: self.height_px,
            terminal_modes: self.terminal_modes,
        }
    }
}

/// What decoding the data of a `pty-req` request gives.
pub open spec fn parse_pty_req(input: Seq<u8>) -> Parsed<PtyReqView> {
    match parse_string(input) {
        Err(e) => Err(e),
        Ok((term, next)) => if !valid_utf8(term) {
            Err(ProtoError::InvalidPacket("invalid UTF-8 in pty-req data"))
        } else {
            match parse_window_change(next) {
                Err(e) => Err(e),
                Ok((window, next)) => match parse_terminal_modes(next) {
                    Err(e) => Err(e),
                    Ok((terminal_modes, next)) => Ok(
                        (
                            PtyReqView {
                                term: decode_utf8(term),
                                cols: window.cols,
                                rows: window.rows,
                                width_px: window.width_px,
                                height_px: window.height_px,
                                terminal_modes,
                            },
                            next,
                        ),
                    ),
                },
            }
        },
    }
}

impl<'a> Decode<'a> for PtyReq<'a> {
    type Model = PtyReqView;

    open spec fn model(&self) -> PtyReqView {
        self@
    }

    open spec fn parse(bytes: Seq<u8>) -> Parsed<PtyReqView> {
        parse_pty_req(bytes)
    }

    fn decode(input: &'a [u8]) -> (r: Result<Decoded<'a, Self>, ProtoError>) {
        let Decoded { value: term, next } = <&[u8]>::decode(input)?;
        let Some(term) = from_utf8(term) else {
            return Err(ProtoError::InvalidPacket("invalid UTF-8 in pty-req data"));
        };

        let Decoded { value: cols, next } = u32::decode(next)?;
        let Decoded { value: rows, next } = u32::decode(next)?;
        let Decoded { value: width_px, next } = u32::decode(next)?;
        let Decoded { value: height_px, next } = u32::decode(next)?;
        let Decoded { value: terminal_modes, next } = BTreeMap::<u8, u32>::decode(next)?;

        Ok(
            Decoded {
                value: PtyReq {
                    term: Cow::Borrowed(term),
                    cols,
                    rows,
                    width_px,
                    height_px,
                    terminal_modes,
                },
                next,
            },
        )
    }
}

/// Type-specific data for the `window-change` channel request.
///
/// See <https://www.rfc-editor.org/rfc/rfc4254#section-6.7>.
#[derive(Clone, Copy, Debug, PartialEq, Eq, Structural)]
pub struct WindowChange {
    /// Terminal width in columns.
    pub cols: u32,
    /// Terminal height in rows.
    pub rows: u32,
    /// Terminal width in pixels.
    pub width_px: u32,
    /// Terminal height in pixels.
    pub height_px: u32,
}

/// What decoding the data of a `window-change` request gives.
pub open spec fn parse_window_change(input: Seq<u8>) -> Parsed<WindowChange> {
    match parse_u32(input) {
        Err(e) => Err(e),
        Ok((cols, next)) => match parse_u32(next) {
            Err(e) => Err(e),
            Ok((rows, next)) => match parse_u32(next) {
                Err(e) => Err(e),
                Ok((width_px, next)) => match parse_u32(next) {
                    Err(e) => Err(e),
                    Ok((height_px, next)) => Ok(
                        (WindowChange { cols, rows, width_px, height_px }, next),
                    ),
                },
            },
        },
    }
}

impl<'a> Decode<'a> for WindowChange {
    type Model = WindowChange;

    open spec fn model(&self) -> WindowChange {
        *self
    }

    open spec fn parse(bytes: Seq<u8>) -> Parsed<WindowChange> {
        parse_window_change(bytes)
    }

    fn decode(input: &'a [u8]) -> (r: Result<Decoded<'a, Self>, ProtoError>) {
        let Decoded { value: cols, next } = u32::decode(input)?;
        let Decoded { value: rows, next } = u32::decode(next)?;
        let Decoded { value: width_px, next } = u32::decode(next)?;
        let Decoded { value: height_px, next } = u32::decode(next)?;

        Ok(Decoded { value: WindowChange { cols, rows, width_px, height_px }, next })
    }
}

/// Type-specific data for the `env` channel request.
///
/// See <https://www.rfc-editor.org/rfc/rfc4254#section-6.4>.
#[derive(Debug)]
pub struct Env<'a> {
    /// The environment variable name.
    pub name: &'a str,
    /// The environment variable value.
    pub value: &'a str,
}

/// What an [`Env`] sets.
pub struct EnvView {
    /// The environment variable name.
    pub name: Seq<char>,
    /// The environment variable value.
    pub value: Seq<char>,
}

impl View for Env<'_> {
    type V = EnvView;

    open spec fn view(&self) -> EnvView {
        EnvView { name: self.name@, value: self.value@ }
    }
}

/// What decoding the data of an `env` request gives.
pub open spec fn parse_env(input: Seq<u8>) -> Parsed<EnvView> {
    match parse_string(input) {
        Err(e) => Err(e),
        Ok((name, next)) => if !valid_utf8(name) {
            Err(ProtoError::InvalidPacket("invalid UTF-8 in env name"))
        } else {
            match parse_string(next) {
                Err(e) => Err(e),
                Ok((value, next)) => if !valid_utf8(value) {
                    Err(ProtoError::InvalidPacket("invalid UTF-8 in env value"))
                } else {
                    Ok((EnvView { name: decode_utf8(name), value: decode_utf8(value) }, next))
                },
            }
        },
    }
}

impl<'a> Decode<'a> for Env<'a> {
    type Model = EnvView;

    open spec fn model(&self) -> EnvView {
        self@
    }

    open spec fn parse(bytes: Seq<u8>) -> Parsed<EnvView> {
        parse_env(bytes)
    }

    fn decode(input: &'a [u8]) -> (r: Result<Decoded<'a, Self>, ProtoError>) {
        let Decoded { value: name, next } = <&[u8]>::decode(input)?;
        let Some(name) = from_utf8(name) else {
            return Err(ProtoError::InvalidPacket("invalid UTF-8 in env name"));
        };

        let Decoded { value, next } = <&[u8]>::decode(next)?;
        let Some(value) = from_utf8(value) else {
            return Err(ProtoError::InvalidPacket("invalid UTF-8 in env value"));
        };

        Ok(Decoded { value: Env { name, value }, next })
    }
}

/// Request type-specific data from a [`ChannelRequest`].
#[non_exhaustive]
#[derive(Debug)]
pub enum ChannelRequestType<'a> {
    /// `auth-agent-req@openssh.com`. Not currently supported.
    AuthAgentReq,
    /// `pty-req`, request a pseudo-terminal, as defined in
    /// <https://www.rfc-editor.org/rfc/rfc4254#section-6.2>.
    PtyReq(PtyReq<'a>),
    /// `env`, set an environment variable, as defined in
    /// <https://www.rfc-editor.org/rfc/rfc4254#section-6.4>.
    Env(Env<'a>),
    /// `shell`, start the user's default shell, as defined in
    /// <https://www.rfc-editor.org/rfc/rfc4254#section-6.5>.
    Shell,
    /// `window-change`, report new terminal dimensions, as defined in
    /// <https://www.rfc-editor.org/rfc/rfc4254#section-6.7>.
    WindowChange(WindowChange),
    /// Unknown channel request type; the string is the request type name.
    Unknown(&'a str),
}

/// What a [`ChannelRequestType`] asks for.
pub enum ChannelRequestTypeView {
    /// `auth-agent-req@openssh.com`
    AuthAgentReq,
    /// `pty-req`
    PtyReq(PtyReqView),
    /// `env`
    Env(EnvView),
    /// `shell`
    Shell,
    /// `window-change`
    WindowChange(WindowChange),
    /// Unknown channel request type; the string is the request type name.
    Unknown(Seq<char>),
}

impl View for ChannelRequestType<'_> {
    type V = ChannelRequestTypeView;

    open spec fn view(&self) -> ChannelRequestTypeView {
        match *self {
            ChannelRequestType::AuthAgentReq => ChannelRequestTypeView::AuthAgentReq,
            ChannelRequestType::PtyReq(data) => ChannelRequestTypeView::PtyReq(data@),
            ChannelRequestType::Env(data) => ChannelRequestTypeView::Env(data@),
            ChannelRequestType::Shell => ChannelRequestTypeView::Shell,
            ChannelRequestType::WindowChange(data) => ChannelRequestTypeView::WindowChange(data),
            ChannelRequestType::Unknown(name) => ChannelRequestTypeView::Unknown(name@),
        }
    }
}

/// The `SSH_MSG_CHANNEL_REQUEST` message.
///
/// See <https://www.rfc-editor.org/rfc/rfc4254#section-5.4>; request types for session channels are
/// defined in <https://www.rfc-editor.org/rfc/rfc4254#section-6>.
#[derive(Debug)]
pub struct ChannelRequest<'a> {
    /// The channel the request applies to.
    pub recipient_channel: u32,
    /// The request type and its type-specific data.
    pub request_type: ChannelRequestType<'a>,
    /// Whether the sender wants a success or failure reply.
    pub want_reply: bool,
}

/// What a [`ChannelRequest`] asks for.
pub struct ChannelRequestView {
    /// The channel the request applies to.
    pub recipient_channel: u32,
    /// The request type and its type-specific data.
    pub request_type: ChannelRequestTypeView,
    /// Whether the sender wants a success or failure reply.
    pub want_reply: bool,
}

impl View for ChannelRequest<'_> {
    type V = ChannelRequestView;

    open spec fn view(&self) -> ChannelRequestView {
        ChannelRequestView {
            recipient_channel: self.recipient_channel,
            request_type: self.request_type@,
            want_reply: self.want_reply,
        }
    }
}

impl ChannelRequest<'_> {
    /// The request with the given name and data.
    pub open spec fn parse_type(name: Seq<u8>, data: Seq<u8>) -> Result<
        ChannelRequestTypeView,
        ProtoError,
    > {
        if name == encode_utf8("pty-req"@) {
            match parse_pty_req(data) {
                Err(e) => Err(e),
                Ok((value, next)) => if next.len() != 0 {
                    Err(ProtoError::InvalidPacket("extra data in pty-req channel request"))
                } else {
                    Ok(ChannelRequestTypeView::PtyReq(value))
                },
            }
        } else if name == encode_utf8("env"@) {
            match parse_env(data) {
                Err(e) => Err(e),
                Ok((value, next)) => if next.len() != 0 {
                    Err(ProtoError::InvalidPacket("extra data in env channel request"))
                } else {
                    Ok(ChannelRequestTypeView::Env(value))
                },
            }
        } else if name == encode_utf8("shell"@) {
            if data.len() != 0 {
                Err(ProtoError::InvalidPacket("extra data in shell channel request"))
            } else {
                Ok(ChannelRequestTypeView::Shell)
            }
        } else if name == encode_utf8("window-change"@) {
            match parse_window_change(data) {
                Err(e) => Err(e),
                Ok((value, next)) => if next.len() != 0 {
                    Err(ProtoError::InvalidPacket("extra data in window-change channel request"))
                } else {
                    Ok(ChannelRequestTypeView::WindowChange(value))
                },
            }
        } else if name == encode_utf8("auth-agent-req@openssh.com"@) {
            Ok(ChannelRequestTypeView::AuthAgentReq)
        } else if valid_utf8(name) {
            Ok(ChannelRequestTypeView::Unknown(decode_utf8(name)))
        } else {
            Err(ProtoError::InvalidPacket("unknown channel request type (invalid UTF-8)"))
        }
    }

    /// What the payload of a channel request says.
    pub open spec fn parse(payload: Seq<u8>) -> Result<ChannelRequestView, ProtoError> {
        match parse_u32(payload) {
            Err(e) => Err(e),
            Ok((recipient_channel, next)) => match parse_string(next) {
                Err(e) => Err(e),
                Ok((name, next)) => match parse_bool(next) {
                    Err(e) => Err(e),
                    Ok((want_reply, next)) => match ChannelRequest::parse_type(name, next) {
                        Err(e) => Err(e),
                        Ok(request_type) => Ok(
                            ChannelRequestView { recipient_channel, request_type, want_reply },
                        ),
                    },
                },
            },
        }
    }
}

impl<'a> TryFrom<IncomingPacket<'a>> for ChannelRequest<'a> {
    type Error = ProtoError;

    fn try_from(packet: IncomingPacket<'a>) -> (r: Result<Self, ProtoError>)
        ensures
            if packet.message_type == MessageType::ChannelRequest {
                ChannelRequest::parse(packet.payload@) == match r {
                    Ok(m) => Ok::<ChannelRequestView, ProtoError>(m@),
                    Err(e) => Err::<ChannelRequestView, ProtoError>(e),
                }
            } else {
                unexpected(packet, seq![MessageType::ChannelRequest], r)
            },
    {
        packet.expect(&[MessageType::ChannelRequest])?;

        let Decoded { value: recipient_channel, next } = u32::decode(packet.payload)?;
        let Decoded { value: name, next } = <&[u8]>::decode(next)?;
        let Decoded { value: want_reply, next } = bool::decode(next)?;

        let request_type = if same_bytes(name, "pty-req".as_bytes()) {
            let Decoded { value, next } = PtyReq::decode(next)?;
            match next.len() == 0 {
                true => ChannelRequestType::PtyReq(value),
                false => {
                    return Err(ProtoError::InvalidPacket("extra data in pty-req channel request"));
                },
            }
        } else if same_bytes(name, "env".as_bytes()) {
            let Decoded { value, next } = Env::decode(next)?;
            match next.len() == 0 {
                true => ChannelRequestType::Env(value),
                false => {
                    return Err(ProtoError::InvalidPacket("extra data in env channel request"));
                },
            }
        } else if same_bytes(name, "shell".as_bytes()) {
            match next.len() == 0 {
                true => ChannelRequestType::Shell,
                false => {
                    return Err(ProtoError::InvalidPacket("extra data in shell channel request"));
                },
            }
        } else if same_bytes(name, "window-change".as_bytes()) {
            let Decoded { value, next } = WindowChange::decode(next)?;
            match next.len() == 0 {
                true => ChannelRequestType::WindowChange(value),
                false => {
                    return Err(
                        ProtoError::InvalidPacket("extra data in window-change channel request"),
                    );
                },
            }
        } else if same_bytes(name, "auth-agent-req@openssh.com".as_bytes()) {
            ChannelRequestType::AuthAgentReq
        } else {
            match from_utf8(name) {
                Some(name) => ChannelRequestType::Unknown(name),
                None => {
                    return Err(
                        ProtoError::InvalidPacket("unknown channel request type (invalid UTF-8)"),
                    );
                },
            }
        };

        Ok(ChannelRequest { recipient_channel, request_type, want_reply })
    }
}

impl<'a> vstd::std_specs::convert::TryFromSpecImpl<IncomingPacket<'a>> for ChannelRequest<'a> {
    open spec fn obeys_try_from_spec() -> bool {
        false
    }

    open spec fn try_from_spec(packet: IncomingPacket<'a>) -> Result<Self, ProtoError> {
        arbitrary()
    }
}

/// The `SSH_MSG_CHANNEL_SUCCESS` message.
///
/// See <https://www.rfc-editor.org/rfc/rfc4254#section-5.4>.
#[derive(Debug)]
pub struct ChannelRequestSuccess {
    /// The channel the reply applies to.
    pub recipient_channel: u32,
}

/// The bytes of a [`ChannelRequestSuccess`].
pub open spec fn success_wire(recipient_channel: u32) -> Seq<u8> {
    type_wire(MessageType::ChannelSuccess) + u32_wire(recipient_channel)
}

impl Encode for ChannelRequestSuccess {
    open spec fn wire(&self) -> Seq<u8> {
        success_wire(self.recipient_channel)
    }

    fn encode(&self, buffer: &mut Vec<u8>) {
        let ChannelRequestSuccess { recipient_channel } = self;
        MessageType::ChannelSuccess.encode(buffer);
        recipient_channel.encode(buffer);
        assert(buffer@ =~= old(buffer)@ + self.wire());
    }
}

/// The `SSH_MSG_CHANNEL_FAILURE` message.
///
/// See <https://www.rfc-editor.org/rfc/rfc4254#section-5.4>.
#[derive(Debug)]
pub struct ChannelRequestFailure {
    /// The channel the reply applies to.
    pub recipient_channel: u32,
}

/// The bytes of a [`ChannelRequestFailure`].
pub open spec fn failure_wire(recipient_channel: u32) -> Seq<u8> {
    type_wire(MessageType::ChannelFailure) + u32_wire(recipient_channel)
}

impl Encode for ChannelRequestFailure {
    open spec fn wire(&self) -> Seq<u8> {
        failure_wire(self.recipient_channel)
    }

    fn encode(&self, buffer: &mut Vec<u8>) {
        let ChannelRequestFailure { recipient_channel } = self;
        MessageType::ChannelFailure.encode(buffer);
        recipient_channel.encode(buffer);
        assert(buffer@ =~= old(buffer)@ + self.wire());
    }
}

/// The `SSH_MSG_CHANNEL_DATA` message.
///
/// See <https://www.rfc-editor.org/rfc/rfc4254#section-5.2>.
pub struct ChannelData<'a> {
    /// The channel the data belongs to.
    pub recipient_channel: u32,
    /// The data being transferred.
    pub data: Cow<'a, [u8]>,
}

/// What a [`ChannelData`] holds.
pub struct ChannelDataView {
    /// The channel the data belongs to.
    pub recipient_channel: u32,
    /// The data being transferred.
    pub data: Seq<u8>,
}

impl View for ChannelData<'_> {
    type V = ChannelDataView;

    open spec fn view(&self) -> ChannelDataView {
        ChannelDataView {
            recipient_channel: self.recipient_channel,
            data: cow_bytes_view(self.data),
        }
    }
}

impl ChannelDataView {
    /// The message without the message type.
    pub open spec fn payload(self) -> Seq<u8> {
        u32_wire(self.recipient_channel) + string_wire(self.data)
    }
}

impl ChannelData<'_> {
    /// What the payload of the message holds.
    pub open spec fn parse(payload: Seq<u8>) -> Result<ChannelDataView, ProtoError> {
        match parse_u32(payload) {
            Err(e) => Err(e),
            Ok((recipient_channel, next)) => match parse_string(next) {
                Err(e) => Err(e),
                Ok((data, next)) => if next.len() != 0 {
                    Err(ProtoError::InvalidPacket("extra data in channel data packet"))
                } else {
                    Ok(ChannelDataView { recipient_channel, data })
                },
            },
        }
    }
}

impl<'a> TryFrom<IncomingPacket<'a>> for ChannelData<'a> {
    type Error = ProtoError;

    fn try_from(packet: IncomingPacket<'a>) -> (r: Result<Self, ProtoError>)
        ensures
            if packet.message_type == MessageType::ChannelData {
                ChannelData::parse(packet.payload@) == match r {
                    Ok(m) => Ok::<ChannelDataView, ProtoError>(m@),
                    Err(e) => Err::<ChannelDataView, ProtoError>(e),
                }
            } else {
                unexpected(packet, seq![MessageType::ChannelData], r)
            },
    {
        packet.expect(&[MessageType::ChannelData])?;

        let Decoded { value: recipient_channel, next } = u32::decode(packet.payload)?;
        let Decoded { value: data, next } = <&[u8]>::decode(next)?;

        match next.len() == 0 {
            true => Ok(ChannelData { recipient_channel, data: Cow::Borrowed(data) }),
            false => Err(ProtoError::InvalidPacket("extra data in channel data packet")),
        }
    }
}

impl<'a> vstd::std_specs::convert::TryFromSpecImpl<IncomingPacket<'a>> for ChannelData<'a> {
    open spec fn obeys_try_from_spec() -> bool {
        false
    }

    open spec fn try_from_spec(packet: IncomingPacket<'a>) -> Result<Self, ProtoError> {
        arbitrary()
    }
}

/// The bytes of a [`ChannelData`].
pub open spec fn data_wire(m: ChannelDataView) -> Seq<u8> {
    type_wire(MessageType::ChannelData) + m.payload()
}

impl Encode for ChannelData<'_> {
    open spec fn wire(&self) -> Seq<u8> {
        data_wire(self@)
    }

    fn encode(&self, buffer: &mut Vec<u8>) {
        let ChannelData { recipient_channel, data } = self;

        MessageType::ChannelData.encode(buffer);
        recipient_channel.encode(buffer);
        cow_bytes(data).encode(buffer);
        assert(buffer@ =~= old(buffer)@ + self.wire());
    }
}

/// Channel data that fits its length field is read back as it was written.
pub proof fn channel_data_round_trip(m: ChannelDataView)
    requires
        m.data.len() <= u32::MAX,
    ensures
        ChannelData::parse(m.payload()) == Ok::<ChannelDataView, ProtoError>(m),
{
    u32_round_trip(m.recipient_channel, string_wire(m.data));
    string_round_trip(m.data, Seq::empty());
    assert(string_wire(m.data) + Seq::<u8>::empty() =~= string_wire(m.data));
}

/// The `SSH_MSG_CHANNEL_WINDOW_ADJUST` message.
///
/// See <https://www.rfc-editor.org/rfc/rfc4254#section-5.2>.
#[derive(Clone, Copy, Debug, PartialEq, Eq, Structural)]
pub struct ChannelWindowAdjust {
    /// The channel whose window to extend.
    pub recipient_channel: u32,
    /// Number of bytes to add to the window.
    pub bytes_to_add: u32,
}

impl ChannelWindowAdjust {
    /// The message without the message type.
    pub open spec fn payload(self) -> Seq<u8> {
        u32_wire(self.recipient_channel) + u32_wire(self.bytes_to_add)
    }

    /// What the payload of the message says.
    pub open spec fn parse(payload: Seq<u8>) -> Result<ChannelWindowAdjust, ProtoError> {
        match parse_u32(payload) {
            Err(e) => Err(e),
            Ok((recipient_channel, next)) => match parse_u32(next) {
                Err(e) => Err(e),
                Ok((bytes_to_add, next)) => if next.len() != 0 {
                    Err(ProtoError::InvalidPacket("extra data in channel window adjust packet"))
                } else {
                    Ok(ChannelWindowAdjust { recipient_channel, bytes_to_add })
                },
            },
        }
    }
}

/// The bytes of a [`ChannelWindowAdjust`].
pub open spec fn adjust_wire(m: ChannelWindowAdjust) -> Seq<u8> {
    type_wire(MessageType::ChannelWindowAdjust) + m.payload()
}

impl Encode for ChannelWindowAdjust {
    open spec fn wire(&self) -> Seq<u8> {
        adjust_wire(*self)
    }

    fn encode(&self, buffer: &mut Vec<u8>) {
        let ChannelWindowAdjust { recipient_channel, bytes_to_add } = self;

        MessageType::ChannelWindowAdjust.encode(buffer);
        recipient_channel.encode(buffer);
        bytes_to_add.encode(buffer);
        assert(buffer@ =~= old(buffer)@ + self.wire());
    }
}

impl<'a> TryFrom<IncomingPacket<'a>> for ChannelWindowAdjust {
    type Error = ProtoError;

    fn try_from(packet: IncomingPacket<'a>) -> (r: Result<Self, ProtoError>)
        ensures
            if packet.message_type == MessageType::ChannelWindowAdjust {
                ChannelWindowAdjust::parse(packet.payload@) == match r {
                    Ok(m) => Ok::<ChannelWindowAdjust, ProtoError>(m),
                    Err(e) => Err::<ChannelWindowAdjust, ProtoError>(e),
                }
            } else {
                unexpected(packet, seq![MessageType::ChannelWindowAdjust], r)
            },
    {
        packet.expect(&[MessageType::ChannelWindowAdjust])?;

        let Decoded { value: recipient_channel, next } = u32::decode(packet.payload)?;
        let Decoded { value: bytes_to_add, next } = u32::decode(next)?;

        match next.len() == 0 {
            true => Ok(ChannelWindowAdjust { recipient_channel, bytes_to_add }),
            false => Err(ProtoError::InvalidPacket("extra data in channel window adjust packet")),
        }
    }
}

impl<'a> vstd::std_specs::convert::TryFromSpecImpl<IncomingPacket<'a>> for ChannelWindowAdjust {
    open spec fn obeys_try_from_spec() -> bool {
        false
    }

    open spec fn try_from_spec(packet: IncomingPacket<'a>) -> Result<Self, ProtoError> {
        arbitrary()
    }
}

/// A window adjustment is read back as it was written.
pub proof fn window_adjust_round_trip(m: ChannelWindowAdjust)
    ensures
        ChannelWindowAdjust::parse(m.payload()) == Ok::<ChannelWindowAdjust, ProtoError>(m),
{
    u32_round_trip(m.recipient_channel, u32_wire(m.bytes_to_add));
    u32_round_trip(m.bytes_to_add, Seq::empty());
    assert(u32_wire(m.bytes_to_add) + Seq::<u8>::empty() =~= u32_wire(m.bytes_to_add));
}

/// The `SSH_MSG_CHANNEL_EOF` message.
///
/// Signals that no more data will be sent to the channel.
///
/// See <https://www.rfc-editor.org/rfc/rfc4254#section-5.3>.
#[derive(Clone, Copy, Debug, PartialEq, Eq, Structural)]
pub struct ChannelEof {
    /// The channel that will receive no more data.
    pub recipient_channel: u32,
}

impl ChannelEof {
    /// What the payload of the message says.
    pub open spec fn parse(payload: Seq<u8>) -> Result<ChannelEof, ProtoError> {
        match parse_u32(payload) {
            Err(e) => Err(e),
            Ok((recipient_channel, next)) => if next.len() != 0 {
                Err(ProtoError::InvalidPacket("extra data in channel eof packet"))
            } else {
                Ok(ChannelEof { recipient_channel })
            },
        }
    }
}

impl<'a> TryFrom<IncomingPacket<'a>> for ChannelEof {
    type Error = ProtoError;

    fn try_from(packet: IncomingPacket<'a>) -> (r: Result<Self, ProtoError>)
        ensures
            if packet.message_type == MessageType::ChannelEof {
                ChannelEof::parse(packet.payload@) == match r {
                    Ok(m) => Ok::<ChannelEof, ProtoError>(m),
                    Err(e) => Err::<ChannelEof, ProtoError>(e),
                }
            } else {
                unexpected(packet, seq![MessageType::ChannelEof], r)
            },
    {
        packet.expect(&[MessageType::ChannelEof])?;

        let Decoded { value: recipient_channel, next } = u32::decode(packet.payload)?;

        match next.len() == 0 {
            true => Ok(ChannelEof { recipient_channel }),
            false => Err(ProtoError::InvalidPacket("extra data in channel eof packet")),
        }
    }
}

impl<'a> vstd::std_specs::convert::TryFromSpecImpl<IncomingPacket<'a>> for ChannelEof {
    open spec fn obeys_try_from_spec() -> bool {
        false
    }

    open spec fn try_from_spec(packet: IncomingPacket<'a>) -> Result<Self, ProtoError> {
        arbitrary()
    }
}

/// The bytes of a [`ChannelEof`].
pub open spec fn eof_wire(recipient_channel: u32) -> Seq<u8> {
    type_wire(MessageType::ChannelEof) + u32_wire(recipient_channel)
}

impl Encode for ChannelEof {
    open spec fn wire(&self) -> Seq<u8> {
        eof_wire(self.recipient_channel)
    }

    fn encode(&self, buffer: &mut Vec<u8>) {
        let ChannelEof { recipient_channel } = self;
        MessageType::ChannelEof.encode(buffer);
        recipient_channel.encode(buffer);
        assert(buffer@ =~= old(buffer)@ + self.wire());
    }
}

/// The message is read back as it was written.
pub proof fn channel_eof_round_trip(m: ChannelEof)
    ensures
        ChannelEof::parse(u32_wire(m.recipient_channel)) == Ok::<ChannelEof, ProtoError>(m),
{
    u32_round_trip(m.recipient_channel, Seq::empty());
    assert(u32_wire(m.recipient_channel) + Seq::<u8>::empty() =~= u32_wire(m.recipient_channel));
}

/// The `SSH_MSG_CHANNEL_CLOSE` message.
///
/// See <https://www.rfc-editor.org/rfc/rfc4254#section-5.3>.
#[derive(Clone, Copy, Debug, PartialEq, Eq, Structural)]
pub struct ChannelClose {
    /// The channel being closed.
    pub recipient_channel: u32,
}

impl ChannelClose {
    /// What the payload of the message says.
    pub open spec fn parse(payload: Seq<u8>) -> Result<ChannelClose, ProtoError> {
        match parse_u32(payload) {
            Err(e) => Err(e),
            Ok((recipient_channel, next)) => if next.len() != 0 {
                Err(ProtoError::InvalidPacket("extra data in channel close packet"))
            } else {
                Ok(ChannelClose { recipient_channel })
            },
        }
    }
}

impl<'a> TryFrom<IncomingPacket<'a>> for ChannelClose {
    type Error = ProtoError;

    fn try_from(packet: IncomingPacket<'a>) -> (r: Result<Self, ProtoError>)
        ensures
            if packet.message_type == MessageType::ChannelClose {
                ChannelClose::parse(packet.payload@) == match r {
                    Ok(m) => Ok::<ChannelClose, ProtoError>(m),
                    Err(e) => Err::<ChannelClose, ProtoError>(e),
                }
            } else {
                unexpected(packet, seq![MessageType::ChannelClose], r)
            },
    {
        packet.expect(&[MessageType::ChannelClose])?;

        let Decoded { value: recipient_channel, next } = u32::decode(packet.payload)?;

        match next.len() == 0 {
            true => Ok(ChannelClose { recipient_channel }),
            false => Err(ProtoError::InvalidPacket("extra data in channel close packet")),
        }
    }
}

impl<'a> vstd::std_specs::convert::TryFromSpecImpl<IncomingPacket<'a>> for ChannelClose {
    open spec fn obeys_try_from_spec() -> bool {
        false
    }

    open spec fn try_from_spec(packet: IncomingPacket<'a>) -> Result<Self, ProtoError> {
        arbitrary()
    }
}

/// The bytes of a [`ChannelClose`].
pub open spec fn close_wire(recipient_channel: u32) -> Seq<u8> {
    type_wire(MessageType::ChannelClose) + u32_wire(recipient_channel)
}

impl Encode for ChannelClose {
    open spec fn wire(&self) -> Seq<u8> {
        close_wire(self.recipient_channel)
    }

    fn encode(&self, buffer: &mut Vec<u8>) {
        let ChannelClose { recipient_channel } = self;
        MessageType::ChannelClose.encode(buffer);
        recipient_channel.encode(buffer);
        assert(buffer@ =~= old(buffer)@ + self.wire());
    }
}

/// The message is read back as it was written.
pub proof fn channel_close_round_trip(m: ChannelClose)
    ensures
        ChannelClose::parse(u32_wire(m.recipient_channel)) == Ok::<ChannelClose, ProtoError>(m),
{
    u32_round_trip(m.recipient_channel, Seq::empty());
    assert(u32_wire(m.recipient_channel) + Seq::<u8>::empty() =~= u32_wire(m.recipient_channel));
}

} // verus!
