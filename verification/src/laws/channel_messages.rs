//! The messages of the connection protocol (<https://www.rfc-editor.org/rfc/rfc4254>).

use vstd::prelude::*;
use vstd::utf8::{encode_utf8, encode_utf8_decode_utf8, encode_utf8_valid_utf8};
use vstd::utf8::valid_utf8;

use crate::channels::{adjust_wire, close_wire, confirmation_wire, data_wire, eof_wire};
use crate::channels::{failure_wire, open_failure_wire, parse_env, parse_modes, parse_pty_req};
use crate::channels::{parse_window_change, success_wire, ChannelClose};
use crate::channels::{ChannelData, ChannelDataView, ChannelEof, ChannelOpen, ChannelOpenConfirmation};
use crate::channels::{ChannelOpenFailureReason, ChannelOpenView, ChannelRequest};
use crate::channels::{ChannelRequestTypeView, ChannelRequestView, ChannelWindowAdjust, EnvView};
use crate::channels::{Mode, PtyReqView, WindowChange};
use crate::error::ProtoError;
use crate::laws::encoding::boolean_layout;
use crate::named::ChannelTypeView;
use crate::wire::{string_round_trip, string_wire, text_round_trip, text_wire};
use crate::wire::{u32_round_trip, u32_wire};

verus! {

/// The data of an `env` request: the name and then the value of the variable
/// (<https://www.rfc-editor.org/rfc/rfc4254#section-6.4>).
pub proof fn env_layout(name: Seq<char>, value: Seq<char>, rest: Seq<u8>)
    requires
        encode_utf8(name).len() <= u32::MAX,
        encode_utf8(value).len() <= u32::MAX,
    ensures
        parse_env(text_wire(name) + (text_wire(value) + rest)) == Ok::<
            (EnvView, Seq<u8>),
            ProtoError,
        >((EnvView { name, value }, rest)),
{
    text_round_trip(name, text_wire(value) + rest);
    text_round_trip(value, rest);
}

/// A name or a value that is not text is refused.
pub proof fn env_is_text(name: Seq<u8>, value: Seq<u8>, rest: Seq<u8>)
    requires
        name.len() <= u32::MAX,
        value.len() <= u32::MAX,
    ensures
        parse_env(string_wire(name) + (string_wire(value) + rest)) is Ok <==> valid_utf8(name)
            && valid_utf8(value),
{
    string_round_trip(name, string_wire(value) + rest);
    string_round_trip(value, rest);
}

/// The data of a `window-change` request: columns, rows, width and height
/// (<https://www.rfc-editor.org/rfc/rfc4254#section-6.7>).
pub proof fn window_change_layout(
    cols: u32,
    rows: u32,
    width_px: u32,
    height_px: u32,
    rest: Seq<u8>,
)
    ensures
        parse_window_change(
            u32_wire(cols) + (u32_wire(rows) + (u32_wire(width_px) + (u32_wire(height_px) + rest))),
        ) == Ok::<(WindowChange, Seq<u8>), ProtoError>(
            (WindowChange { cols, rows, width_px, height_px }, rest),
        ),
{
    u32_round_trip(
        cols,
        u32_wire(rows) + (u32_wire(width_px) + (u32_wire(height_px) + rest)),
    );
    u32_round_trip(rows, u32_wire(width_px) + (u32_wire(height_px) + rest));
    u32_round_trip(width_px, u32_wire(height_px) + rest);
    u32_round_trip(height_px, rest);
}

/// The data of a `pty-req` request: the terminal type, columns, rows, width, height and modes
/// (<https://www.rfc-editor.org/rfc/rfc4254#section-6.2>).
pub proof fn pty_req_layout(
    term: Seq<char>,
    cols: u32,
    rows: u32,
    width_px: u32,
    height_px: u32,
    modes: Seq<u8>,
    rest: Seq<u8>,
)
    requires
        encode_utf8(term).len() <= u32::MAX,
        modes.len() <= u32::MAX,
    ensures
        parse_pty_req(
            text_wire(term) + (u32_wire(cols) + (u32_wire(rows) + (u32_wire(width_px) + (u32_wire(
                height_px,
            ) + (string_wire(modes) + rest))))),
        ) == match parse_modes(modes, Map::empty()) {
            Ok(terminal_modes) => Ok::<(PtyReqView, Seq<u8>), ProtoError>(
                (PtyReqView { term, cols, rows, width_px, height_px, terminal_modes }, rest),
            ),
            Err(e) => Err(e),
        },
{
    let next = string_wire(modes) + rest;
    text_round_trip(
        term,
        u32_wire(cols) + (u32_wire(rows) + (u32_wire(width_px) + (u32_wire(height_px) + next))),
    );
    window_change_layout(cols, rows, width_px, height_px, next);
    string_round_trip(modes, rest);
}

/// The modes of a terminal: those that stand in the list one after another, each an opcode and a
/// value, up to an opcode of 0. Where one stands in the list twice, the later value counts. What
/// follows the 0 does not count (<https://www.rfc-editor.org/rfc/rfc4254#section-8>).
pub proof fn terminal_modes_layout(opcodes: Seq<u8>, values: Seq<u32>, list: Seq<u8>, end: Seq<u8>)
    requires
        opcodes.len() == values.len(),
        forall|i: int| 0 <= i < opcodes.len() ==> Mode::spec_from_opcode(#[trigger] opcodes[i]) is Some,
        list == listed_modes(opcodes, values) + (seq![0u8] + end),
    ensures
        parse_modes(list, Map::empty()) matches Ok(modes) && {
            &&& forall|opcode: u8| #[trigger]
                modes.contains_key(opcode) <==> opcodes.contains(opcode)
            &&& forall|i: int|
                0 <= i < opcodes.len() && !opcodes.skip(i + 1).contains(#[trigger] opcodes[i])
                    ==> modes[opcodes[i]] == values[i]
        },
{
    lemma_listed_modes(opcodes, values, end, Map::empty());
}

/// Opcodes and values one after another.
pub open spec fn listed_modes(opcodes: Seq<u8>, values: Seq<u32>) -> Seq<u8>
    decreases opcodes.len(),
{
    if opcodes.len() == 0 {
        Seq::empty()
    } else {
        seq![opcodes[0]] + (u32_wire(values[0]) + listed_modes(opcodes.skip(1), values.skip(1)))
    }
}

proof fn lemma_listed_modes(opcodes: Seq<u8>, values: Seq<u32>, end: Seq<u8>, before: Map<u8, u32>)
    requires
        opcodes.len() == values.len(),
        forall|i: int| 0 <= i < opcodes.len() ==> Mode::spec_from_opcode(#[trigger] opcodes[i]) is Some,
    ensures
        parse_modes(listed_modes(opcodes, values) + (seq![0u8] + end), before) matches Ok(modes) && {
            &&& forall|opcode: u8| #[trigger]
                modes.contains_key(opcode) <==> opcodes.contains(opcode) || before.contains_key(
                    opcode,
                )
            &&& forall|opcode: u8|
                !opcodes.contains(opcode) && before.contains_key(opcode) ==> #[trigger] modes[opcode]
                    == before[opcode]
            &&& forall|i: int|
                0 <= i < opcodes.len() && !opcodes.skip(i + 1).contains(#[trigger] opcodes[i])
                    ==> modes[opcodes[i]] == values[i]
        },
    decreases opcodes.len(),
{
    let list = listed_modes(opcodes, values) + (seq![0u8] + end);
    if opcodes.len() == 0 {
        assert(list =~= seq![0u8] + end);
        boolean_layout(true, 0, end);
    } else {
        let (opcode, value) = (opcodes[0], values[0]);
        let (others, other_values) = (opcodes.skip(1), values.skip(1));
        let next = listed_modes(others, other_values) + (seq![0u8] + end);
        assert(list =~= seq![opcode] + (u32_wire(value) + next));
        boolean_layout(true, opcode, u32_wire(value) + next);
        u32_round_trip(value, next);
        lemma_opcode(opcode);
        assert forall|i: int| 0 <= i < others.len() implies Mode::spec_from_opcode(
            #[trigger] others[i],
        ) is Some by {
            assert(others[i] == opcodes[i + 1]);
        }
        lemma_listed_modes(others, other_values, end, before.insert(opcode, value));
        let modes = parse_modes(next, before.insert(opcode, value))->Ok_0;
        assert(parse_modes(list, before) == Ok::<Map<u8, u32>, ProtoError>(modes));
        assert forall|o: u8| #[trigger]
            modes.contains_key(o) <==> opcodes.contains(o) || before.contains_key(o) by {
            lemma_skip_contains(opcodes, o);
        }
        assert forall|o: u8| !opcodes.contains(o) && before.contains_key(o) implies #[trigger] modes[o]
            == before[o] by {
            lemma_skip_contains(opcodes, o);
        }
        assert forall|i: int|
            0 <= i < opcodes.len() && !opcodes.skip(i + 1).contains(
                #[trigger] opcodes[i],
            ) implies modes[opcodes[i]] == values[i] by {
            if i > 0 {
                assert(others[i - 1] == opcodes[i]);
                assert(others.skip(i) =~= opcodes.skip(i + 1));
            } else {
                assert(!others.contains(opcode));
            }
        }
    }
}

proof fn lemma_opcode(opcode: u8)
    requires
        Mode::spec_from_opcode(opcode) is Some,
    ensures
        opcode != 0,
        Mode::spec_from_opcode(opcode)->Some_0.spec_opcode() == opcode,
{
}

proof fn lemma_skip_contains(opcodes: Seq<u8>, opcode: u8)
    requires
        opcodes.len() > 0,
    ensures
        opcodes.contains(opcode) <==> opcode == opcodes[0] || opcodes.skip(1).contains(opcode),
{
    if opcodes.contains(opcode) {
        let i = choose|i: int| 0 <= i < opcodes.len() && opcodes[i] == opcode;
        if i > 0 {
            assert(opcodes.skip(1)[i - 1] == opcode);
        }
    }
    if opcodes.skip(1).contains(opcode) {
        let i = choose|i: int| 0 <= i < opcodes.skip(1).len() && opcodes.skip(1)[i] == opcode;
        assert(opcodes[i + 1] == opcode);
    }
}

/// A mode whose opcode is not known, or whose value is cut off, is refused, and so is a list
/// without an end.
pub proof fn broken_modes_fail(opcode: u8, rest: Seq<u8>, modes: Map<u8, u32>)
    ensures
        opcode != 0 && Mode::spec_from_opcode(opcode) is None ==> parse_modes(
            seq![opcode] + rest,
            modes,
        ) is Err,
        opcode != 0 && rest.len() < 4 ==> parse_modes(seq![opcode] + rest, modes) is Err,
        parse_modes(Seq::empty(), modes) is Err,
{
    boolean_layout(true, opcode, rest);
}

/// A channel request: the channel, the name of the request, whether a reply is wanted, and what
/// is particular to the request (<https://www.rfc-editor.org/rfc/rfc4254#section-5.4>).
pub proof fn channel_request_layout(channel: u32, name: Seq<u8>, want_reply: u8, data: Seq<u8>)
    requires
        name.len() <= u32::MAX,
    ensures
        ChannelRequest::parse(
            u32_wire(channel) + (string_wire(name) + (seq![want_reply] + data)),
        ) == match ChannelRequest::parse_type(name, data) {
            Ok(request_type) => Ok::<ChannelRequestView, ProtoError>(
                ChannelRequestView {
                    recipient_channel: channel,
                    request_type,
                    want_reply: want_reply != 0,
                },
            ),
            Err(e) => Err(e),
        },
{
    u32_round_trip(channel, string_wire(name) + (seq![want_reply] + data));
    string_round_trip(name, seq![want_reply] + data);
    boolean_layout(true, want_reply, data);
}

proof fn lemma_request_names()
    ensures
        encode_utf8("pty-req"@) != encode_utf8("env"@),
        encode_utf8("pty-req"@) != encode_utf8("shell"@),
        encode_utf8("pty-req"@) != encode_utf8("window-change"@),
        encode_utf8("pty-req"@) != encode_utf8("auth-agent-req@openssh.com"@),
        encode_utf8("env"@) != encode_utf8("shell"@),
        encode_utf8("env"@) != encode_utf8("window-change"@),
        encode_utf8("env"@) != encode_utf8("auth-agent-req@openssh.com"@),
        encode_utf8("shell"@) != encode_utf8("window-change"@),
        encode_utf8("shell"@) != encode_utf8("auth-agent-req@openssh.com"@),
        encode_utf8("window-change"@) != encode_utf8("auth-agent-req@openssh.com"@),
{
    reveal_strlit("pty-req");
    reveal_strlit("env");
    reveal_strlit("shell");
    reveal_strlit("window-change");
    reveal_strlit("auth-agent-req@openssh.com");
    vstd::utf8::is_ascii_chars_encode_utf8("pty-req"@);
    vstd::utf8::is_ascii_chars_encode_utf8("env"@);
    vstd::utf8::is_ascii_chars_encode_utf8("shell"@);
    vstd::utf8::is_ascii_chars_encode_utf8("window-change"@);
    vstd::utf8::is_ascii_chars_encode_utf8("auth-agent-req@openssh.com"@);
    assert(encode_utf8("pty-req"@).len() == 7);
    assert(encode_utf8("env"@).len() == 3);
    assert(encode_utf8("shell"@).len() == 5);
    assert(encode_utf8("window-change"@).len() == 13);
    assert(encode_utf8("auth-agent-req@openssh.com"@).len() == 26);
}

/// An `env` request asks to set the variable to the value, and holds nothing else.
pub proof fn env_request(name: Seq<char>, value: Seq<char>, rest: Seq<u8>)
    requires
        encode_utf8(name).len() <= u32::MAX,
        encode_utf8(value).len() <= u32::MAX,
    ensures
        ({
            let data = text_wire(name) + (text_wire(value) + rest);
            let request = ChannelRequest::parse_type(encode_utf8("env"@), data);
            &&& rest.len() == 0 ==> request == Ok::<ChannelRequestTypeView, ProtoError>(
                ChannelRequestTypeView::Env(EnvView { name, value }),
            )
            &&& rest.len() > 0 ==> request is Err
        }),
{
    lemma_request_names();
    env_layout(name, value, rest);
}

/// A `window-change` request gives the new size of the terminal, and holds nothing else.
pub proof fn window_change_request(
    cols: u32,
    rows: u32,
    width_px: u32,
    height_px: u32,
    rest: Seq<u8>,
)
    ensures
        ({
            let data = u32_wire(cols) + (u32_wire(rows) + (u32_wire(width_px) + (u32_wire(height_px)
                + rest)));
            let request = ChannelRequest::parse_type(encode_utf8("window-change"@), data);
            &&& rest.len() == 0 ==> request == Ok::<ChannelRequestTypeView, ProtoError>(
                ChannelRequestTypeView::WindowChange(
                    WindowChange { cols, rows, width_px, height_px },
                ),
            )
            &&& rest.len() > 0 ==> request is Err
        }),
{
    lemma_request_names();
    window_change_layout(cols, rows, width_px, height_px, rest);
}

/// A `pty-req` request gives the type, the size and the modes of the terminal, and holds nothing
/// else.
pub proof fn pty_request(
    term: Seq<char>,
    cols: u32,
    rows: u32,
    width_px: u32,
    height_px: u32,
    modes: Seq<u8>,
    rest: Seq<u8>,
)
    requires
        encode_utf8(term).len() <= u32::MAX,
        modes.len() <= u32::MAX,
    ensures
        ({
            let data = text_wire(term) + (u32_wire(cols) + (u32_wire(rows) + (u32_wire(width_px) + (
            u32_wire(height_px) + (string_wire(modes) + rest)))));
            let request = ChannelRequest::parse_type(encode_utf8("pty-req"@), data);
            &&& request is Ok <==> rest.len() == 0 && parse_modes(modes, Map::empty()) is Ok
            &&& request matches Ok(request) ==> request == ChannelRequestTypeView::PtyReq(
                PtyReqView {
                    term,
                    cols,
                    rows,
                    width_px,
                    height_px,
                    terminal_modes: parse_modes(modes, Map::empty())->Ok_0,
                },
            )
        }),
{
    lemma_request_names();
    pty_req_layout(term, cols, rows, width_px, height_px, modes, rest);
}

/// A `shell` request holds nothing.
pub proof fn shell_request(rest: Seq<u8>)
    ensures
        rest.len() == 0 ==> ChannelRequest::parse_type(encode_utf8("shell"@), rest) == Ok::<
            ChannelRequestTypeView,
            ProtoError,
        >(ChannelRequestTypeView::Shell),
        rest.len() > 0 ==> ChannelRequest::parse_type(encode_utf8("shell"@), rest) is Err,
{
    lemma_request_names();
}

/// A request by any other name is known by its name alone, whatever it holds.
pub proof fn other_requests(name: Seq<char>, data: Seq<u8>)
    requires
        name != "pty-req"@,
        name != "env"@,
        name != "shell"@,
        name != "window-change"@,
    ensures
        ChannelRequest::parse_type(encode_utf8(name), data) == Ok::<
            ChannelRequestTypeView,
            ProtoError,
        >(
            if name == "auth-agent-req@openssh.com"@ {
                ChannelRequestTypeView::AuthAgentReq
            } else {
                ChannelRequestTypeView::Unknown(name)
            },
        ),
{
    lemma_request_names();
    encode_utf8_valid_utf8(name);
    encode_utf8_decode_utf8(name);
    encode_utf8_decode_utf8("pty-req"@);
    encode_utf8_decode_utf8("env"@);
    encode_utf8_decode_utf8("shell"@);
    encode_utf8_decode_utf8("window-change"@);
    encode_utf8_decode_utf8("auth-agent-req@openssh.com"@);
}

/// A message that opens a channel: the type of the channel, the client's identifier for it, the
/// size of the client's window and of its packets. Data may follow only for a type that is not
/// known (<https://www.rfc-editor.org/rfc/rfc4254#section-5.1>).
pub proof fn channel_open_layout(
    name: Seq<char>,
    sender_channel: u32,
    initial_window_size: u32,
    maximum_packet_size: u32,
    rest: Seq<u8>,
)
    requires
        encode_utf8(name).len() <= u32::MAX,
    ensures
        ({
            let open = ChannelOpen::parse(
                text_wire(name) + (u32_wire(sender_channel) + (u32_wire(initial_window_size) + (
                u32_wire(maximum_packet_size) + rest))),
            );
            let channel_type = if name == "session"@ {
                ChannelTypeView::Session
            } else {
                ChannelTypeView::Unknown(name)
            };
            &&& open is Err <==> name == "session"@ && rest.len() > 0
            &&& open matches Ok(open) ==> open == (ChannelOpenView {
                channel_type,
                sender_channel,
                initial_window_size,
                maximum_packet_size,
            })
        }),
{
    let next = u32_wire(maximum_packet_size) + rest;
    text_round_trip(
        name,
        u32_wire(sender_channel) + (u32_wire(initial_window_size) + next),
    );
    u32_round_trip(sender_channel, u32_wire(initial_window_size) + next);
    u32_round_trip(initial_window_size, next);
    u32_round_trip(maximum_packet_size, rest);
}

/// A message with data: the channel and the data, and nothing else
/// (<https://www.rfc-editor.org/rfc/rfc4254#section-5.2>).
pub proof fn channel_data_layout(channel: u32, data: Seq<u8>, rest: Seq<u8>)
    requires
        data.len() <= u32::MAX,
    ensures
        ChannelData::parse(u32_wire(channel) + (string_wire(data) + rest)) is Err <==> rest.len()
            > 0,
        rest.len() == 0 ==> ChannelData::parse(u32_wire(channel) + (string_wire(data) + rest))
            == Ok::<ChannelDataView, ProtoError>(
            ChannelDataView { recipient_channel: channel, data },
        ),
        data_wire(ChannelDataView { recipient_channel: channel, data }) == seq![94u8] + u32_wire(
            channel,
        ) + string_wire(data),
{
    u32_round_trip(channel, string_wire(data) + rest);
    string_round_trip(data, rest);
    assert(data_wire(ChannelDataView { recipient_channel: channel, data }) =~= seq![94u8]
        + u32_wire(channel) + string_wire(data));
}

/// A message that extends a window: the channel and the number of bytes, and nothing else
/// (<https://www.rfc-editor.org/rfc/rfc4254#section-5.2>).
pub proof fn window_adjust_layout(channel: u32, bytes: u32, rest: Seq<u8>)
    ensures
        ChannelWindowAdjust::parse(u32_wire(channel) + (u32_wire(bytes) + rest)) is Err
            <==> rest.len() > 0,
        rest.len() == 0 ==> ChannelWindowAdjust::parse(
            u32_wire(channel) + (u32_wire(bytes) + rest),
        ) == Ok::<ChannelWindowAdjust, ProtoError>(
            ChannelWindowAdjust { recipient_channel: channel, bytes_to_add: bytes },
        ),
        adjust_wire(ChannelWindowAdjust { recipient_channel: channel, bytes_to_add: bytes })
            == seq![93u8] + u32_wire(channel) + u32_wire(bytes),
{
    u32_round_trip(channel, u32_wire(bytes) + rest);
    u32_round_trip(bytes, rest);
    assert(adjust_wire(ChannelWindowAdjust { recipient_channel: channel, bytes_to_add: bytes })
        =~= seq![93u8] + u32_wire(channel) + u32_wire(bytes));
}

/// The messages that end a channel hold the channel and nothing else
/// (<https://www.rfc-editor.org/rfc/rfc4254#section-5.3>).
pub proof fn channel_end_layout(channel: u32, rest: Seq<u8>)
    ensures
        ChannelEof::parse(u32_wire(channel) + rest) is Err <==> rest.len() > 0,
        rest.len() == 0 ==> ChannelEof::parse(u32_wire(channel) + rest) == Ok::<
            ChannelEof,
            ProtoError,
        >(ChannelEof { recipient_channel: channel }),
        ChannelClose::parse(u32_wire(channel) + rest) is Err <==> rest.len() > 0,
        rest.len() == 0 ==> ChannelClose::parse(u32_wire(channel) + rest) == Ok::<
            ChannelClose,
            ProtoError,
        >(ChannelClose { recipient_channel: channel }),
        eof_wire(channel) == seq![96u8] + u32_wire(channel),
        close_wire(channel) == seq![97u8] + u32_wire(channel),
{
    u32_round_trip(channel, rest);
}

/// The answers to a request hold the channel
/// (<https://www.rfc-editor.org/rfc/rfc4254#section-5.4>).
pub proof fn channel_reply_layout(channel: u32)
    ensures
        success_wire(channel) == seq![99u8] + u32_wire(channel),
        failure_wire(channel) == seq![100u8] + u32_wire(channel),
{
}

/// The answers to a message that opens a channel: both start with the client's identifier for it.
/// Then comes the server's identifier and the size of its window and packets, or the reason with a
/// description and its language (<https://www.rfc-editor.org/rfc/rfc4254#section-5.1>).
pub proof fn channel_open_reply_layout(
    m: ChannelOpenConfirmation,
    channel: u32,
    reason: ChannelOpenFailureReason,
    description: Seq<char>,
)
    ensures
        confirmation_wire(m) == seq![91u8] + u32_wire(m.recipient_channel) + u32_wire(
            m.sender_channel,
        ) + u32_wire(m.initial_window_size) + u32_wire(m.maximum_packet_size),
        open_failure_wire(channel, reason, description) == seq![92u8] + u32_wire(channel)
            + u32_wire(
            match reason {
                ChannelOpenFailureReason::AdministrativelyProhibited => 1,
                ChannelOpenFailureReason::ConnectFailed => 2,
                ChannelOpenFailureReason::UnknownChannelType => 3,
                ChannelOpenFailureReason::ResourceShortage => 4,
            },
        ) + text_wire(description) + text_wire("en-US"@),
{
}

/// The opcodes of the terminal modes
/// (<https://www.rfc-editor.org/rfc/rfc4254#section-8>, <https://www.rfc-editor.org/rfc/rfc8160>).
pub proof fn mode_opcodes(opcode: u8)
    ensures
        match Mode::spec_from_opcode(opcode) {
            Some(mode) => {
                &&& mode.spec_opcode() == opcode
                &&& mode is VIntr <==> opcode == 1
                &&& mode is VQuit <==> opcode == 2
                &&& mode is VErase <==> opcode == 3
                &&& mode is VKill <==> opcode == 4
                &&& mode is VEof <==> opcode == 5
                &&& mode is VEol <==> opcode == 6
                &&& mode is VEol2 <==> opcode == 7
                &&& mode is VStart <==> opcode == 8
                &&& mode is VStop <==> opcode == 9
                &&& mode is VSusp <==> opcode == 10
                &&& mode is VDSusp <==> opcode == 11
                &&& mode is VReprint <==> opcode == 12
                &&& mode is VWErase <==> opcode == 13
                &&& mode is VLNext <==> opcode == 14
                &&& mode is VFlush <==> opcode == 15
                &&& mode is VSwtch <==> opcode == 16
                &&& mode is VStatus <==> opcode == 17
                &&& mode is VDiscard <==> opcode == 18
                &&& mode is IgnPar <==> opcode == 30
                &&& mode is ParMrk <==> opcode == 31
                &&& mode is INPck <==> opcode == 32
                &&& mode is IStrip <==> opcode == 33
                &&& mode is INlCr <==> opcode == 34
                &&& mode is IgnCr <==> opcode == 35
                &&& mode is ICrNl <==> opcode == 36
                &&& mode is IUcLc <==> opcode == 37
                &&& mode is IxOn <==> opcode == 38
                &&& mode is IxAny <==> opcode == 39
                &&& mode is IxOff <==> opcode == 40
                &&& mode is IMaxBel <==> opcode == 41
                &&& mode is IUtf8 <==> opcode == 42
                &&& mode is ISig <==> opcode == 50
                &&& mode is ICanon <==> opcode == 51
                &&& mode is XCase <==> opcode == 52
                &&& mode is Echo <==> opcode == 53
                &&& mode is EchoE <==> opcode == 54
                &&& mode is EchoK <==> opcode == 55
                &&& mode is EchoNl <==> opcode == 56
                &&& mode is NoFlsh <==> opcode == 57
                &&& mode is TOStop <==> opcode == 58
                &&& mode is IExten <==> opcode == 59
                &&& mode is EchoCtl <==> opcode == 60
                &&& mode is EchoKe <==> opcode == 61
                &&& mode is Pendin <==> opcode == 62
                &&& mode is OPost <==> opcode == 70
                &&& mode is OLcUc <==> opcode == 71
                &&& mode is ONlCr <==> opcode == 72
                &&& mode is OCrNl <==> opcode == 73
                &&& mode is ONoCr <==> opcode == 74
                &&& mode is ONlRet <==> opcode == 75
                &&& mode is Cs7 <==> opcode == 90
                &&& mode is Cs8 <==> opcode == 91
                &&& mode is ParenB <==> opcode == 92
                &&& mode is ParOdd <==> opcode == 93
                &&& mode is TtyOpISpeed <==> opcode == 128
                &&& mode is TtyOpOSpeed <==> opcode == 129
            },
            None => {
                ||| opcode == 0
                ||| 18 < opcode < 30
                ||| 42 < opcode < 50
                ||| 62 < opcode < 70
                ||| 75 < opcode < 90
                ||| 93 < opcode < 128
                ||| 129 < opcode
            },
        },
{
}

} // verus!
