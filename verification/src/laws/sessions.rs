//! Running sessions, and handing them over.

use vstd::prelude::*;
use vstd::utf8::encode_utf8;

use crate::channels::{ChannelRequestTypeView, Mode};
use crate::error::ProtoError;
use crate::io::{ReadState, WriteState};
use crate::key_exchange::KeyExchangeOutput;
use crate::laws::encoding::boolean_layout;
use crate::packet::{Disconnect, GlobalRequest, GlobalRequestView, Ignore, MessageType};
use crate::packet::{disconnect_reason_round_trip, DisconnectReason};
use crate::session::banner::{banner_text, banner_width, openssh_version, request_banner};
use crate::session::dispatch::{dispatched, SessionEventView};
use crate::session::state::{handed_over, parse_side};
use crate::session::terminal::{actions_for, shell_env, spec_mode_action, ModeAction};
use crate::wire::{string_round_trip, string_wire, text_round_trip, text_wire, u32_round_trip};
use crate::wire::{u32_wire, u64_round_trip, u64_wire, Encode};

verus! {

/// A message that ends the connection: the reason, a description and its language, and nothing
/// else (<https://www.rfc-editor.org/rfc/rfc4253#section-11.1>).
pub proof fn disconnect_layout(
    reason: DisconnectReason,
    description: Seq<char>,
    language: Seq<u8>,
    rest: Seq<u8>,
)
    requires
        encode_utf8(description).len() <= u32::MAX,
        language.len() <= u32::MAX,
    ensures
        ({
            let message = Disconnect::parse(
                u32_wire(reason.spec_code()) + (text_wire(description) + (string_wire(language)
                    + rest)),
            );
            &&& message is Err <==> rest.len() > 0
            &&& message matches Ok(said) ==> said.reason_code == reason && said.description
                == description
        }),
{
    disconnect_reason_round_trip(reason);
    u32_round_trip(
        reason.spec_code(),
        text_wire(description) + (string_wire(language) + rest),
    );
    text_round_trip(description, string_wire(language) + rest);
    string_round_trip(language, rest);
}

/// What the server sends of the same messages.
pub proof fn transport_message_wire(disconnect: Disconnect<'_>, ignore: Ignore<'_>)
    ensures
        disconnect.wire() == seq![1u8] + u32_wire(disconnect.reason_code.spec_code()) + text_wire(
            disconnect.description@,
        ) + text_wire("en-US"@),
        ignore.wire() == seq![2u8] + string_wire(ignore.0@),
{
}

/// A global request: its name and whether a reply is wanted; what follows is left alone
/// (<https://www.rfc-editor.org/rfc/rfc4254#section-4>).
pub proof fn global_request_layout(name: Seq<u8>, want_reply: u8, rest: Seq<u8>)
    requires
        name.len() <= u32::MAX,
    ensures
        GlobalRequest::parse(string_wire(name) + (seq![want_reply] + rest)) == Ok::<
            GlobalRequestView,
            ProtoError,
        >((GlobalRequestView { name, want_reply: want_reply != 0 })),
{
    string_round_trip(name, seq![want_reply] + rest);
    boolean_layout(true, want_reply, rest);
}

/// A global request is refused where the client wants a reply, and passed over otherwise, whatever
/// it is for.
pub proof fn global_requests_are_refused(name: Seq<u8>, want_reply: u8, rest: Seq<u8>)
    requires
        name.len() <= u32::MAX,
    ensures
        ({
            let event = dispatched(
                MessageType::GlobalRequest,
                string_wire(name) + (seq![want_reply] + rest),
            );
            &&& want_reply != 0 ==> event == Some(
                Ok::<SessionEventView, ProtoError>(SessionEventView::RefuseRequest),
            )
            &&& want_reply == 0 ==> event == Some(
                Ok::<SessionEventView, ProtoError>(SessionEventView::Ignored),
            )
        }),
{
    global_request_layout(name, want_reply, rest);
}

/// Which packets lead to what: those to be ignored are, whatever they hold; the client can start a
/// key exchange at any time; only messages for channels reach the channels; and the rest is not
/// expected.
pub proof fn packets_are_dispatched(message_type: MessageType, payload: Seq<u8>)
    ensures
        message_type is Ignore || message_type is Debug || message_type is RequestSuccess
            || message_type is RequestFailure ==> dispatched(message_type, payload) == Some(
            Ok::<SessionEventView, ProtoError>(SessionEventView::Ignored),
        ),
        message_type is Disconnect ==> dispatched(message_type, payload) == Some(
            Ok::<SessionEventView, ProtoError>(
                SessionEventView::Disconnected(Disconnect::parse(payload)),
            ),
        ),
        message_type is KeyExchangeInit ==> dispatched(message_type, payload) == Some(
            Ok::<SessionEventView, ProtoError>(SessionEventView::Rekey(message_type, payload)),
        ),
        dispatched(message_type, payload) matches Some(Ok(SessionEventView::Disconnected(_)))
            ==> message_type is Disconnect,
        dispatched(message_type, payload) matches Some(Ok(SessionEventView::Rekey(t, p))) ==> t
            == message_type && p == payload && message_type is KeyExchangeInit,
        dispatched(message_type, payload) matches Some(Ok(SessionEventView::Channel(_)))
            ==> message_type is ChannelOpen || message_type is ChannelRequest
            || message_type is ChannelData || message_type is ChannelWindowAdjust
            || message_type is ChannelEof || message_type is ChannelClose,
        message_type is ServiceRequest || message_type is UserAuthRequest
            || message_type is KeyExchangeEcdhInit || message_type is NewKeys
            || message_type is Unknown ==> dispatched(message_type, payload) is None,
{
}

/// The state of a direction: the name of the algorithm, the key, the initialisation vector, the
/// counter and the sequence number. The key and the vector must be as long as the algorithm needs.
pub proof fn side_layout(key: Seq<u8>, iv: Seq<u8>, counter: u64, number: u32, rest: Seq<u8>)
    requires
        key.len() <= u32::MAX,
        iv.len() <= u32::MAX,
    ensures
        ({
            let side = parse_side(
                text_wire("aes128-gcm@openssh.com"@) + (string_wire(key) + (string_wire(iv) + (
                u64_wire(counter) + (u32_wire(number) + rest)))),
            );
            &&& side is Ok <==> key.len() == 16 && iv.len() == 12
            &&& side matches Ok((side, next)) ==> {
                &&& side.algorithm is Aes128Gcm
                &&& side.encryption_key == key
                &&& side.initial_iv == iv
                &&& side.counter == counter
                &&& side.sequence_number == number
                &&& next == rest
            }
        }),
{
    reveal_strlit("aes128-gcm@openssh.com");
    vstd::utf8::is_ascii_chars_encode_utf8("aes128-gcm@openssh.com"@);
    let tail = u64_wire(counter) + (u32_wire(number) + rest);
    text_round_trip(
        "aes128-gcm@openssh.com"@,
        string_wire(key) + (string_wire(iv) + tail),
    );
    string_round_trip(key, string_wire(iv) + tail);
    string_round_trip(iv, tail);
    u64_round_trip(counter, u32_wire(number) + rest);
    u32_round_trip(number, rest);
}

/// What is handed over: for packets from the client the keys and the numbers of that direction, for
/// packets to the client those of the other, and all that has arrived and was not read.
pub proof fn sides_are_kept_apart(
    addr: Seq<char>,
    kx: KeyExchangeOutput<'_>,
    read: ReadState,
    write: WriteState,
)
    ensures
        ({
            let state = handed_over(addr, kx, read, write);
            &&& state.addr == addr
            &&& state.identities == kx.identities@
            &&& state.session_id == kx.session_id@
            &&& state.post_quantum_kx == kx.post_quantum_kx
            &&& state.strict_kx <==> kx.strict_kx is Some
            &&& state.read.encryption_key == kx.keys.client_to_server.encryption_key@
            &&& state.read.initial_iv == kx.keys.client_to_server.initial_iv@
            &&& state.read.algorithm == kx.keys.client_to_server.algorithm@
            &&& state.read.sequence_number == read.sequence_number
            &&& read.opener matches Some(opener) ==> state.read.counter == opener.0.spec_counter()
            &&& state.write.encryption_key == kx.keys.server_to_client.encryption_key@
            &&& state.write.initial_iv == kx.keys.server_to_client.initial_iv@
            &&& state.write.algorithm == kx.keys.server_to_client.algorithm@
            &&& state.write.sequence_number == write.sequence_number
            &&& write.sealer matches Some(sealer) ==> state.write.counter
                == sealer.0.spec_counter()
            &&& state.read_buf == read.arrived()
        }),
{
}

/// The shell has all the variables that the client has set, in order, and the type of its terminal
/// last, where it has one.
pub proof fn shells_have_the_variables(term: Seq<char>, env: Seq<(Seq<char>, Seq<char>)>)
    ensures
        shell_env(term, env).take(env.len() as int) =~= env,
        term.len() == 0 ==> shell_env(term, env).len() == env.len(),
        term.len() > 0 ==> shell_env(term, env).len() == env.len() + 1 && shell_env(
            term,
            env,
        ).last() == (seq!['T', 'E', 'R', 'M'], term),
{
    reveal_strlit("TERM");
    assert("TERM"@ =~= seq!['T', 'E', 'R', 'M']);
}

/// The banner is as wide as the terminal, at least 40 columns, and 80 where the width is not known.
pub proof fn banner_is_as_wide(cols: u32)
    ensures
        cols == 0 ==> banner_width(cols) == 80,
        cols >= 40 ==> banner_width(cols) == cols,
        0 < cols < 40 ==> banner_width(cols) == 40,
{
}

/// The banner goes to clients without post-quantum key exchange that ask for a terminal, and to no
/// others. Clients of OpenSSH before 9.9 are told more than others are, after the same warning.
pub proof fn banner_is_for_old_clients(
    request: ChannelRequestTypeView,
    identity: Seq<u8>,
    other: Seq<u8>,
    post_quantum_kx: bool,
    cols: u32,
)
    requires
        openssh_version(other) is None,
    ensures
        request_banner(request, identity, post_quantum_kx) is Some <==> request is PtyReq
            && !post_quantum_kx,
        banner_text(cols, other).len() <= banner_text(cols, identity).len(),
        banner_text(cols, identity).take(banner_text(cols, other).len() as int) == banner_text(
            cols,
            other,
        ),
        banner_text(cols, identity) != banner_text(cols, other) <==> (openssh_version(
            identity,
        ) matches Some((major, minor)) && 1000 * major + minor < 9009),
{
    reveal_strlit("\r\n");
    let (a, b) = (banner_text(cols, identity), banner_text(cols, other));
    assert(a.take(b.len() as int) =~= b);
    if let Some((major, minor)) = openssh_version(identity) {
        if major < 9 || (major == 9 && minor < 9) {
            assert(a.len() > b.len());
        }
    }
}

/// What a mode does follows its argument: a character is its lower eight bits, a flag is set unless
/// it is zero, and a speed is the whole of it.
pub proof fn modes_follow_their_arguments(mode: Mode, value: u32, other: u32)
    ensures
        match (spec_mode_action(mode, value), spec_mode_action(mode, other)) {
            (ModeAction::SetCode(a, x), ModeAction::SetCode(b, y)) => {
                &&& 1 <= mode.spec_opcode() <= 18
                &&& a == b
                &&& x == value % 256 && y == other % 256
            },
            (ModeAction::SetFlag(a, x), ModeAction::SetFlag(b, y)) => {
                &&& 30 <= mode.spec_opcode() <= 93
                &&& a == b
                &&& (x <==> value != 0) && (y <==> other != 0)
            },
            (ModeAction::SevenBits, ModeAction::SevenBits) => mode.spec_opcode() == 90,
            (ModeAction::EightBits, ModeAction::EightBits) => mode.spec_opcode() == 91,
            (ModeAction::InputSpeed(x), ModeAction::InputSpeed(y)) => mode.spec_opcode() == 128
                && x == value && y == other,
            (ModeAction::OutputSpeed(x), ModeAction::OutputSpeed(y)) => mode.spec_opcode() == 129
                && x == value && y == other,
            _ => false,
        },
{
}

/// No two modes do the same, but for the two that are for discarding output.
pub proof fn modes_differ(mode: Mode, other: Mode, value: u32)
    requires
        mode != other,
    ensures
        spec_mode_action(mode, value) == spec_mode_action(other, value) ==> {
            ||| mode is VFlush && other is VDiscard
            ||| mode is VDiscard && other is VFlush
        },
{
}

/// Every mode that is known is applied, in order, and no other.
pub proof fn every_mode_counts(entries: Seq<(u8, u32)>, n: int)
    requires
        0 <= n < entries.len(),
    ensures
        ({
            let (before, after) = (actions_for(entries, n), actions_for(entries, n + 1));
            &&& after.take(before.len() as int) =~= before
            &&& match Mode::spec_from_opcode(entries[n].0) {
                Some(mode) => after.len() == before.len() + 1 && after.last() == spec_mode_action(
                    mode,
                    entries[n].1,
                ),
                None => after.len() == before.len(),
            }
        }),
{
}

} // verus!
