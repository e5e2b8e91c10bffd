//! Channels, their windows and terminals.

use vstd::prelude::*;

use vstd::utf8::encode_utf8;

use crate::channels::{ChannelClose, ChannelDataView, ChannelEof, ChannelOpenView};
use crate::channels::{ChannelRequestTypeView, ChannelRequestView, ChannelWindowAdjust, EnvView};
use crate::channels::{PtyReqView, WindowChange};
use crate::error::ProtoError;
use crate::io::{all_enqueued, enqueued, WriteState};
use crate::laws::channel_messages::{channel_data_layout, window_adjust_layout};
use crate::session::connections::{adjusted, answered, closed, ended, exhausted, handled};
use crate::session::connections::{opened, polled};
use crate::session::connections::{received, relayed, started, ChannelsView, OutgoingView};
use crate::session::connections::{RequestActionView, TerminalStateView, TerminalStep};
use crate::wire::{text_wire, u32_wire};

verus! {

/// Of a running terminal as much is read as the client's window and its packets take, and at most
/// 4096 bytes. Nothing is read only where they take nothing.
pub proof fn terminals_are_read(channels: ChannelsView, id: u32)
    requires
        channels.channels.contains_key(id),
        channels.channels[id].terminal == Some(TerminalStateView::Running),
    ensures
        polled(channels, id).0 == channels,
        match polled(channels, id).1 {
            TerminalStep::Read(n) => {
                &&& 0 < n <= 4096
                &&& n <= channels.channels[id].send_window
                &&& n <= channels.channels[id].maximum_packet_size
                &&& n == 4096 || n == channels.channels[id].send_window || n
                    == channels.channels[id].maximum_packet_size
            },
            TerminalStep::Skip => channels.channels[id].send_window == 0
                || channels.channels[id].maximum_packet_size == 0,
            TerminalStep::Close(_) => false,
        },
{
}

/// A window adjust extends the window of its channel by as many bytes as it says, as far as a
/// window can be extended, and changes nothing else. For a channel that is not open it fails.
pub proof fn windows_are_extended(channels: ChannelsView, adjust: ChannelWindowAdjust)
    ensures
        adjusted(channels, adjust) is Ok <==> channels.channels.contains_key(
            adjust.recipient_channel,
        ),
        adjusted(channels, adjust) matches Ok(after) ==> {
            let before_window = channels.channels[adjust.recipient_channel].send_window;
            let after_window = after.channels[adjust.recipient_channel].send_window;
            &&& after.next_id == channels.next_id
            &&& after.channels.dom() =~= channels.channels.dom()
            &&& before_window + adjust.bytes_to_add <= u32::MAX ==> after_window == before_window
                + adjust.bytes_to_add
            &&& before_window + adjust.bytes_to_add > u32::MAX ==> after_window == u32::MAX
            &&& after_window >= before_window
            &&& forall|id: u32|
                channels.channels.contains_key(id) ==> {
                    let (b, a) = (channels.channels[id], #[trigger] after.channels[id]);
                    &&& id != adjust.recipient_channel ==> a == b
                    &&& a.remote_id == b.remote_id
                    &&& a.receive_window == b.receive_window
                    &&& a.maximum_packet_size == b.maximum_packet_size
                    &&& a.env == b.env
                    &&& a.terminal == b.terminal
                    &&& a.closed == b.closed
                }
        },
{
}

/// Two window adjusts for a channel come to the same as one by as many bytes.
pub proof fn adjusts_add_up(channels: ChannelsView, id: u32, a: u32, b: u32)
    requires
        channels.channels.contains_key(id),
        a + b <= u32::MAX,
    ensures
        ({
            let first = adjusted(
                channels,
                ChannelWindowAdjust { recipient_channel: id, bytes_to_add: a },
            );
            let both = adjusted(
                channels,
                ChannelWindowAdjust { recipient_channel: id, bytes_to_add: (a + b) as u32 },
            );
            &&& first is Ok && both is Ok
            &&& adjusted(
                first->Ok_0,
                ChannelWindowAdjust { recipient_channel: id, bytes_to_add: b },
            ) == both
        }),
{
    let first = adjusted(
        channels,
        ChannelWindowAdjust { recipient_channel: id, bytes_to_add: a },
    )->Ok_0;
    let second = adjusted(
        first,
        ChannelWindowAdjust { recipient_channel: id, bytes_to_add: b },
    )->Ok_0;
    let both = adjusted(
        channels,
        ChannelWindowAdjust { recipient_channel: id, bytes_to_add: (a + b) as u32 },
    )->Ok_0;
    assert(second.channels =~= both.channels);
}


/// A terminal that has ended closes its channel, once, and the channel is gone where the client
/// had closed it. For a channel without a terminal there is nothing to do.
pub proof fn other_terminals_are_not_read(channels: ChannelsView, id: u32)
    requires
        channels.channels.contains_key(id) ==> channels.channels[id].terminal != Some(
            TerminalStateView::Running,
        ),
    ensures
        !(polled(channels, id).1 is Read),
        polled(channels, id).1 is Close <==> channels.channels.contains_key(id)
            && channels.channels[id].terminal == Some(TerminalStateView::Closing)
            && !channels.channels[id].closed.sent,
        polled(channels, id).1 matches TerminalStep::Close(close) ==> close.recipient_channel
            == channels.channels[id].remote_id,
        polled(channels, id).1 is Skip ==> polled(channels, id).0 == channels,
        polled(channels, id).0.next_id == channels.next_id,
        forall|other: u32|
            other != id ==> {
                &&& polled(channels, id).0.channels.contains_key(other)
                    <==> channels.channels.contains_key(other)
                &&& channels.channels.contains_key(other)
                    ==> #[trigger] polled(channels, id).0.channels[other]
                    == channels.channels[other]
            },
{
}

/// What is sent to the client takes as much off its window, and arrives at its identifier for the
/// channel. A window adjust by as much makes up for it.
pub proof fn output_uses_the_window(channels: ChannelsView, id: u32, data: Seq<u8>)
    requires
        channels.channels.contains_key(id),
        data.len() <= channels.channels[id].send_window,
    ensures
        relayed(channels, id, data).0.channels[id].send_window + data.len()
            == channels.channels[id].send_window,
        relayed(channels, id, data).1 matches OutgoingView::Data(message)
            && message.recipient_channel == channels.channels[id].remote_id && message.data == data,
        adjusted(
            relayed(channels, id, data).0,
            ChannelWindowAdjust { recipient_channel: id, bytes_to_add: data.len() as u32 },
        ) matches Ok(after) && after =~= channels,
{
}

/// What was read of a terminal can be sent: after the output that a step of a terminal allows, the
/// window has room for what the limit leaves.
pub proof fn reads_then_sends(channels: ChannelsView, id: u32, data: Seq<u8>, limit: usize)
    requires
        polled(channels, id).1 == TerminalStep::Read(limit),
        data.len() <= limit,
    ensures
        relayed(channels, id, data).0.channels[id].send_window == channels.channels[id].send_window
            - data.len(),
        data.len() <= channels.channels[id].maximum_packet_size,
{
}

/// After a terminal has ended its channel is closed, and no more data is read or handed to it.
pub proof fn ended_terminals_are_closed(channels: ChannelsView, id: u32)
    requires
        channels.channels.contains_key(id),
        !channels.channels[id].closed.sent,
    ensures
        exhausted(channels, id).1 == OutgoingView::Eof(channels.channels[id].remote_id),
        polled(exhausted(channels, id).0, id).1 == TerminalStep::Close(
            ChannelClose { recipient_channel: channels.channels[id].remote_id },
        ),
        exhausted(channels, id).0.next_id == channels.next_id,
        exhausted(channels, id).0.channels.dom() =~= channels.channels.dom(),
        exhausted(channels, id).0.channels[id].send_window == channels.channels[id].send_window,
        exhausted(channels, id).0.channels[id].receive_window
            == channels.channels[id].receive_window,
        exhausted(channels, id).0.channels[id].closed == channels.channels[id].closed,
        forall|other: u32|
            other != id ==> #[trigger] exhausted(channels, id).0.channels[other]
                == channels.channels[other],
{
}

/// A session channel is opened under the next identifier, unless that is in use, and the client is
/// told so under its own identifier. The client's window and packets are as large as it said; it
/// may send nothing before its window is extended. Every channel that is asked for takes an
/// identifier; they go round after the last.
pub proof fn sessions_are_opened(channels: ChannelsView, open: ChannelOpenView)
    requires
        open.channel_type is Session,
    ensures
        ({
            let (after, answer) = opened(channels, open);
            let id = channels.next_id;
            &&& after.next_id == (id + 1) % 0x1_0000_0000
            &&& channels.channels.contains_key(id) ==> {
                &&& after.channels == channels.channels
                &&& answer == seq![92u8] + u32_wire(open.sender_channel) + u32_wire(1)
                    + text_wire("channel ID already in use"@) + text_wire("en-US"@)
            }
            &&& !channels.channels.contains_key(id) ==> {
                &&& after.channels.dom() =~= channels.channels.dom().insert(id)
                &&& after.channels[id].remote_id == open.sender_channel
                &&& after.channels[id].send_window == open.initial_window_size
                &&& after.channels[id].maximum_packet_size == open.maximum_packet_size
                &&& after.channels[id].receive_window == 0
                &&& after.channels[id].env.len() == 0
                &&& after.channels[id].terminal is None
                &&& !after.channels[id].closed.sent && !after.channels[id].closed.received
                &&& answer == seq![91u8] + u32_wire(open.sender_channel) + u32_wire(id) + u32_wire(
                    0,
                ) + u32_wire(65472)
            }
        }),
{
}

/// A channel of any other type is refused, and changes nothing.
pub proof fn other_channels_are_refused(channels: ChannelsView, open: ChannelOpenView)
    requires
        !(open.channel_type is Session),
    ensures
        opened(channels, open).0 == channels,
        opened(channels, open).1 == seq![92u8] + u32_wire(open.sender_channel) + u32_wire(3)
            + text_wire("only 'session' channel type is supported"@) + text_wire("en-US"@),
{
}

/// Data for a channel uses up the client's window: what is left after it is what there was, less
/// the data, plus what the client is granted. It is granted as much as makes the window as large as
/// it can be where less than half of that is left, and nothing otherwise. The data goes to the
/// terminal of the channel, all of it, where one is running.
pub proof fn windows_are_kept(
    before: ChannelsView,
    after: ChannelsView,
    data: ChannelDataView,
    write_before: WriteState,
    write_after: WriteState,
    taken: Option<Seq<u8>>,
)
    requires
        data.data.len() <= u32::MAX,
        received(before, after, data, write_before, write_after, Ok(taken)),
    ensures
        ({
            let id = data.recipient_channel;
            let left = before.channels[id].receive_window - data.data.len();
            let granted = after.channels[id].receive_window - left;
            &&& before.channels.contains_key(id)
            &&& after.channels.dom() =~= before.channels.dom()
            &&& left >= 0
            &&& left >= 524288 ==> granted == 0
            &&& left < 524288 ==> after.channels[id].receive_window == 1048576
            &&& granted == 0 ==> write_after == write_before
            &&& granted > 0 ==> enqueued(
                write_before,
                write_after,
                seq![93u8] + u32_wire(before.channels[id].remote_id) + u32_wire(granted as u32),
                Ok(()),
            )
            &&& taken == if before.channels[id].terminal == Some(TerminalStateView::Running) {
                Some(data.data)
            } else {
                None
            }
            &&& after.next_id == before.next_id
            &&& forall|other: u32|
                before.channels.contains_key(other) ==> {
                    let (b, a) = (before.channels[other], #[trigger] after.channels[other]);
                    &&& other != id ==> a == b
                    &&& a.remote_id == b.remote_id
                    &&& a.send_window == b.send_window
                    &&& a.maximum_packet_size == b.maximum_packet_size
                    &&& a.env == b.env
                    &&& a.terminal == b.terminal
                    &&& a.closed == b.closed
                }
        }),
{
    let id = data.recipient_channel;
    let left = before.channels[id].receive_window - data.data.len();
    if 0 <= left < 524288 {
        window_adjust_layout(
            before.channels[id].remote_id,
            (1048576 - left) as u32,
            Seq::empty(),
        );
    }
}

/// Data is refused for a channel that is not open, and where there is more of it than the window
/// allows; then nothing changes. All other data is taken, unless the window cannot be extended.
pub proof fn data_within_the_window_is_taken(
    before: ChannelsView,
    after: ChannelsView,
    data: ChannelDataView,
    write_before: WriteState,
    write_after: WriteState,
    r: Result<Option<Seq<u8>>, ProtoError>,
)
    requires
        data.data.len() <= u32::MAX,
        received(before, after, data, write_before, write_after, r),
    ensures
        !before.channels.contains_key(data.recipient_channel)
            || before.channels[data.recipient_channel].receive_window < data.data.len() ==> {
            &&& r is Err
            &&& after == before
            &&& write_after == write_before
        },
        before.channels.contains_key(data.recipient_channel)
            && before.channels[data.recipient_channel].receive_window - data.data.len()
            >= 524288 ==> r is Ok,
{
}

/// A channel that both sides have closed is gone. One that the client closes first is answered
/// with the same message, and is there until its terminal has ended.
pub proof fn closing_is_answered(
    before: ChannelsView,
    after: ChannelsView,
    close: ChannelClose,
    write_before: WriteState,
    write_after: WriteState,
    r: Result<(), ProtoError>,
)
    requires
        closed(before, after, close, write_before, write_after, r),
    ensures
        ({
            let id = close.recipient_channel;
            &&& after.next_id == before.next_id
            &&& !before.channels.contains_key(id) ==> r is Ok && after == before && write_after
                == write_before
            &&& before.channels.contains_key(id) && before.channels[id].closed.sent ==> r is Ok
                && after.channels.dom() =~= before.channels.dom().remove(id) && write_after
                == write_before
            &&& before.channels.contains_key(id) && !before.channels[id].closed.sent ==> {
                &&& after.channels.dom() =~= before.channels.dom()
                &&& after.channels[id].closed.received && !after.channels[id].closed.sent
                &&& after.channels[id].terminal == before.channels[id].terminal
                &&& enqueued(
                    write_before,
                    write_after,
                    seq![97u8] + u32_wire(before.channels[id].remote_id),
                    r,
                )
            }
            &&& forall|other: u32|
                other != id && before.channels.contains_key(other)
                    ==> #[trigger] after.channels[other] == before.channels[other]
        }),
{
}

/// A client can say of an open channel, and of no other, that it will send no more data.
pub proof fn eof_is_for_open_channels(channels: ChannelsView, eof: ChannelEof)
    ensures
        ended(channels, eof) is Ok <==> channels.channels.contains_key(eof.recipient_channel),
{
}

/// A client may set the time zone and the locale, and nothing else, and at most 32 variables. Those
/// that it sets are kept in order. A reply, where the client wants one, says whether the variable
/// was set.
pub proof fn env_requests(
    before: ChannelsView,
    after: ChannelsView,
    request: ChannelRequestView,
    env: EnvView,
    write_before: WriteState,
    write_after: WriteState,
    action: RequestActionView,
)
    requires
        request.request_type == ChannelRequestTypeView::Env(env),
        handled(before, after, request, None, write_before, write_after, Ok(action)),
    ensures
        ({
            let id = request.recipient_channel;
            let channel = before.channels[id];
            let allowed = {
                ||| env.name == seq!['T', 'Z']
                ||| env.name == seq!['L', 'A', 'N', 'G']
                ||| env.name.len() >= 3 && env.name[0] == 'L' && env.name[1] == 'C' && env.name[2]
                    == '_'
            };
            let reply = seq![if allowed && channel.env.len() < 32 { 99u8 } else { 100u8 }]
                + u32_wire(channel.remote_id);
            &&& before.channels.contains_key(id)
            &&& action is Done
            &&& allowed && channel.env.len() < 32 ==> after.channels[id].env == channel.env.push(
                (env.name, env.value),
            )
            &&& !(allowed && channel.env.len() < 32) ==> after.channels[id].env == channel.env
            &&& after.channels[id].terminal == channel.terminal
            &&& after.channels[id].send_window == channel.send_window
            &&& after.channels[id].receive_window == channel.receive_window
            &&& all_enqueued(
                write_before,
                write_after,
                if request.want_reply {
                    seq![reply]
                } else {
                    Seq::empty()
                },
                Ok(()),
            )
        }),
{
    reveal_strlit("TZ");
    reveal_strlit("LANG");
    reveal_strlit("LC_");
    assert("TZ"@ =~= seq!['T', 'Z']);
    assert("LANG"@ =~= seq!['L', 'A', 'N', 'G']);
    assert("LC_"@ =~= seq!['L', 'C', '_']);
    if env.name.len() >= 3 {
        let start = env.name.take(3);
        assert(start[0] == env.name[0] && start[1] == env.name[1] && start[2] == env.name[2]);
        if env.name[0] == 'L' && env.name[1] == 'C' && env.name[2] == '_' {
            assert(start =~= "LC_"@);
        }
    }
    lemma_reply(before.channels[request.recipient_channel].remote_id, request.want_reply);
}

proof fn lemma_reply(channel: u32, want_reply: bool)
    ensures
        Seq::<Seq<u8>>::empty() + seq![seq![99u8] + u32_wire(channel)] + Seq::<Seq<u8>>::empty()
            == seq![seq![99u8] + u32_wire(channel)],
        Seq::<Seq<u8>>::empty() + Seq::<Seq<u8>>::empty() + Seq::<Seq<u8>>::empty() == Seq::<
            Seq<u8>,
        >::empty(),
{
    assert(Seq::<Seq<u8>>::empty() + seq![seq![99u8] + u32_wire(channel)] + Seq::<Seq<u8>>::empty()
        =~= seq![seq![99u8] + u32_wire(channel)]);
    assert(Seq::<Seq<u8>>::empty() + Seq::<Seq<u8>>::empty() + Seq::<Seq<u8>>::empty() =~= Seq::<
        Seq<u8>,
    >::empty());
}


/// A request that was accepted is answered with a success message, where the client wants a reply,
/// and then with the banner, where there is one and it fits the client's window, of which it uses
/// up as much.
pub proof fn accepted_requests_are_answered(
    before: ChannelsView,
    after: ChannelsView,
    id: u32,
    want_reply: bool,
    banner: Option<Seq<char>>,
    write_before: WriteState,
    write_after: WriteState,
    sent: Seq<Seq<u8>>,
)
    requires
        before.channels.contains_key(id),
        banner matches Some(text) ==> encode_utf8(text).len() <= u32::MAX,
        answered(
            before,
            after,
            id,
            want_reply,
            banner,
            write_before,
            write_after,
            sent,
            Ok(()),
        ),
    ensures
        ({
            let (b, a) = (before.channels[id], after.channels[id]);
            let reply = if want_reply {
                seq![seq![99u8] + u32_wire(b.remote_id)]
            } else {
                Seq::empty()
            };
            let fits = banner matches Some(text) && encode_utf8(text).len() <= b.send_window;
            let data = if fits {
                seq![seq![94u8] + u32_wire(b.remote_id) + text_wire(banner->Some_0)]
            } else {
                Seq::empty()
            };
            &&& after.next_id == before.next_id
            &&& after.channels.dom() =~= before.channels.dom()
            &&& fits ==> a.send_window + encode_utf8(banner->Some_0).len() == b.send_window
            &&& !fits ==> a.send_window == b.send_window
            &&& all_enqueued(write_before, write_after, sent + reply + data, Ok(()))
            &&& a.remote_id == b.remote_id
            &&& a.receive_window == b.receive_window
            &&& a.maximum_packet_size == b.maximum_packet_size
            &&& a.env == b.env
            &&& a.terminal == b.terminal
            &&& a.closed == b.closed
            &&& forall|other: u32|
                other != id ==> #[trigger] after.channels[other] == before.channels[other]
        }),
{
    if let Some(text) = banner {
        channel_data_layout(before.channels[id].remote_id, encode_utf8(text), Seq::empty());
    }
}

/// A terminal that a client asks for is there for the next request for a shell: what the client
/// said of it last counts. The request is always accepted.
pub proof fn terminals_are_requested(
    before: ChannelsView,
    after: ChannelsView,
    request: ChannelRequestView,
    pty_req: PtyReqView,
    write_before: WriteState,
    write_after: WriteState,
    action: RequestActionView,
)
    requires
        request.request_type == ChannelRequestTypeView::PtyReq(pty_req),
        handled(before, after, request, None, write_before, write_after, Ok(action)),
    ensures
        ({
            let id = request.recipient_channel;
            &&& before.channels.contains_key(id)
            &&& action is Done
            &&& after.channels[id].terminal == Some(TerminalStateView::Requested(pty_req))
            &&& after.channels[id].env == before.channels[id].env
            &&& all_enqueued(
                write_before,
                write_after,
                if request.want_reply {
                    seq![seq![99u8] + u32_wire(before.channels[id].remote_id)]
                } else {
                    Seq::empty()
                },
                Ok(()),
            )
        }),
{
    lemma_reply(before.channels[request.recipient_channel].remote_id, request.want_reply);
}

/// A shell is started in the terminal that the client has asked for, with the variables that it has
/// set. Nothing is sent before it was started. Without a terminal there is no shell, and no second
/// one while one is running.
pub proof fn shells_need_terminals(
    before: ChannelsView,
    after: ChannelsView,
    request: ChannelRequestView,
    banner: Option<Seq<char>>,
    write_before: WriteState,
    write_after: WriteState,
    r: Result<RequestActionView, ProtoError>,
)
    requires
        request.request_type is Shell,
        before.channels.contains_key(request.recipient_channel),
        handled(before, after, request, banner, write_before, write_after, r),
    ensures
        ({
            let id = request.recipient_channel;
            let terminal = before.channels[id].terminal;
            &&& write_after == write_before
            &&& r is Ok <==> terminal is Some && terminal->Some_0 is Requested
            &&& r is Ok ==> r->Ok_0 is Spawn
            &&& r matches Ok(RequestActionView::Spawn(pty_req, env)) ==> terminal == Some(
                TerminalStateView::Requested(pty_req),
            ) && env == before.channels[id].env
            &&& after.channels[id].terminal is None
            &&& after.channels[id].env == before.channels[id].env
        }),
{
}

/// The size of a running terminal is changed to what the client says; then the request is answered.
/// Without a running terminal it is accepted and changes nothing.
pub proof fn running_terminals_are_resized(
    before: ChannelsView,
    after: ChannelsView,
    request: ChannelRequestView,
    window_change: WindowChange,
    write_before: WriteState,
    write_after: WriteState,
    r: Result<RequestActionView, ProtoError>,
)
    requires
        request.request_type == ChannelRequestTypeView::WindowChange(window_change),
        before.channels.contains_key(request.recipient_channel),
        handled(before, after, request, None, write_before, write_after, r),
    ensures
        ({
            let id = request.recipient_channel;
            &&& after.channels =~= before.channels
            &&& before.channels[id].terminal == Some(TerminalStateView::Running) ==> {
                &&& r == Ok::<RequestActionView, ProtoError>(
                    RequestActionView::Resize(window_change),
                )
                &&& write_after == write_before
            }
            &&& before.channels[id].terminal != Some(TerminalStateView::Running) && r is Ok ==> {
                &&& r->Ok_0 is Done
                &&& all_enqueued(
                    write_before,
                    write_after,
                    if request.want_reply {
                        seq![seq![99u8] + u32_wire(before.channels[id].remote_id)]
                    } else {
                        Seq::empty()
                    },
                    Ok(()),
                )
            }
        }),
{
    lemma_reply(before.channels[request.recipient_channel].remote_id, request.want_reply);
    let id = request.recipient_channel;
    assert(before.with(id, before.channels[id]).channels =~= before.channels);
}

/// Agent forwarding, and whatever is not known, is refused: with a failure message, where the
/// client wants a reply, and with none otherwise. Nothing changes.
pub proof fn other_requests_are_refused(
    before: ChannelsView,
    after: ChannelsView,
    request: ChannelRequestView,
    banner: Option<Seq<char>>,
    write_before: WriteState,
    write_after: WriteState,
    action: RequestActionView,
)
    requires
        request.request_type is AuthAgentReq || request.request_type is Unknown,
        handled(before, after, request, banner, write_before, write_after, Ok(action)),
    ensures
        before.channels.contains_key(request.recipient_channel),
        after =~= before,
        action is Done,
        all_enqueued(
            write_before,
            write_after,
            if request.want_reply {
                seq![
                    seq![100u8] + u32_wire(before.channels[request.recipient_channel].remote_id),
                ]
            } else {
                Seq::empty()
            },
            Ok(()),
        ),
{
}

/// A request for a channel that is not open breaks the protocol, and one for an open channel
/// changes no other.
pub proof fn requests_are_for_open_channels(
    before: ChannelsView,
    after: ChannelsView,
    request: ChannelRequestView,
    banner: Option<Seq<char>>,
    write_before: WriteState,
    write_after: WriteState,
    r: Result<RequestActionView, ProtoError>,
)
    requires
        handled(before, after, request, banner, write_before, write_after, r),
    ensures
        !before.channels.contains_key(request.recipient_channel) ==> r is Err && after == before
            && write_after == write_before,
        after.next_id == before.next_id,
        after.channels.dom() =~= before.channels.dom(),
        forall|other: u32|
            other != request.recipient_channel ==> #[trigger] after.channels[other]
                == before.channels[other],
{
}

/// Once its terminal was started the client of a channel may send as much as a window allows, which
/// it is told before its request is answered; and the terminal is read.
pub proof fn started_terminals_run(
    before: ChannelsView,
    after: ChannelsView,
    id: u32,
    want_reply: bool,
    write_before: WriteState,
    write_after: WriteState,
)
    requires
        before.channels.contains_key(id),
        started(before, after, id, want_reply, None, write_before, write_after, Ok(())),
    ensures
        after.channels[id].terminal == Some(TerminalStateView::Running),
        after.channels[id].receive_window == 1048576,
        after.channels[id].send_window == before.channels[id].send_window,
        after.channels[id].env == before.channels[id].env,
        before.channels[id].send_window > 0 && before.channels[id].maximum_packet_size > 0
            ==> polled(after, id).1 is Read,
        all_enqueued(
            write_before,
            write_after,
            seq![seq![93u8] + u32_wire(before.channels[id].remote_id) + u32_wire(1048576)]
                + if want_reply {
                seq![seq![99u8] + u32_wire(before.channels[id].remote_id)]
            } else {
                Seq::empty()
            },
            Ok(()),
        ),
{
    let remote_id = before.channels[id].remote_id;
    window_adjust_layout(remote_id, 1048576, Seq::empty());
    let adjust = seq![seq![93u8] + u32_wire(remote_id) + u32_wire(1048576)];
    let reply = seq![seq![99u8] + u32_wire(remote_id)];
    let none = Seq::<Seq<u8>>::empty();
    assert(adjust + reply + none =~= adjust + reply);
    assert(adjust + none + none =~= adjust + none);
}

} // verus!
