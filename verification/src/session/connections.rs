//! The channels of a connection.

use std::borrow::Cow;
use std::collections::BTreeMap;

use vstd::prelude::*;
use vstd::std_specs::cmp::OrdSpec;
use vstd::std_specs::iter::IteratorSpec;
use vstd::utf8::encode_utf8;

use crate::channels::{adjust_wire, close_wire, confirmation_wire, data_wire, eof_wire};
use crate::channels::{failure_wire, open_failure_wire, success_wire};
use crate::channels::{ChannelClose, ChannelData, ChannelDataView, ChannelEof, ChannelOpen};
use crate::channels::{ChannelOpenConfirmation, ChannelOpenFailure, ChannelOpenFailureReason};
use crate::channels::{ChannelOpenView, ChannelRequest, ChannelRequestFailure};
use crate::channels::{ChannelRequestSuccess, ChannelRequestType, ChannelRequestTypeView};
use crate::channels::{ChannelRequestView, ChannelWindowAdjust, PtyReq, PtyReqView, WindowChange};
use crate::error::ProtoError;
use crate::io::{all_enqueued, enqueued, lemma_enqueued_next, lemma_less_room, lemma_ok};
use crate::io::{lemma_room_left, Encoder, WriteState};
use crate::key_exchange::cow_bytes;
use crate::named::ChannelType;
use crate::packet::{unexpected, IncomingPacket, MessageType, MAX_PACKET_LEN};
use crate::text::{same_text, strip_prefix, without_prefix};
use crate::wire::{lemma_string_len, Encode};

verus! {

/// The number of bytes that the client may send before the window has to be extended.
pub const INITIAL_WINDOW_SIZE: u32 = 16 * MAX_PACKET_LEN;

/// The number of environment variables that a client can set.
pub const MAX_ENV: usize = 32;

/// The state of the terminal of a channel.
pub enum TerminalState {
    /// A terminal was asked for.
    Requested(PtyReq<'static>),
    /// The terminal is running.
    Running,
    /// The terminal has ended, and the channel is to be closed.
    Closing,
}

/// What a [`TerminalState`] stands for.
pub enum TerminalStateView {
    /// A terminal was asked for.
    Requested(PtyReqView),
    /// The terminal is running.
    Running,
    /// The terminal has ended, and the channel is to be closed.
    Closing,
}

/// Which sides have closed a channel.
#[derive(Clone, Copy, Debug, PartialEq, Eq, Structural)]
pub struct ClosedState {
    /// The server has closed it.
    pub sent: bool,
    /// The client has closed it.
    pub received: bool,
}

impl Default for ClosedState {
    fn default() -> (r: Self)
        ensures
            r == (ClosedState { sent: false, received: false }),
    {
        ClosedState { sent: false, received: false }
    }
}

/// A channel.
pub struct Channel {
    /// The client's identifier for the channel.
    pub remote_id: u32,
    /// The number of bytes that the client is willing to receive.
    pub send_window: u32,
    /// The number of bytes that the client may send.
    pub receive_window: u32,
    /// The maximum packet size that the client is willing to receive.
    pub maximum_packet_size: u32,
    /// The environment variables that the client has set.
    pub env: Vec<(String, String)>,
    /// The terminal, if one was asked for.
    pub terminal: Option<TerminalState>,
    /// Which sides have closed the channel.
    pub closed: ClosedState,
}

/// What a [`Channel`] stands for.
pub struct ChannelView {
    /// The client's identifier for the channel.
    pub remote_id: u32,
    /// The number of bytes that the client is willing to receive.
    pub send_window: u32,
    /// The number of bytes that the client may send.
    pub receive_window: u32,
    /// The maximum packet size that the client is willing to receive.
    pub maximum_packet_size: u32,
    /// The environment variables that the client has set.
    pub env: Seq<(Seq<char>, Seq<char>)>,
    /// The terminal, if one was asked for.
    pub terminal: Option<TerminalStateView>,
    /// Which sides have closed the channel.
    pub closed: ClosedState,
}

/// The names and values of environment variables.
pub open spec fn env_view(env: Seq<(String, String)>) -> Seq<(Seq<char>, Seq<char>)> {
    env.map_values(|pair: (String, String)| (pair.0@, pair.1@))
}

impl View for TerminalState {
    type V = TerminalStateView;

    open spec fn view(&self) -> TerminalStateView {
        match *self {
            TerminalState::Requested(pty_req) => TerminalStateView::Requested(pty_req@),
            TerminalState::Running => TerminalStateView::Running,
            TerminalState::Closing => TerminalStateView::Closing,
        }
    }
}

impl View for Channel {
    type V = ChannelView;

    open spec fn view(&self) -> ChannelView {
        ChannelView {
            remote_id: self.remote_id,
            send_window: self.send_window,
            receive_window: self.receive_window,
            maximum_packet_size: self.maximum_packet_size,
            env: env_view(self.env@),
            terminal: match self.terminal {
                Some(terminal) => Some(terminal@),
                None => None,
            },
            closed: self.closed,
        }
    }
}

/// The channels of a connection.
pub struct Channels {
    /// The identifier of the next channel.
    pub next_id: u32,
    /// The channels by the server's identifier.
    pub channels: BTreeMap<u32, Channel>,
}

/// What [`Channels`] are open.
#[verifier::ext_equal]
pub struct ChannelsView {
    /// The identifier of the next channel.
    pub next_id: u32,
    /// The channels by the server's identifier.
    pub channels: Map<u32, ChannelView>,
}

impl View for Channels {
    type V = ChannelsView;

    open spec fn view(&self) -> ChannelsView {
        ChannelsView {
            next_id: self.next_id,
            channels: self.channels@.map_values(|channel: Channel| channel@),
        }
    }
}

impl ChannelsView {
    /// The channels with one of them in a new state.
    pub open spec fn with(self, id: u32, channel: ChannelView) -> ChannelsView {
        ChannelsView { channels: self.channels.insert(id, channel), ..self }
    }
}

impl Default for Channels {
    fn default() -> (r: Self)
        ensures
            r@ == (ChannelsView { next_id: 0, channels: Map::empty() }),
    {
        broadcast use vstd::laws_cmp::group_laws_cmp;

        let r = Channels { next_id: 0, channels: BTreeMap::new() };
        assert(r@.channels =~= Map::<u32, ChannelView>::empty());
        r
    }
}

/// What opening a channel comes to: the channels after it and the answer to the client.
pub open spec fn opened(channels: ChannelsView, open: ChannelOpenView) -> (ChannelsView, Seq<u8>) {
    let id = channels.next_id;
    let next = ChannelsView {
        next_id: if id == u32::MAX {
            0
        } else {
            (id + 1) as u32
        },
        ..channels
    };
    if !(open.channel_type is Session) {
        (
            channels,
            open_failure_wire(
                open.sender_channel,
                ChannelOpenFailureReason::UnknownChannelType,
                "only 'session' channel type is supported"@,
            ),
        )
    } else if channels.channels.contains_key(id) {
        (
            next,
            open_failure_wire(
                open.sender_channel,
                ChannelOpenFailureReason::AdministrativelyProhibited,
                "channel ID already in use"@,
            ),
        )
    } else {
        (
            next.with(
                id,
                ChannelView {
                    remote_id: open.sender_channel,
                    send_window: open.initial_window_size,
                    receive_window: 0,
                    maximum_packet_size: open.maximum_packet_size,
                    env: Seq::empty(),
                    terminal: None,
                    closed: ClosedState { sent: false, received: false },
                },
            ),
            confirmation_wire(
                ChannelOpenConfirmation {
                    recipient_channel: open.sender_channel,
                    sender_channel: id,
                    initial_window_size: 0,
                    maximum_packet_size: (MAX_PACKET_LEN - 64) as u32,
                },
            ),
        )
    }
}

impl Channel {
    fn confirmation(&self, local_id: u32) -> (r: ChannelOpenConfirmation)
        ensures
            r == (ChannelOpenConfirmation {
                recipient_channel: self.remote_id,
                sender_channel: local_id,
                initial_window_size: 0,
                maximum_packet_size: (MAX_PACKET_LEN - 64) as u32,
            }),
    {
        ChannelOpenConfirmation {
            recipient_channel: self.remote_id,
            sender_channel: local_id,
            initial_window_size: 0,
            // Leave some room for packet overhead
            maximum_packet_size: MAX_PACKET_LEN - 64,
        }
    }

    fn success(&self) -> (r: ChannelRequestSuccess)
        ensures
            r.recipient_channel == self.remote_id,
    {
        ChannelRequestSuccess { recipient_channel: self.remote_id }
    }

    fn failure(&self) -> (r: ChannelRequestFailure)
        ensures
            r.recipient_channel == self.remote_id,
    {
        ChannelRequestFailure { recipient_channel: self.remote_id }
    }
}

/// Whether a client may set the environment variable: the time zone and the locale.
pub open spec fn env_allowed(name: Seq<char>) -> bool {
    name == "TZ"@ || name == "LANG"@ || without_prefix(name, "LC_"@) is Some
}

/// What is to be done for a request, besides what was enqueued.
pub enum RequestAction {
    /// Nothing more.
    Done,
    /// A terminal is to be started; then [`Channels::shell_started()`] is to be called.
    Spawn(PtyReq<'static>, Vec<(String, String)>),
    /// The terminal is to be resized; then [`Channels::finish_request()`] is to be called.
    Resize(WindowChange),
}

/// What a [`RequestAction`] stands for.
pub enum RequestActionView {
    /// Nothing more.
    Done,
    /// A terminal is to be started, with environment variables.
    Spawn(PtyReqView, Seq<(Seq<char>, Seq<char>)>),
    /// The terminal is to be resized.
    Resize(WindowChange),
}

impl View for RequestAction {
    type V = RequestActionView;

    open spec fn view(&self) -> RequestActionView {
        match *self {
            RequestAction::Done => RequestActionView::Done,
            RequestAction::Spawn(pty_req, env) => RequestActionView::Spawn(
                pty_req@,
                env_view(env@),
            ),
            RequestAction::Resize(window_change) => RequestActionView::Resize(window_change),
        }
    }
}

/// How a request is answered.
pub enum Answer {
    /// With a failure, where a reply is wanted.
    Refuse,
    /// With a success, where a reply is wanted, and the banner.
    Accept,
    /// Not yet: something has to be done first.
    Act(RequestActionView),
    /// The client has broken the protocol.
    Break(ProtoError),
}

/// The channel after a request and how the request is answered.
pub open spec fn requested(channel: ChannelView, request: ChannelRequestTypeView) -> (
    ChannelView,
    Answer,
) {
    match request {
        ChannelRequestTypeView::PtyReq(pty_req) => (
            ChannelView { terminal: Some(TerminalStateView::Requested(pty_req)), ..channel },
            Answer::Accept,
        ),
        ChannelRequestTypeView::Env(env) => if env_allowed(env.name) && channel.env.len()
            < MAX_ENV {
            (
                ChannelView { env: channel.env.push((env.name, env.value)), ..channel },
                Answer::Accept,
            )
        } else {
            (channel, Answer::Refuse)
        },
        ChannelRequestTypeView::Shell => (
            ChannelView { terminal: None, ..channel },
            match channel.terminal {
                Some(TerminalStateView::Requested(pty_req)) => Answer::Act(
                    RequestActionView::Spawn(pty_req, channel.env),
                ),
                _ => Answer::Break(
                    ProtoError::InvalidPacket("shell request without prior pty-req"),
                ),
            },
        ),
        ChannelRequestTypeView::WindowChange(window_change) => (
            channel,
            if channel.terminal == Some(TerminalStateView::Running) {
                Answer::Act(RequestActionView::Resize(window_change))
            } else {
                Answer::Accept
            },
        ),
        ChannelRequestTypeView::AuthAgentReq | ChannelRequestTypeView::Unknown(_) => (
            channel,
            Answer::Refuse,
        ),
    }
}

/// The success message for a request, where a reply is wanted.
pub open spec fn success_reply(channel: ChannelView, want_reply: bool) -> Seq<Seq<u8>> {
    if want_reply {
        seq![success_wire(channel.remote_id)]
    } else {
        Seq::empty()
    }
}

/// The failure message for a request, where a reply is wanted.
pub open spec fn failure_reply(channel: ChannelView, want_reply: bool) -> Seq<Seq<u8>> {
    if want_reply {
        seq![failure_wire(channel.remote_id)]
    } else {
        Seq::empty()
    }
}

/// The channel after the banner, which is sent where it fits the window.
pub open spec fn bannered(channel: ChannelView, banner: Option<Seq<char>>) -> ChannelView {
    match banner {
        Some(text) if encode_utf8(text).len() as u32 <= channel.send_window => ChannelView {
            send_window: (channel.send_window - encode_utf8(text).len() as u32) as u32,
            ..channel
        },
        _ => channel,
    }
}

/// The message with the banner, which is sent where it fits the window.
pub open spec fn banner_data(channel: ChannelView, banner: Option<Seq<char>>) -> Seq<Seq<u8>> {
    match banner {
        Some(text) if encode_utf8(text).len() as u32 <= channel.send_window => seq![
            data_wire(
                ChannelDataView {
                    recipient_channel: channel.remote_id,
                    data: encode_utf8(text),
                },
            ),
        ],
        _ => Seq::empty(),
    }
}

/// The text of a banner.
pub open spec fn banner_view(banner: Option<&str>) -> Option<Seq<char>> {
    match banner {
        Some(text) => Some(text@),
        None => None,
    }
}

/// The number of bytes of a banner.
pub open spec fn banner_len(banner: Option<&str>) -> nat {
    match banner {
        Some(text) => encode_utf8(text@).len(),
        None => 0,
    }
}

/// An accepted request has been answered: with a success message where a reply is wanted, and the
/// banner. Where the reply cannot be enqueued the banner is left out.
pub open spec fn answered(
    before: ChannelsView,
    after: ChannelsView,
    id: u32,
    want_reply: bool,
    banner: Option<Seq<char>>,
    write_before: WriteState,
    write_after: WriteState,
    sent: Seq<Seq<u8>>,
    r: Result<(), ProtoError>,
) -> bool {
    let channel = before.channels[id];
    let reply = success_reply(channel, want_reply);
    ||| {
        &&& r is Err
        &&& after == before
        &&& all_enqueued(write_before, write_after, sent + reply, r)
    }
    ||| {
        &&& after == before.with(id, bannered(channel, banner))
        &&& all_enqueued(
            write_before,
            write_after,
            sent + reply + banner_data(channel, banner),
            r,
        )
    }
}

proof fn lemma_with(channels: Channels, id: u32, channel: Channel)
    ensures
        channels.channels@.insert(id, channel).map_values(|c: Channel| c@)
            =~= channels@.channels.insert(id, channel@),
{
}

impl Channels {
    /// The channel with the given identifier in a new state.
    fn put_back(&mut self, id: u32, channel: Channel)
        ensures
            final(self)@ == old(self)@.with(id, channel@),
    {
        broadcast use vstd::laws_cmp::group_laws_cmp;

        proof {
            lemma_with(*old(self), id, channel);
        }
        self.channels.insert(id, channel);
    }

    /// The channel with the given identifier, taken out.
    fn take_out(&mut self, id: u32) -> (r: Option<Channel>)
        ensures
            match r {
                Some(channel) => {
                    &&& old(self)@.channels.contains_key(id)
                    &&& old(self)@.channels[id] == channel@
                    &&& final(self)@ == (ChannelsView {
                        channels: old(self)@.channels.remove(id),
                        ..old(self)@
                    })
                },
                None => !old(self)@.channels.contains_key(id) && final(self)@ == old(self)@,
            },
    {
        broadcast use vstd::laws_cmp::group_laws_cmp;

        let r = self.channels.remove(&id);
        proof {
            let before = old(self)@.channels;
            if r is Some {
                assert(self@.channels =~= before.remove(id));
            } else {
                assert(self@.channels =~= before);
            }
        }
        r
    }

    /// Open a channel.
    pub fn open(&mut self, open: ChannelOpen<'_>, encoder: &mut Encoder<'_>) -> (r: Result<
        (),
        ProtoError,
    >)
        requires
            old(encoder).write.has_room(1, 128),
        ensures
            final(self)@ == opened(old(self)@, open@).0,
            enqueued(*old(encoder).write, *final(encoder).write, opened(old(self)@, open@).1, r),
            *final(final(encoder).write) == *final(old(encoder).write),
    {
        broadcast use vstd::laws_cmp::group_laws_cmp;

        proof {
            lemma_open_lengths(open@.sender_channel, self.next_id);
            lemma_less_room(
                *encoder.write,
                1,
                128,
                1,
                opened(self@, open@).1.len(),
            );
        }
        match open.channel_type {
            ChannelType::Session => {},
            ChannelType::Unknown(_) => {
                return encoder.enqueue(&ChannelOpenFailure::unknown_type(open.sender_channel));
            },
        }

        let local_id: u32 = self.next_id;
        self.next_id = self.next_id.wrapping_add(1);
        if self.channels.contains_key(&local_id) {
            return encoder.enqueue(&ChannelOpenFailure::duplicate_id(open.sender_channel));
        }
        let channel = Channel {
            remote_id: open.sender_channel,
            send_window: open.initial_window_size,
            receive_window: 0,
            maximum_packet_size: open.maximum_packet_size,
            env: Vec::new(),
            terminal: None,
            closed: ClosedState::default(),
        };
        assert(channel@.env =~= Seq::<(Seq<char>, Seq<char>)>::empty());
        let confirmation = channel.confirmation(local_id);
        self.put_back(local_id, channel);
        encoder.enqueue(&confirmation)
    }
}

/// What it comes to when the terminal of a channel was started: the client may send data from now
/// on, and its request is answered.
pub open spec fn started(
    before: ChannelsView,
    after: ChannelsView,
    id: u32,
    want_reply: bool,
    banner: Option<Seq<char>>,
    write_before: WriteState,
    write_after: WriteState,
    r: Result<(), ProtoError>,
) -> bool {
    let channel = before.channels[id];
    let running = before.with(
        id,
        ChannelView {
            terminal: Some(TerminalStateView::Running),
            receive_window: INITIAL_WINDOW_SIZE,
            ..channel
        },
    );
    let adjust = adjust_wire(
        ChannelWindowAdjust {
            recipient_channel: channel.remote_id,
            bytes_to_add: INITIAL_WINDOW_SIZE,
        },
    );
    ||| {
        &&& r is Err
        &&& after == running
        &&& enqueued(write_before, write_after, adjust, r)
    }
    ||| answered(
        running,
        after,
        id,
        want_reply,
        banner,
        write_before,
        write_after,
        seq![adjust],
        r,
    )
}

/// What a request comes to.
pub open spec fn handled(
    before: ChannelsView,
    after: ChannelsView,
    request: ChannelRequestView,
    banner: Option<Seq<char>>,
    write_before: WriteState,
    write_after: WriteState,
    r: Result<RequestActionView, ProtoError>,
) -> bool {
    let id = request.recipient_channel;
    let (channel, answer) = requested(before.channels[id], request.request_type);
    if !before.channels.contains_key(id) {
        &&& after == before
        &&& write_after == write_before
        &&& r == Err::<RequestActionView, ProtoError>(
            ProtoError::InvalidPacket("channel request for unknown channel ID"),
        )
    } else {
        match answer {
            Answer::Break(e) => {
                &&& after == before.with(id, channel)
                &&& write_after == write_before
                &&& r == Err::<RequestActionView, ProtoError>(e)
            },
            Answer::Act(action) => {
                &&& after == before.with(id, channel)
                &&& write_after == write_before
                &&& r == Ok::<RequestActionView, ProtoError>(action)
            },
            Answer::Refuse => {
                &&& after == before.with(id, channel)
                &&& all_enqueued(
                    write_before,
                    write_after,
                    failure_reply(channel, request.want_reply),
                    without_action(r),
                )
                &&& r matches Ok(action) ==> action == RequestActionView::Done
            },
            Answer::Accept => {
                &&& answered(
                    before.with(id, channel),
                    after,
                    id,
                    request.want_reply,
                    banner,
                    write_before,
                    write_after,
                    Seq::empty(),
                    without_action(r),
                )
                &&& r matches Ok(action) ==> action == RequestActionView::Done
            },
        }
    }
}

/// Whether a request was handled, without what is to be done for it.
pub open spec fn without_action(r: Result<RequestActionView, ProtoError>) -> Result<
    (),
    ProtoError,
> {
    match r {
        Ok(_) => Ok(()),
        Err(e) => Err(e),
    }
}

/// What is to be done for a request, if it was handled.
pub open spec fn action_view(r: Result<RequestAction, ProtoError>) -> Result<
    RequestActionView,
    ProtoError,
> {
    match r {
        Ok(action) => Ok(action@),
        Err(e) => Err(e),
    }
}

impl Channels {
    /// Handle a request for a channel.
    pub fn request(
        &mut self,
        request: ChannelRequest<'_>,
        encoder: &mut Encoder<'_>,
        banner: Option<&str>,
    ) -> (r: Result<RequestAction, ProtoError>)
        requires
            old(encoder).write.has_room(2, 16 + banner_len(banner)),
        ensures
            handled(
                old(self)@,
                final(self)@,
                request@,
                banner_view(banner),
                *old(encoder).write,
                *final(encoder).write,
                action_view(r),
            ),
            *final(final(encoder).write) == *final(old(encoder).write),
    {
        let id: u32 = request.recipient_channel;
        let Some(channel) = self.take_out(id) else {
            return Err(ProtoError::InvalidPacket("channel request for unknown channel ID"));
        };
        let mut channel = channel;

        let accepted = match request.request_type {
            ChannelRequestType::PtyReq(pty_req) => {
                channel.terminal = Some(TerminalState::Requested(pty_req.into_owned()));
                true
            },
            ChannelRequestType::Env(env) => {
                let allowed = same_text(env.name, "TZ") || same_text(env.name, "LANG")
                    || strip_prefix(env.name, "LC_").is_some();
                if allowed && channel.env.len() < MAX_ENV {
                    let ghost old_env = channel.env@;
                    channel.env.push((env.name.to_owned(), env.value.to_owned()));
                    assert(env_view(channel.env@) =~= env_view(old_env).push(
                        (env.name@, env.value@),
                    ));
                    true
                } else {
                    false
                }
            },
            ChannelRequestType::Shell => {
                let terminal = channel.terminal;
                channel.terminal = None;
                let env = clone_env(&channel.env);
                self.put_back(id, channel);
                assert(self@.channels =~= old(self)@.channels.insert(id, channel@));
                return match terminal {
                    Some(TerminalState::Requested(pty_req)) => Ok(
                        RequestAction::Spawn(pty_req, env),
                    ),
                    _ => Err(ProtoError::InvalidPacket("shell request without prior pty-req")),
                };
            },
            ChannelRequestType::WindowChange(window_change) => match &channel.terminal {
                Some(TerminalState::Running) => {
                    self.put_back(id, channel);
                    assert(self@.channels =~= old(self)@.channels.insert(id, channel@));
                    return Ok(RequestAction::Resize(window_change));
                },
                _ => true,
            },
            // Agent forwarding is not supported -- only reply when asked
            ChannelRequestType::AuthAgentReq | ChannelRequestType::Unknown(_) => false,
        };

        let failure = channel.failure();
        self.put_back(id, channel);
        assert(self@ =~= old(self)@.with(id, channel@));
        if accepted {
            let result = self.finish_request(id, request.want_reply, encoder, banner);
            match result {
                Ok(()) => {
                    proof {
                        lemma_ok(result);
                    }
                    Ok(RequestAction::Done)
                },
                Err(e) => Err(e),
            }
        } else {
            if request.want_reply {
                proof {
                    lemma_less_room(*encoder.write, 2, 16 + banner_len(banner), 1, 5);
                }
                let ghost write_before = *encoder.write;
                let result = encoder.enqueue(&failure);
                proof {
                    lemma_enqueued_next(
                        write_before,
                        write_before,
                        *encoder.write,
                        Seq::empty(),
                        failure_wire(channel@.remote_id),
                        result,
                    );
                    assert(Seq::<Seq<u8>>::empty().push(failure_wire(channel@.remote_id))
                        =~= failure_reply(channel@, true));
                    if result is Ok {
                        lemma_ok(result);
                    }
                }
                result?;
            }
            Ok(RequestAction::Done)
        }
    }

    /// Answer a request that was accepted.
    pub fn finish_request(
        &mut self,
        id: u32,
        want_reply: bool,
        encoder: &mut Encoder<'_>,
        banner: Option<&str>,
    ) -> (r: Result<(), ProtoError>)
        requires
            old(self)@.channels.contains_key(id),
            old(encoder).write.has_room(2, 16 + banner_len(banner)),
        ensures
            answered(
                old(self)@,
                final(self)@,
                id,
                want_reply,
                banner_view(banner),
                *old(encoder).write,
                *final(encoder).write,
                Seq::empty(),
                r,
            ),
            *final(final(encoder).write) == *final(old(encoder).write),
    {
        let ghost start = *encoder.write;
        proof {
            assert(all_enqueued(start, start, Seq::empty(), Ok(())));
        }
        self.answer(id, want_reply, encoder, banner, Ghost(start), Ghost(Seq::empty()))
    }

    /// Answer a request that was accepted, after the payloads in `sent` were enqueued.
    fn answer(
        &mut self,
        id: u32,
        want_reply: bool,
        encoder: &mut Encoder<'_>,
        banner: Option<&str>,
        start: Ghost<WriteState>,
        sent: Ghost<Seq<Seq<u8>>>,
    ) -> (r: Result<(), ProtoError>)
        requires
            old(self)@.channels.contains_key(id),
            old(encoder).write.has_room(2, 16 + banner_len(banner)),
            all_enqueued(start@, *old(encoder).write, sent@, Ok(())),
        ensures
            answered(
                old(self)@,
                final(self)@,
                id,
                want_reply,
                banner_view(banner),
                start@,
                *final(encoder).write,
                sent@,
                r,
            ),
            *final(final(encoder).write) == *final(old(encoder).write),
    {
        let Some(channel) = self.take_out(id) else {
            return Ok(());
        };
        let mut channel = channel;
        let ghost view = channel@;
        let ghost reply = success_reply(view, want_reply);
        let ghost data = banner_data(view, banner_view(banner));
        let success = channel.success();

        let mut result: Result<(), ProtoError> = Ok(());
        let ghost write_before = *encoder.write;
        if want_reply {
            proof {
                lemma_less_room(*encoder.write, 2, 16 + banner_len(banner), 1, 5);
            }
            result = encoder.enqueue(&success);
            proof {
                lemma_enqueued_next(
                    start@,
                    write_before,
                    *encoder.write,
                    sent@,
                    success_wire(view.remote_id),
                    result,
                );
                assert(sent@.push(success_wire(view.remote_id)) =~= sent@ + reply);
                if result is Ok {
                    lemma_less_room(
                        write_before,
                        2,
                        16 + banner_len(banner),
                        2,
                        11 + banner_len(banner) + 5,
                    );
                    lemma_room_left(
                        write_before,
                        *encoder.write,
                        success_wire(view.remote_id),
                        1,
                        11 + banner_len(banner),
                    );
                }
            }
        } else {
            proof {
                assert(sent@ + reply =~= sent@);
                lemma_less_room(*encoder.write, 2, 16 + banner_len(banner), 1, 11 + banner_len(banner));
            }
        }
        if result.is_err() {
            self.put_back(id, channel);
            assert(self@ =~= old(self)@);
            return result;
        }
        proof {
            lemma_ok(result);
        }
        assert(all_enqueued(start@, *encoder.write, sent@ + reply, Ok(())));
        if let Some(banner) = banner {
            let len: u32 = banner.len() as u32;
            if len <= channel.send_window {
                channel.send_window = channel.send_window - len;
                let recipient_channel: u32 = channel.remote_id;
                self.put_back(id, channel);
                assert(self@ =~= old(self)@.with(id, bannered(view, Some(banner@))));
                let ghost write_mid = *encoder.write;
                proof {
                    lemma_string_len(encode_utf8(banner@));
                    lemma_less_room(write_mid, 1, 11 + encode_utf8(banner@).len(), 1, 9 + encode_utf8(banner@).len());
                }
                let message = ChannelData {
                    recipient_channel,
                    data: Cow::Borrowed(banner.as_bytes()),
                };
                let result = encoder.enqueue(&message);
                proof {
                    lemma_enqueued_next(
                        start@,
                        write_mid,
                        *encoder.write,
                        sent@ + reply,
                        data_wire(message@),
                        result,
                    );
                    assert((sent@ + reply).push(data_wire(message@)) =~= sent@ + reply + data);
                }
                return result;
            }
        }
        self.put_back(id, channel);
        proof {
            assert(self@ =~= old(self)@.with(id, bannered(view, banner_view(banner))));
            assert(sent@ + reply + data =~= sent@ + reply);
        }
        Ok(())
    }

    /// Answer a request for a shell after its terminal was started.
    pub fn shell_started(
        &mut self,
        id: u32,
        want_reply: bool,
        encoder: &mut Encoder<'_>,
        banner: Option<&str>,
    ) -> (r: Result<(), ProtoError>)
        requires
            old(self)@.channels.contains_key(id),
            old(encoder).write.has_room(3, 25 + banner_len(banner)),
        ensures
            started(
                old(self)@,
                final(self)@,
                id,
                want_reply,
                banner_view(banner),
                *old(encoder).write,
                *final(encoder).write,
                r,
            ),
            *final(final(encoder).write) == *final(old(encoder).write),
    {
        let Some(channel) = self.take_out(id) else {
            return Ok(());
        };
        let mut channel = channel;
        channel.terminal = Some(TerminalState::Running);
        channel.receive_window = INITIAL_WINDOW_SIZE;
        let adjust = ChannelWindowAdjust {
            recipient_channel: channel.remote_id,
            bytes_to_add: INITIAL_WINDOW_SIZE,
        };
        self.put_back(id, channel);
        let ghost started = old(self)@.with(id, channel@);
        assert(self@ =~= started);
        let ghost start = *encoder.write;
        proof {
            lemma_less_room(start, 3, 25 + banner_len(banner), 3, (16 + banner_len(banner)) + 9);
            lemma_less_room(start, 3, 25 + banner_len(banner), 1, 9);
        }
        encoder.enqueue(&adjust)?;
        proof {
            lemma_room_left(
                start,
                *encoder.write,
                adjust_wire(adjust),
                2,
                16 + banner_len(banner),
            );
            lemma_enqueued_next(
                start,
                start,
                *encoder.write,
                Seq::empty(),
                adjust_wire(adjust),
                Ok(()),
            );
            assert(Seq::<Seq<u8>>::empty().push(adjust_wire(adjust)) =~= seq![
                adjust_wire(adjust),
            ]);
        }
        let ghost sent = seq![adjust_wire(adjust)];
        self.answer(id, want_reply, encoder, banner, Ghost(start), Ghost(sent))
    }

    /// Extend the window of a channel.
    pub fn adjust_window(&mut self, adjust: &ChannelWindowAdjust) -> (r: Result<(), ProtoError>)
        ensures
            match adjusted(old(self)@, *adjust) {
                Ok(channels) => r == Ok::<(), ProtoError>(()) && final(self)@ == channels,
                Err(e) => r == Err::<(), ProtoError>(e) && final(self)@ == old(self)@,
            },
    {
        let Some(channel) = self.take_out(adjust.recipient_channel) else {
            return Err(ProtoError::InvalidPacket("channel window adjust for unknown channel ID"));
        };
        let mut channel = channel;
        channel.send_window = if u32::MAX - channel.send_window < adjust.bytes_to_add {
            u32::MAX
        } else {
            channel.send_window + adjust.bytes_to_add
        };
        self.put_back(adjust.recipient_channel, channel);
        assert(self@ =~= old(self)@.with(adjust.recipient_channel, channel@));
        Ok(())
    }

    /// Take in data for a channel: the data, where a terminal is there to take it.
    pub fn data<'m>(&mut self, data: &'m ChannelData<'m>, encoder: &mut Encoder<'_>) -> (r: Result<
        Option<&'m [u8]>,
        ProtoError,
    >)
        requires
            old(encoder).write.has_room(1, 9),
        ensures
            received(
                old(self)@,
                final(self)@,
                data@,
                *old(encoder).write,
                *final(encoder).write,
                match r {
                    Ok(Some(data)) => Ok(Some(data@)),
                    Ok(None) => Ok(None),
                    Err(e) => Err(e),
                },
            ),
            *final(final(encoder).write) == *final(old(encoder).write),
    {
        let id: u32 = data.recipient_channel;
        let Some(channel) = self.take_out(id) else {
            return Err(ProtoError::InvalidPacket("channel data for unknown channel ID"));
        };
        let mut channel = channel;
        let bytes = cow_bytes(&data.data);
        let len: u32 = bytes.len() as u32;

        if channel.receive_window < len {
            self.put_back(id, channel);
            assert(self@ =~= old(self)@);
            return Err(ProtoError::InvalidPacket("channel data exceeds receive window"));
        }
        channel.receive_window = channel.receive_window - len;

        let mut adjust: Option<ChannelWindowAdjust> = None;
        if channel.receive_window < INITIAL_WINDOW_SIZE / 2 {
            let bytes_to_add: u32 = INITIAL_WINDOW_SIZE - channel.receive_window;
            channel.receive_window = INITIAL_WINDOW_SIZE;
            adjust = Some(ChannelWindowAdjust { recipient_channel: channel.remote_id, bytes_to_add });
        }
        let running = match &channel.terminal {
            Some(TerminalState::Running) => true,
            _ => false,
        };
        self.put_back(id, channel);
        assert(self@ =~= old(self)@.with(id, channel@));
        if let Some(adjust) = adjust {
            encoder.enqueue(&adjust)?;
        }
        Ok(
            if running {
                Some(bytes)
            } else {
                None
            },
        )
    }

    /// Take note that the client will send no more data.
    pub fn eof(&self, eof: &ChannelEof) -> (r: Result<(), ProtoError>)
        ensures
            r == ended(self@, *eof),
    {
        broadcast use vstd::laws_cmp::group_laws_cmp;

        if !self.channels.contains_key(&eof.recipient_channel) {
            return Err(ProtoError::InvalidPacket("channel eof for unknown channel ID"));
        }
        Ok(())
    }

    /// Take note that the client has closed a channel.
    pub fn close(&mut self, close: &ChannelClose, encoder: &mut Encoder<'_>) -> (r: Result<
        (),
        ProtoError,
    >)
        requires
            old(encoder).write.has_room(1, 5),
        ensures
            closed(
                old(self)@,
                final(self)@,
                *close,
                *old(encoder).write,
                *final(encoder).write,
                r,
            ),
            *final(final(encoder).write) == *final(old(encoder).write),
    {
        let Some(channel) = self.take_out(close.recipient_channel) else {
            return Ok(());
        };
        let mut channel = channel;
        channel.closed.received = true;
        let recipient_channel: u32 = channel.remote_id;
        if channel.closed.sent {
            return Ok(());
        }
        self.put_back(close.recipient_channel, channel);
        assert(self@ =~= old(self)@.with(close.recipient_channel, channel@));
        encoder.enqueue(&ChannelClose { recipient_channel })
    }

    /// The identifiers of the channels, in ascending order.
    pub fn ids(&self) -> (r: Vec<u32>)
        ensures
            r@.to_set() == self@.channels.dom(),
            forall|i: int, j: int| 0 <= i < j < r@.len() ==> r@[i] < r@[j],
    {
        broadcast use vstd::laws_cmp::group_laws_cmp, vstd::std_specs::btree::group_btree_axioms;

        let mut out: Vec<u32> = Vec::new();
        let ghost keys = vstd::std_specs::btree::spec_keys_iter(&self.channels).remaining();
        for id in iter: self.channels.keys()
            invariant
                iter.seq() == keys,
                out@.len() == iter.index(),
                forall|i: int| 0 <= i < out@.len() ==> out@[i] == *keys[i],
        {
            out.push(*id);
        }
        proof {
            assert(out@ =~= keys.unref());
            assert(vstd::laws_cmp::obeys_cmp::<&u32>());
            assert(vstd::std_specs::btree::increasing_seq(keys));
            assert forall|i: int, j: int| 0 <= i < j < out@.len() implies out@[i] < out@[j] by {
                assert(OrdSpec::cmp_spec(&keys[i], &keys[j]) is Less);
            }
            assert(self@.channels.dom() =~= self.channels@.dom());
        }
        out
    }
}

fn clone_env(env: &Vec<(String, String)>) -> (r: Vec<(String, String)>)
    ensures
        env_view(r@) == env_view(env@),
{
    let mut out: Vec<(String, String)> = Vec::new();
    let mut i: usize = 0;
    while i < env.len()
        invariant
            i <= env@.len(),
            out@.len() == i,
            forall|j: int|
                0 <= j < i ==> (#[trigger] out@[j]).0@ == env@[j].0@ && out@[j].1@ == env@[j].1@,
        decreases env@.len() - i,
    {
        out.push((env[i].0.clone(), env[i].1.clone()));
        i += 1;
    }
    assert(env_view(out@) =~= env_view(env@));
    out
}

/// The channels after the window of one was extended, as far as a window can be.
pub open spec fn adjusted(channels: ChannelsView, adjust: ChannelWindowAdjust) -> Result<
    ChannelsView,
    ProtoError,
> {
    let id = adjust.recipient_channel;
    let channel = channels.channels[id];
    if channels.channels.contains_key(id) {
        Ok(
            channels.with(
                id,
                ChannelView {
                    send_window: if channel.send_window + adjust.bytes_to_add > u32::MAX {
                        u32::MAX
                    } else {
                        (channel.send_window + adjust.bytes_to_add) as u32
                    },
                    ..channel
                },
            ),
        )
    } else {
        Err(ProtoError::InvalidPacket("channel window adjust for unknown channel ID"))
    }
}

/// Whether the client may say that it will send no more data.
pub open spec fn ended(channels: ChannelsView, eof: ChannelEof) -> Result<(), ProtoError> {
    if channels.channels.contains_key(eof.recipient_channel) {
        Ok(())
    } else {
        Err(ProtoError::InvalidPacket("channel eof for unknown channel ID"))
    }
}

/// What it comes to when the client closes a channel: the server closes it as well, and where it
/// had done so before the channel is gone.
pub open spec fn closed(
    before: ChannelsView,
    after: ChannelsView,
    close: ChannelClose,
    write_before: WriteState,
    write_after: WriteState,
    r: Result<(), ProtoError>,
) -> bool {
    let id = close.recipient_channel;
    let channel = before.channels[id];
    if !before.channels.contains_key(id) {
        &&& r == Ok::<(), ProtoError>(())
        &&& after == before
        &&& write_after == write_before
    } else if channel.closed.sent {
        &&& r == Ok::<(), ProtoError>(())
        &&& after == (ChannelsView { channels: before.channels.remove(id), ..before })
        &&& write_after == write_before
    } else {
        &&& after == before.with(
            id,
            ChannelView { closed: ClosedState { sent: false, received: true }, ..channel },
        )
        &&& enqueued(write_before, write_after, close_wire(channel.remote_id), r)
    }
}

/// What data for a channel comes to: it uses up the window, which is extended when less than
/// half of it is left, and goes to the terminal where one is running.
pub open spec fn received(
    before: ChannelsView,
    after: ChannelsView,
    data: ChannelDataView,
    write_before: WriteState,
    write_after: WriteState,
    r: Result<Option<Seq<u8>>, ProtoError>,
) -> bool {
    let id = data.recipient_channel;
    let channel = before.channels[id];
    let len = data.data.len() as u32;
    let left = channel.receive_window - len;
    let taken = if channel.terminal == Some(TerminalStateView::Running) {
        Some(data.data)
    } else {
        None
    };
    if !before.channels.contains_key(id) {
        &&& after == before
        &&& write_after == write_before
        &&& r == Err::<Option<Seq<u8>>, ProtoError>(
            ProtoError::InvalidPacket("channel data for unknown channel ID"),
        )
    } else if left < 0 {
        &&& after == before
        &&& write_after == write_before
        &&& r == Err::<Option<Seq<u8>>, ProtoError>(
            ProtoError::InvalidPacket("channel data exceeds receive window"),
        )
    } else if left < INITIAL_WINDOW_SIZE / 2 {
        &&& after == before.with(
            id,
            ChannelView { receive_window: INITIAL_WINDOW_SIZE, ..channel },
        )
        &&& enqueued(
            write_before,
            write_after,
            adjust_wire(
                ChannelWindowAdjust {
                    recipient_channel: channel.remote_id,
                    bytes_to_add: (INITIAL_WINDOW_SIZE - left) as u32,
                },
            ),
            match r {
                Ok(_) => Ok(()),
                Err(e) => Err(e),
            },
        )
        &&& r matches Ok(data) ==> data == taken
    } else {
        &&& after == before.with(id, ChannelView { receive_window: left as u32, ..channel })
        &&& write_after == write_before
        &&& r == Ok::<Option<Seq<u8>>, ProtoError>(taken)
    }
}

/// The most that is read from a terminal at once.
pub const READ_LEN: usize = 4096;

/// What is to be done for the terminal of a channel.
#[derive(Debug)]
pub enum TerminalStep {
    /// Nothing.
    Skip,
    /// The channel is to be closed with this message.
    Close(ChannelClose),
    /// Up to this many bytes are to be read from the terminal; then
    /// [`Channels::terminal_output()`] or [`Channels::terminal_ended()`] is to be called, unless
    /// there is nothing to be read yet.
    Read(usize),
}

/// What is to be done for the terminal of a channel, and the channels after it.
pub open spec fn polled(channels: ChannelsView, id: u32) -> (ChannelsView, TerminalStep) {
    let channel = channels.channels[id];
    let limit = if channel.maximum_packet_size < channel.send_window {
        channel.maximum_packet_size
    } else {
        channel.send_window
    };
    if !channels.channels.contains_key(id) {
        (channels, TerminalStep::Skip)
    } else {
        match channel.terminal {
            Some(TerminalStateView::Running) => (
                channels,
                if limit == 0 {
                    TerminalStep::Skip
                } else if limit < READ_LEN {
                    TerminalStep::Read(limit as usize)
                } else {
                    TerminalStep::Read(READ_LEN)
                },
            ),
            Some(TerminalStateView::Closing) => if channel.closed.sent {
                (channels, TerminalStep::Skip)
            } else {
                (
                    if channel.closed.received {
                        // Both sides have closed the channel.
                        ChannelsView { channels: channels.channels.remove(id), ..channels }
                    } else {
                        channels.with(
                            id,
                            ChannelView {
                                closed: ClosedState { sent: true, received: false },
                                ..channel
                            },
                        )
                    },
                    TerminalStep::Close(ChannelClose { recipient_channel: channel.remote_id }),
                )
            },
            _ => (channels, TerminalStep::Skip),
        }
    }
}

/// What was read from the terminal of a channel uses up the client's window: the channels after
/// it and the message.
pub open spec fn relayed(channels: ChannelsView, id: u32, data: Seq<u8>) -> (
    ChannelsView,
    OutgoingView,
) {
    let channel = channels.channels[id];
    let len = data.len() as u32;
    (
        channels.with(
            id,
            ChannelView {
                send_window: if channel.send_window < len {
                    0
                } else {
                    (channel.send_window - len) as u32
                },
                ..channel
            },
        ),
        OutgoingView::Data(ChannelDataView { recipient_channel: channel.remote_id, data }),
    )
}

/// No more will come from the terminal of a channel: the channels after it and the message.
pub open spec fn exhausted(channels: ChannelsView, id: u32) -> (ChannelsView, OutgoingView) {
    (
        channels.with(
            id,
            ChannelView { terminal: Some(TerminalStateView::Closing), ..channels.channels[id] },
        ),
        OutgoingView::Eof(channels.channels[id].remote_id),
    )
}

impl Channels {
    /// What is to be done for the terminal of a channel.
    pub fn poll_channel(&mut self, id: u32) -> (r: TerminalStep)
        ensures
            final(self)@ == polled(old(self)@, id).0,
            r == polled(old(self)@, id).1,
    {
        let Some(channel) = self.take_out(id) else {
            return TerminalStep::Skip;
        };
        let mut channel = channel;
        let limit: u32 = if channel.maximum_packet_size < channel.send_window {
            channel.maximum_packet_size
        } else {
            channel.send_window
        };
        let step = match &channel.terminal {
            Some(TerminalState::Running) => if limit == 0 {
                TerminalStep::Skip
            } else if (limit as usize) < READ_LEN {
                TerminalStep::Read(limit as usize)
            } else {
                TerminalStep::Read(READ_LEN)
            },
            Some(TerminalState::Closing) => if channel.closed.sent {
                TerminalStep::Skip
            } else {
                let recipient_channel: u32 = channel.remote_id;
                if channel.closed.received {
                    return TerminalStep::Close(ChannelClose { recipient_channel });
                }
                channel.closed.sent = true;
                TerminalStep::Close(ChannelClose { recipient_channel })
            },
            _ => TerminalStep::Skip,
        };
        self.put_back(id, channel);
        assert(self@ =~= polled(old(self)@, id).0);
        step
    }

    /// The message with what was read from the terminal of a channel.
    pub fn terminal_output(&mut self, id: u32, data: Vec<u8>) -> (r: OutgoingChannelMessage<'static>)
        requires
            old(self)@.channels.contains_key(id),
        ensures
            final(self)@ == relayed(old(self)@, id, data@).0,
            r@ == relayed(old(self)@, id, data@).1,
    {
        let mut recipient_channel: u32 = 0;
        if let Some(channel) = self.take_out(id) {
            let mut channel = channel;
            let len: u32 = data.len() as u32;
            channel.send_window = if channel.send_window < len {
                0
            } else {
                channel.send_window - len
            };
            recipient_channel = channel.remote_id;
            self.put_back(id, channel);
            assert(self@ =~= old(self)@.with(id, channel@));
        }
        OutgoingChannelMessage::Data(ChannelData { recipient_channel, data: Cow::Owned(data) })
    }

    /// The message that no more will come from the terminal of a channel.
    pub fn terminal_ended(&mut self, id: u32) -> (r: OutgoingChannelMessage<'static>)
        requires
            old(self)@.channels.contains_key(id),
        ensures
            final(self)@ == exhausted(old(self)@, id).0,
            r@ == exhausted(old(self)@, id).1,
    {
        let mut recipient_channel: u32 = 0;
        if let Some(channel) = self.take_out(id) {
            let mut channel = channel;
            channel.terminal = Some(TerminalState::Closing);
            recipient_channel = channel.remote_id;
            self.put_back(id, channel);
            assert(self@ =~= old(self)@.with(id, channel@));
        }
        OutgoingChannelMessage::Eof(ChannelEof { recipient_channel })
    }
}

/// A message for a channel of the client.
pub enum OutgoingChannelMessage<'a> {
    /// Data from a terminal.
    Data(ChannelData<'a>),
    /// There will be no more data.
    Eof(ChannelEof),
    /// The channel is closed.
    Close(ChannelClose),
}

/// What an [`OutgoingChannelMessage`] says.
pub enum OutgoingView {
    /// Data from a terminal.
    Data(ChannelDataView),
    /// There will be no more data for the channel.
    Eof(u32),
    /// The channel is closed.
    Close(u32),
}

impl View for OutgoingChannelMessage<'_> {
    type V = OutgoingView;

    open spec fn view(&self) -> OutgoingView {
        match *self {
            OutgoingChannelMessage::Data(data) => OutgoingView::Data(data@),
            OutgoingChannelMessage::Eof(eof) => OutgoingView::Eof(eof.recipient_channel),
            OutgoingChannelMessage::Close(close) => OutgoingView::Close(close.recipient_channel),
        }
    }
}

impl Encode for OutgoingChannelMessage<'_> {
    open spec fn wire(&self) -> Seq<u8> {
        match self@ {
            OutgoingView::Data(data) => data_wire(data),
            OutgoingView::Eof(id) => eof_wire(id),
            OutgoingView::Close(id) => close_wire(id),
        }
    }

    fn encode(&self, buffer: &mut Vec<u8>) {
        match self {
            OutgoingChannelMessage::Data(msg) => msg.encode(buffer),
            OutgoingChannelMessage::Eof(msg) => msg.encode(buffer),
            OutgoingChannelMessage::Close(msg) => msg.encode(buffer),
        }
    }
}

/// A message for a channel of the server.
pub enum IncomingChannelMessage<'a> {
    /// A channel is to be opened.
    Open(ChannelOpen<'a>),
    /// Something is asked for.
    Request(ChannelRequest<'a>),
    /// Data for a terminal.
    Data(ChannelData<'a>),
    /// The window is extended.
    WindowAdjust(ChannelWindowAdjust),
    /// There will be no more data.
    Eof(ChannelEof),
    /// The channel is closed.
    Close(ChannelClose),
}

/// What an [`IncomingChannelMessage`] says.
pub enum IncomingView {
    /// A channel is to be opened.
    Open(ChannelOpenView),
    /// Something is asked for.
    Request(ChannelRequestView),
    /// Data for a terminal.
    Data(ChannelDataView),
    /// The window is extended.
    WindowAdjust(ChannelWindowAdjust),
    /// There will be no more data.
    Eof(ChannelEof),
    /// The channel is closed.
    Close(ChannelClose),
}

impl View for IncomingChannelMessage<'_> {
    type V = IncomingView;

    open spec fn view(&self) -> IncomingView {
        match *self {
            IncomingChannelMessage::Open(open) => IncomingView::Open(open@),
            IncomingChannelMessage::Request(request) => IncomingView::Request(request@),
            IncomingChannelMessage::Data(data) => IncomingView::Data(data@),
            IncomingChannelMessage::WindowAdjust(adjust) => IncomingView::WindowAdjust(adjust),
            IncomingChannelMessage::Eof(eof) => IncomingView::Eof(eof),
            IncomingChannelMessage::Close(close) => IncomingView::Close(close),
        }
    }
}

/// The types of the messages for channels of the server.
pub open spec fn channel_message_types() -> Seq<MessageType> {
    seq![
        MessageType::ChannelOpen,
        MessageType::ChannelRequest,
        MessageType::ChannelData,
        MessageType::ChannelWindowAdjust,
        MessageType::ChannelEof,
        MessageType::ChannelClose,
    ]
}

impl IncomingChannelMessage<'_> {
    /// What the payload of a message of the given type says; nothing where the type is not one of
    /// those for channels.
    pub open spec fn parse(message_type: MessageType, payload: Seq<u8>) -> Option<
        Result<IncomingView, ProtoError>,
    > {
        match message_type {
            MessageType::ChannelOpen => Some(
                match ChannelOpen::parse(payload) {
                    Ok(open) => Ok(IncomingView::Open(open)),
                    Err(e) => Err(e),
                },
            ),
            MessageType::ChannelRequest => Some(
                match ChannelRequest::parse(payload) {
                    Ok(request) => Ok(IncomingView::Request(request)),
                    Err(e) => Err(e),
                },
            ),
            MessageType::ChannelData => Some(
                match ChannelData::parse(payload) {
                    Ok(data) => Ok(IncomingView::Data(data)),
                    Err(e) => Err(e),
                },
            ),
            MessageType::ChannelWindowAdjust => Some(
                match ChannelWindowAdjust::parse(payload) {
                    Ok(adjust) => Ok(IncomingView::WindowAdjust(adjust)),
                    Err(e) => Err(e),
                },
            ),
            MessageType::ChannelEof => Some(
                match ChannelEof::parse(payload) {
                    Ok(eof) => Ok(IncomingView::Eof(eof)),
                    Err(e) => Err(e),
                },
            ),
            MessageType::ChannelClose => Some(
                match ChannelClose::parse(payload) {
                    Ok(close) => Ok(IncomingView::Close(close)),
                    Err(e) => Err(e),
                },
            ),
            _ => None,
        }
    }
}

impl<'a> TryFrom<IncomingPacket<'a>> for IncomingChannelMessage<'a> {
    type Error = ProtoError;

    fn try_from(packet: IncomingPacket<'a>) -> (r: Result<Self, ProtoError>)
        ensures
            match IncomingChannelMessage::parse(packet.message_type, packet.payload@) {
                Some(parsed) => parsed == match r {
                    Ok(m) => Ok::<IncomingView, ProtoError>(m@),
                    Err(e) => Err::<IncomingView, ProtoError>(e),
                },
                None => unexpected(packet, channel_message_types(), r),
            },
    {
        match packet.message_type {
            MessageType::ChannelOpen => Ok(
                IncomingChannelMessage::Open(ChannelOpen::try_from(packet)?),
            ),
            MessageType::ChannelRequest => Ok(
                IncomingChannelMessage::Request(ChannelRequest::try_from(packet)?),
            ),
            MessageType::ChannelData => Ok(
                IncomingChannelMessage::Data(ChannelData::try_from(packet)?),
            ),
            MessageType::ChannelWindowAdjust => Ok(
                IncomingChannelMessage::WindowAdjust(ChannelWindowAdjust::try_from(packet)?),
            ),
            MessageType::ChannelEof => Ok(
                IncomingChannelMessage::Eof(ChannelEof::try_from(packet)?),
            ),
            MessageType::ChannelClose => Ok(
                IncomingChannelMessage::Close(ChannelClose::try_from(packet)?),
            ),
            _ => Err(
                ProtoError::UnexpectedMessage(
                    packet.message_type,
                    &[
                        MessageType::ChannelOpen,
                        MessageType::ChannelRequest,
                        MessageType::ChannelData,
                        MessageType::ChannelWindowAdjust,
                        MessageType::ChannelEof,
                        MessageType::ChannelClose,
                    ],
                ),
            ),
        }
    }
}

impl<'a> vstd::std_specs::convert::TryFromSpecImpl<IncomingPacket<'a>> for IncomingChannelMessage<'a> {
    open spec fn obeys_try_from_spec() -> bool {
        false
    }

    open spec fn try_from_spec(packet: IncomingPacket<'a>) -> Result<Self, ProtoError> {
        arbitrary()
    }
}

/// What is read from a terminal fits both the window and the packets that the client takes, so
/// that sending it uses up as much of the window and never more than there is.
pub proof fn reads_fit_the_window(channels: ChannelsView, id: u32, len: u32)
    requires
        polled(channels, id).1 matches TerminalStep::Read(limit) && len <= limit,
    ensures
        channels.channels.contains_key(id),
        len <= channels.channels[id].send_window,
        len <= channels.channels[id].maximum_packet_size,
{
}

/// As long as the client keeps to the window, at least half of it is open after its data was
/// taken in.
pub proof fn window_stays_open(
    before: ChannelsView,
    after: ChannelsView,
    data: ChannelDataView,
    write_before: WriteState,
    write_after: WriteState,
    taken: Option<Seq<u8>>,
)
    requires
        received(before, after, data, write_before, write_after, Ok(taken)),
    ensures
        after.channels.contains_key(data.recipient_channel),
        after.channels[data.recipient_channel].receive_window >= INITIAL_WINDOW_SIZE / 2,
{
}

/// The channel of a terminal that has ended is closed by the server with one message, and is gone
/// then if the client had closed it before. In that case it is the second such message, as
/// [`Channels::close()`] has answered the client with one already.
pub proof fn closed_on_both_sides(channels: ChannelsView, id: u32)
    requires
        channels.channels.contains_key(id),
        channels.channels[id].terminal == Some(TerminalStateView::Closing),
        !channels.channels[id].closed.sent,
    ensures
        polled(channels, id).1 == TerminalStep::Close(
            ChannelClose { recipient_channel: channels.channels[id].remote_id },
        ),
        channels.channels[id].closed.received ==> !polled(channels, id).0.channels.contains_key(id),
        !channels.channels[id].closed.received ==> {
            &&& polled(channels, id).0.channels.contains_key(id)
            &&& polled(channels, id).0.channels[id].closed.sent
            &&& polled(polled(channels, id).0, id).1 == TerminalStep::Skip
        },
{
}

/// Opening a channel leaves the other channels as they were.
pub proof fn opening_keeps_channels(channels: ChannelsView, open: ChannelOpenView, id: u32)
    requires
        channels.channels.contains_key(id),
    ensures
        opened(channels, open).0.channels.contains_key(id),
        opened(channels, open).0.channels[id] == channels.channels[id],
{
}

proof fn lemma_open_lengths(sender_channel: u32, id: u32)
    ensures
        open_failure_wire(
            sender_channel,
            ChannelOpenFailureReason::UnknownChannelType,
            "only 'session' channel type is supported"@,
        ).len() <= 128,
        open_failure_wire(
            sender_channel,
            ChannelOpenFailureReason::AdministrativelyProhibited,
            "channel ID already in use"@,
        ).len() <= 128,
{
    reveal_strlit("only 'session' channel type is supported");
    reveal_strlit("channel ID already in use");
    reveal_strlit("en-US");
    vstd::utf8::is_ascii_chars_encode_utf8("only 'session' channel type is supported"@);
    vstd::utf8::is_ascii_chars_encode_utf8("channel ID already in use"@);
    vstd::utf8::is_ascii_chars_encode_utf8("en-US"@);
    lemma_string_len(encode_utf8("only 'session' channel type is supported"@));
    lemma_string_len(encode_utf8("channel ID already in use"@));
    lemma_string_len(encode_utf8("en-US"@));
}

} // verus!
