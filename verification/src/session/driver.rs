//! What a session does for the packets of the client.

use vstd::prelude::*;

use crate::channels::{ChannelData, ChannelRequestTypeView, PtyReq, WindowChange};
use crate::crypto::Provider;
use crate::error::ProtoError;
use crate::handshake::{rekey_started, RekeyState};
use crate::io::{enqueued, lemma_less_room, lemma_ok, Encoder, WriteState};
use crate::key_exchange::Rekey;
use crate::packet::{type_wire, unexpected, Disconnect, DisconnectView, IncomingPacket, MessageType};
use crate::session::banner::{banner, banner_len_bound, request_banner, MAX_BANNER_LEN};
use crate::session::connections::{adjusted, banner_len, channel_message_types, closed};
use crate::session::connections::{ended, env_view, handled, opened, received, Channels};
use crate::session::connections::{ChannelsView, IncomingChannelMessage, IncomingView};
use crate::session::connections::{RequestAction, RequestActionView, INITIAL_WINDOW_SIZE};
use crate::session::dispatch::{dispatch, dispatched, SessionEvent, SessionEventView};

verus! {

/// What a session knows of its connection and its channels.
pub struct SessionCore {
    /// The state for new key exchanges.
    pub rekey: Rekey,
    /// The channels.
    pub channels: Channels,
    /// Whether post-quantum key exchange was negotiated.
    pub post_quantum_kx: bool,
}

/// What is to be done for a packet, besides sending what was enqueued.
pub enum SessionAction<'a> {
    /// Nothing more.
    Continue,
    /// The connection is to be closed, as the client wants.
    Disconnected(Result<Disconnect<'a>, ProtoError>),
    /// The key exchange is to be gone through with, after which `post_quantum_kx` is to be set.
    Rekey(RekeyState),
    /// A terminal is to be started for a channel; then [`Channels::shell_started()`] is to be
    /// called.
    Spawn {
        /// The channel.
        id: u32,
        /// Whether the client wants a reply.
        want_reply: bool,
        /// The terminal.
        pty_req: PtyReq<'static>,
        /// The environment variables.
        env: Vec<(String, String)>,
    },
    /// The terminal of a channel is to be resized; then [`Channels::finish_request()`] is to be
    /// called.
    Resize {
        /// The channel.
        id: u32,
        /// Whether the client wants a reply.
        want_reply: bool,
        /// The size.
        size: WindowChange,
    },
    /// The data is to be written to the terminal of its channel.
    Input(ChannelData<'a>),
}

/// Whether something was done, without what is to be done next.
pub open spec fn without_next(r: Result<SessionAction<'_>, ProtoError>) -> Result<(), ProtoError> {
    match r {
        Ok(_) => Ok(()),
        Err(e) => Err(e),
    }
}

/// Nothing more is to be done, if all went well.
pub open spec fn nothing_more(r: Result<SessionAction<'_>, ProtoError>) -> bool {
    r matches Ok(action) ==> action is Continue
}

/// What a message for a channel comes to.
pub open spec fn message_handled(
    before: ChannelsView,
    after: ChannelsView,
    message: IncomingView,
    client_identity: Seq<u8>,
    post_quantum_kx: bool,
    write_before: WriteState,
    write_after: WriteState,
    r: Result<SessionAction<'_>, ProtoError>,
) -> bool {
    match message {
        IncomingView::Open(open) => {
            &&& after == opened(before, open).0
            &&& enqueued(write_before, write_after, opened(before, open).1, without_next(r))
            &&& nothing_more(r)
        },
        IncomingView::Request(request) => {
            &&& handled(
                before,
                after,
                request,
                request_banner(request.request_type, client_identity, post_quantum_kx),
                write_before,
                write_after,
                match r {
                    Ok(SessionAction::Spawn { id: _, want_reply: _, pty_req, env }) => Ok(
                        RequestActionView::Spawn(pty_req@, env_view(env@)),
                    ),
                    Ok(SessionAction::Resize { id: _, want_reply: _, size }) => Ok(
                        RequestActionView::Resize(size),
                    ),
                    Ok(_) => Ok(RequestActionView::Done),
                    Err(e) => Err(e),
                },
            )
            &&& match r {
                Ok(SessionAction::Spawn { id, want_reply, .. }) => id == request.recipient_channel
                    && want_reply == request.want_reply,
                Ok(SessionAction::Resize { id, want_reply, .. }) => id == request.recipient_channel
                    && want_reply == request.want_reply,
                _ => nothing_more(r),
            }
        },
        IncomingView::Data(data) => {
            &&& received(
                before,
                after,
                data,
                write_before,
                write_after,
                match r {
                    Ok(SessionAction::Input(input)) => Ok(Some(input@.data)),
                    Ok(_) => Ok(None),
                    Err(e) => Err(e),
                },
            )
            &&& match r {
                Ok(SessionAction::Input(input)) => input@ == data,
                _ => nothing_more(r),
            }
        },
        IncomingView::WindowAdjust(adjust) => {
            &&& write_after == write_before
            &&& match adjusted(before, adjust) {
                Ok(channels) => after == channels && r == Ok::<SessionAction<'_>, ProtoError>(
                    SessionAction::Continue,
                ),
                Err(e) => after == before && r == Err::<SessionAction<'_>, ProtoError>(e),
            }
        },
        IncomingView::Eof(eof) => {
            &&& write_after == write_before
            &&& after == before
            &&& without_next(r) == ended(before, eof)
            &&& nothing_more(r)
        },
        IncomingView::Close(close) => {
            &&& closed(before, after, close, write_before, write_after, without_next(r))
            &&& nothing_more(r)
        },
    }
}

/// What a packet comes to in a session.
pub open spec fn session_step(
    before: SessionCore,
    after: SessionCore,
    packet: IncomingPacket<'_>,
    provider: Provider<'_>,
    write_before: WriteState,
    write_after: WriteState,
    r: Result<SessionAction<'_>, ProtoError>,
) -> bool {
    let unchanged = after.channels@ == before.channels@ && write_after == write_before;
    &&& after.rekey == before.rekey
    &&& after.post_quantum_kx == before.post_quantum_kx
    &&& match dispatched(packet.message_type, packet.payload@) {
        None => unchanged && unexpected(packet, channel_message_types(), r),
        Some(Err(e)) => unchanged && r == Err::<SessionAction<'_>, ProtoError>(e),
        Some(Ok(SessionEventView::Ignored)) => unchanged && r == Ok::<
            SessionAction<'_>,
            ProtoError,
        >(SessionAction::Continue),
        Some(Ok(SessionEventView::Disconnected(said))) => {
            &&& unchanged
            &&& r matches Ok(SessionAction::Disconnected(disconnect))
            &&& said == match disconnect {
                Ok(disconnect) => Ok::<DisconnectView, ProtoError>(disconnect@),
                Err(e) => Err::<DisconnectView, ProtoError>(e),
            }
        },
        Some(Ok(SessionEventView::Rekey(_, _))) => {
            &&& unchanged
            &&& match r {
                Ok(SessionAction::Rekey(state)) => rekey_started(
                    before.rekey,
                    packet,
                    provider,
                    Ok(state),
                ),
                Ok(_) => false,
                Err(e) => rekey_started(before.rekey, packet, provider, Err(e)),
            }
        },
        Some(Ok(SessionEventView::RefuseRequest)) => {
            &&& after.channels@ == before.channels@
            &&& enqueued(
                write_before,
                write_after,
                type_wire(MessageType::RequestFailure),
                without_next(r),
            )
            &&& nothing_more(r)
        },
        Some(Ok(SessionEventView::Channel(message))) => message_handled(
            before.channels@,
            after.channels@,
            message,
            before.rekey.identities.client@,
            before.post_quantum_kx,
            write_before,
            write_after,
            r,
        ),
    }
}

impl SessionCore {
    /// Handle a packet from the client.
    pub fn handle<'a>(
        &mut self,
        packet: IncomingPacket<'a>,
        encoder: &mut Encoder<'_>,
        provider: Provider<'_>,
    ) -> (r: Result<SessionAction<'a>, ProtoError>)
        requires
            old(encoder).write.has_room(2, (16 + MAX_BANNER_LEN) as nat),
        ensures
            session_step(
                *old(self),
                *final(self),
                packet,
                provider,
                *old(encoder).write,
                *final(encoder).write,
                r,
            ),
            *final(final(encoder).write) == *final(old(encoder).write),
    {
        match dispatch(packet) {
            Err(e) => Err(e),
            Ok(SessionEvent::Ignored) => Ok(SessionAction::Continue),
            Ok(SessionEvent::Disconnected(disconnect)) => Ok(
                SessionAction::Disconnected(disconnect),
            ),
            Ok(SessionEvent::Rekey(packet)) => {
                match RekeyState::start(packet, &self.rekey, provider) {
                    Ok(state) => Ok(SessionAction::Rekey(state)),
                    Err(e) => Err(e),
                }
            },
            Ok(SessionEvent::RefuseRequest) => {
                proof {
                    lemma_less_room(*encoder.write, 2, (16 + MAX_BANNER_LEN) as nat, 1, 1);
                }
                let result = encoder.enqueue(&MessageType::RequestFailure);
                match result {
                    Ok(()) => {
                        proof {
                            lemma_ok(result);
                        }
                        Ok(SessionAction::Continue)
                    },
                    Err(e) => Err(e),
                }
            },
            Ok(SessionEvent::Channel(message)) => self.handle_message(message, encoder),
        }
    }

    /// Handle a message for a channel.
    fn handle_message<'a>(
        &mut self,
        message: IncomingChannelMessage<'a>,
        encoder: &mut Encoder<'_>,
    ) -> (r: Result<SessionAction<'a>, ProtoError>)
        requires
            old(encoder).write.has_room(2, (16 + MAX_BANNER_LEN) as nat),
        ensures
            final(self).rekey == old(self).rekey,
            final(self).post_quantum_kx == old(self).post_quantum_kx,
            message_handled(
                old(self).channels@,
                final(self).channels@,
                message@,
                old(self).rekey.identities.client@,
                old(self).post_quantum_kx,
                *old(encoder).write,
                *final(encoder).write,
                r,
            ),
            *final(final(encoder).write) == *final(old(encoder).write),
    {
        proof {
            lemma_less_room(*encoder.write, 2, (16 + MAX_BANNER_LEN) as nat, 1, 128);
            lemma_less_room(*encoder.write, 2, (16 + MAX_BANNER_LEN) as nat, 1, 9);
            lemma_less_room(*encoder.write, 2, (16 + MAX_BANNER_LEN) as nat, 1, 5);
        }
        match message {
            IncomingChannelMessage::Open(open) => {
                let result = self.channels.open(open, encoder);
                continued(result)
            },
            IncomingChannelMessage::Request(request) => {
                let id: u32 = request.recipient_channel;
                let want_reply = request.want_reply;
                let banner = banner(&request, self.rekey.client_identity(), self.post_quantum_kx);
                let text = match &banner {
                    Some(text) => Some(text.as_str()),
                    None => None,
                };
                proof {
                    if let ChannelRequestTypeView::PtyReq(pty) = request@.request_type {
                        banner_len_bound(pty.cols, self.rekey.identities.client@);
                    }
                    lemma_less_room(
                        *encoder.write,
                        2,
                        (16 + MAX_BANNER_LEN) as nat,
                        2,
                        16 + banner_len(text),
                    );
                }
                match self.channels.request(request, encoder, text) {
                    Ok(RequestAction::Done) => Ok(SessionAction::Continue),
                    Ok(RequestAction::Spawn(pty_req, env)) => Ok(
                        SessionAction::Spawn { id, want_reply, pty_req, env },
                    ),
                    Ok(RequestAction::Resize(size)) => Ok(
                        SessionAction::Resize { id, want_reply, size },
                    ),
                    Err(e) => Err(e),
                }
            },
            IncomingChannelMessage::Data(data) => {
                let taken = match self.channels.data(&data, encoder) {
                    Ok(taken) => taken.is_some(),
                    Err(e) => return Err(e),
                };
                Ok(
                    if taken {
                        SessionAction::Input(data)
                    } else {
                        SessionAction::Continue
                    },
                )
            },
            IncomingChannelMessage::WindowAdjust(adjust) => {
                let result = self.channels.adjust_window(&adjust);
                continued(result)
            },
            IncomingChannelMessage::Eof(eof) => {
                let result = self.channels.eof(&eof);
                continued(result)
            },
            IncomingChannelMessage::Close(close) => {
                let result = self.channels.close(&close, encoder);
                continued(result)
            },
        }
    }
}

/// The channel that a message is for.
pub open spec fn concerned(channels: ChannelsView, message: IncomingView) -> u32 {
    match message {
        IncomingView::Open(_) => channels.next_id,
        IncomingView::Request(request) => request.recipient_channel,
        IncomingView::Data(data) => data.recipient_channel,
        IncomingView::WindowAdjust(adjust) => adjust.recipient_channel,
        IncomingView::Eof(eof) => eof.recipient_channel,
        IncomingView::Close(close) => close.recipient_channel,
    }
}

/// A message for one channel leaves all the others as they were.
pub proof fn channels_are_independent(
    before: ChannelsView,
    after: ChannelsView,
    message: IncomingView,
    client_identity: Seq<u8>,
    post_quantum_kx: bool,
    write_before: WriteState,
    write_after: WriteState,
    r: Result<SessionAction<'_>, ProtoError>,
    other: u32,
)
    requires
        message_handled(
            before,
            after,
            message,
            client_identity,
            post_quantum_kx,
            write_before,
            write_after,
            r,
        ),
        other != concerned(before, message),
    ensures
        after.channels.contains_key(other) == before.channels.contains_key(other),
        before.channels.contains_key(other) ==> after.channels[other] == before.channels[other],
{
}

/// No client may send more than the initial window at once.
pub open spec fn windows_bounded(channels: ChannelsView) -> bool {
    forall|id: u32| #[trigger]
        channels.channels.contains_key(id) ==> channels.channels[id].receive_window
            <= INITIAL_WINDOW_SIZE
}

/// Whatever packet comes, no client may ever send more than the initial window at once.
pub proof fn windows_stay_bounded(
    before: SessionCore,
    after: SessionCore,
    packet: IncomingPacket<'_>,
    provider: Provider<'_>,
    write_before: WriteState,
    write_after: WriteState,
    r: Result<SessionAction<'_>, ProtoError>,
)
    requires
        windows_bounded(before.channels@),
        session_step(before, after, packet, provider, write_before, write_after, r),
    ensures
        windows_bounded(after.channels@),
{
    if let Some(Ok(SessionEventView::Channel(message))) = dispatched(
        packet.message_type,
        packet.payload@,
    ) {
        let id = concerned(before.channels@, message);
        assert forall|other: u32| #[trigger] after.channels@.channels.contains_key(other) implies
            after.channels@.channels[other].receive_window <= INITIAL_WINDOW_SIZE by {
            if other != id {
                channels_are_independent(
                    before.channels@,
                    after.channels@,
                    message,
                    before.rekey.identities.client@,
                    before.post_quantum_kx,
                    write_before,
                    write_after,
                    r,
                    other,
                );
                assert(before.channels@.channels.contains_key(other));
            } else {
                assert(before.channels@.channels.contains_key(id)
                    ==> before.channels@.channels[id].receive_window <= INITIAL_WINDOW_SIZE);
            }
        }
    }
}

/// Nothing more is to be done, if all went well.
fn continued<'a>(result: Result<(), ProtoError>) -> (r: Result<SessionAction<'a>, ProtoError>)
    ensures
        nothing_more(r),
        without_next(r) == result,
{
    match result {
        Ok(()) => {
            proof {
                lemma_ok(result);
            }
            Ok(SessionAction::Continue)
        },
        Err(e) => Err(e),
    }
}

} // verus!
