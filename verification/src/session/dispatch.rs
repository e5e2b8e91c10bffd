//! What the packets of a session lead to.

use vstd::prelude::*;

use crate::error::ProtoError;
use crate::packet::{unexpected, Disconnect, DisconnectView, GlobalRequest, IncomingPacket};
use crate::packet::MessageType;
use crate::session::connections::{channel_message_types, IncomingChannelMessage, IncomingView};

verus! {

/// What is to be done for a packet.
pub enum SessionEvent<'a> {
    /// Nothing.
    Ignored,
    /// The client has disconnected, or tried to.
    Disconnected(Result<Disconnect<'a>, ProtoError>),
    /// The client wants new keys.
    Rekey(IncomingPacket<'a>),
    /// A global request is to be refused, and the client wants to know.
    RefuseRequest,
    /// A message for a channel.
    Channel(IncomingChannelMessage<'a>),
}

/// What a [`SessionEvent`] stands for.
pub enum SessionEventView {
    /// Nothing is to be done.
    Ignored,
    /// The client has disconnected, or tried to.
    Disconnected(Result<DisconnectView, ProtoError>),
    /// The client wants new keys; the message type and the payload of its packet.
    Rekey(MessageType, Seq<u8>),
    /// A global request is to be refused, and the client wants to know.
    RefuseRequest,
    /// A message for a channel.
    Channel(IncomingView),
}

impl View for SessionEvent<'_> {
    type V = SessionEventView;

    open spec fn view(&self) -> SessionEventView {
        match *self {
            SessionEvent::Ignored => SessionEventView::Ignored,
            SessionEvent::Disconnected(Ok(disconnect)) => SessionEventView::Disconnected(
                Ok(disconnect@),
            ),
            SessionEvent::Disconnected(Err(e)) => SessionEventView::Disconnected(Err(e)),
            SessionEvent::Rekey(packet) => SessionEventView::Rekey(
                packet.message_type,
                packet.payload@,
            ),
            SessionEvent::RefuseRequest => SessionEventView::RefuseRequest,
            SessionEvent::Channel(message) => SessionEventView::Channel(message@),
        }
    }
}

/// What is to be done for a packet with the given message type and payload; nothing where it is
/// not expected.
pub open spec fn dispatched(message_type: MessageType, payload: Seq<u8>) -> Option<
    Result<SessionEventView, ProtoError>,
> {
    match message_type {
        MessageType::Ignore | MessageType::Debug => Some(Ok(SessionEventView::Ignored)),
        MessageType::Disconnect => Some(
            Ok(SessionEventView::Disconnected(Disconnect::parse(payload))),
        ),
        // The client can start a rekey at any point by sending a fresh key exchange init
        // (RFC 4253 section 9).
        MessageType::KeyExchangeInit => Some(Ok(SessionEventView::Rekey(message_type, payload))),
        MessageType::GlobalRequest => Some(
            match GlobalRequest::parse(payload) {
                Err(e) => Err(e),
                Ok(request) => if request.want_reply {
                    Ok(SessionEventView::RefuseRequest)
                } else {
                    Ok(SessionEventView::Ignored)
                },
            },
        ),
        MessageType::RequestSuccess | MessageType::RequestFailure => Some(
            Ok(SessionEventView::Ignored),
        ),
        _ => match IncomingChannelMessage::parse(message_type, payload) {
            None => None,
            Some(Err(e)) => Some(Err(e)),
            Some(Ok(message)) => Some(Ok(SessionEventView::Channel(message))),
        },
    }
}

/// What is to be done for a packet.
pub fn dispatch<'a>(packet: IncomingPacket<'a>) -> (r: Result<SessionEvent<'a>, ProtoError>)
    ensures
        match dispatched(packet.message_type, packet.payload@) {
            Some(outcome) => outcome == match r {
                Ok(event) => Ok::<SessionEventView, ProtoError>(event@),
                Err(e) => Err::<SessionEventView, ProtoError>(e),
            },
            None => unexpected(packet, channel_message_types(), r),
        },
        r matches Ok(SessionEvent::Rekey(started)) ==> started == packet,
{
    match packet.message_type {
        MessageType::Ignore | MessageType::Debug => Ok(SessionEvent::Ignored),
        MessageType::Disconnect => Ok(SessionEvent::Disconnected(Disconnect::try_from(packet))),
        MessageType::KeyExchangeInit => Ok(SessionEvent::Rekey(packet)),
        MessageType::GlobalRequest => {
            let request = GlobalRequest::try_from(packet)?;
            if request.want_reply {
                Ok(SessionEvent::RefuseRequest)
            } else {
                Ok(SessionEvent::Ignored)
            }
        },
        MessageType::RequestSuccess | MessageType::RequestFailure => Ok(SessionEvent::Ignored),
        _ => Ok(SessionEvent::Channel(IncomingChannelMessage::try_from(packet)?)),
    }
}

} // verus!
