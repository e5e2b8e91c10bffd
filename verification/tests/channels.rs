use std::borrow::Cow;
use std::collections::BTreeMap;

use oxish::channels::{
    ChannelClose, ChannelData, ChannelEof, ChannelOpen, ChannelRequest, ChannelRequestType,
    ChannelWindowAdjust, Env, Mode, PtyReq, WindowChange,
};
use oxish::crypto::{RandomSource, SecureRandom};
use oxish::error::{CryptoError, ProtoError};
use oxish::io::{Encoder, ReadState, WriteState};
use oxish::named::ChannelType;
use oxish::packet::{IncomingPacket, MessageType};
use oxish::session::connections::{
    Channels, IncomingChannelMessage, OutgoingChannelMessage, RequestAction, TerminalStep,
    INITIAL_WINDOW_SIZE,
};
use oxish::session::terminal::{
    mode_action, requested_size, terminal_actions, terminal_env, window_size, ModeAction,
    SpecialCode, TerminalFlag,
};
use oxish::wire::{Completion, Decode, Encode};

struct Zeros;

impl SecureRandom for Zeros {
    fn fill(&self, bytes: &mut [u8]) -> Result<(), CryptoError> {
        bytes.fill(0);
        Ok(())
    }
}

fn wire(value: &(impl Encode + ?Sized)) -> Vec<u8> {
    let mut buf = Vec::new();
    value.encode(&mut buf);
    buf
}

fn string(bytes: &[u8]) -> Vec<u8> {
    wire(bytes)
}

fn packet(message_type: MessageType, payload: &[u8]) -> IncomingPacket<'_> {
    IncomingPacket {
        sequence_number: 0,
        message_type,
        payload,
    }
}

/// A session's channels and the messages that they send.
struct Session {
    channels: Channels,
    write: WriteState,
}

impl Session {
    fn new() -> Self {
        Session {
            channels: Channels::default(),
            write: WriteState::new(RandomSource(&Zeros)),
        }
    }

    /// The payloads enqueued since the last call.
    fn sent(&mut self) -> Vec<Vec<u8>> {
        let mut read = ReadState::default();
        read.buf.extend_from_slice(self.write.buffered());
        self.write.clear();
        let mut out = Vec::new();
        while let Ok(Completion::Complete((number, length))) = read.poll_packet() {
            let packet = read.decode_packet(number, length).unwrap();
            let mut payload = vec![u8::from(packet.message_type)];
            payload.extend_from_slice(packet.payload);
            out.push(payload);
        }
        out
    }

    fn open(&mut self, sender_channel: u32, window: u32) {
        let open = ChannelOpen {
            channel_type: ChannelType::Session,
            sender_channel,
            initial_window_size: window,
            maximum_packet_size: 1000,
        };
        self.channels
            .open(open, &mut Encoder::new(&mut self.write))
            .unwrap();
    }

    fn request(
        &mut self,
        id: u32,
        request_type: ChannelRequestType<'_>,
        banner: Option<&str>,
    ) -> Result<RequestAction, ProtoError> {
        let request = ChannelRequest {
            recipient_channel: id,
            request_type,
            want_reply: true,
        };
        self.channels
            .request(request, &mut Encoder::new(&mut self.write), banner)
    }

    /// Open a channel and start its shell.
    fn running(&mut self, sender_channel: u32, window: u32) {
        let id = self.channels.next_id;
        self.open(sender_channel, window);
        self.request(id, pty(), None).unwrap();
        let action = self.request(id, ChannelRequestType::Shell, None).unwrap();
        assert!(matches!(action, RequestAction::Spawn(..)));
        self.channels
            .shell_started(id, true, &mut Encoder::new(&mut self.write), None)
            .unwrap();
        self.sent();
    }
}

fn pty() -> ChannelRequestType<'static> {
    ChannelRequestType::PtyReq(PtyReq {
        term: Cow::Borrowed("xterm"),
        cols: 80,
        rows: 24,
        width_px: 0,
        height_px: 0,
        terminal_modes: BTreeMap::new(),
    })
}

fn numbers(message: u8, numbers: &[u32]) -> Vec<u8> {
    let mut out = vec![message];
    for number in numbers {
        out.extend(number.to_be_bytes());
    }
    out
}

#[test]
fn channels_open() {
    let mut session = Session::new();
    session.open(7, 500);
    session.open(8, 500);
    assert_eq!(
        session.sent(),
        [
            numbers(91, &[7, 0, 0, 65_472]),
            numbers(91, &[8, 1, 0, 65_472])
        ]
    );
    assert_eq!(session.channels.ids(), [0, 1]);

    let open = ChannelOpen {
        channel_type: ChannelType::Unknown("x11"),
        sender_channel: 9,
        initial_window_size: 0,
        maximum_packet_size: 0,
    };
    session
        .channels
        .open(open, &mut Encoder::new(&mut session.write))
        .unwrap();
    let sent = session.sent();
    assert_eq!(sent.len(), 1);
    assert_eq!(sent[0][..9], numbers(92, &[9, 3]));
    assert_eq!(session.channels.ids(), [0, 1]);

    // The identifier is taken
    session.channels.next_id = 1;
    session.open(10, 500);
    let sent = session.sent();
    assert_eq!(sent[0][..9], numbers(92, &[10, 1]));
    assert_eq!(session.channels.next_id, 2);

    session.channels.next_id = u32::MAX;
    session.open(11, 500);
    assert_eq!(session.channels.next_id, 0);
    assert_eq!(session.channels.ids(), [0, 1, u32::MAX]);
}

#[test]
fn shells_need_terminals() {
    let mut session = Session::new();
    session.open(7, 500);
    session.sent();
    assert!(matches!(
        session.request(0, ChannelRequestType::Shell, None),
        Err(ProtoError::InvalidPacket("shell request without prior pty-req"))
    ));
    assert!(matches!(
        session.request(5, ChannelRequestType::Shell, None),
        Err(ProtoError::InvalidPacket("channel request for unknown channel ID"))
    ));
    assert!(matches!(
        session.request(0, pty(), None),
        Ok(RequestAction::Done)
    ));
    assert_eq!(session.sent(), [numbers(99, &[7])]);
    let Ok(RequestAction::Spawn(request, env)) =
        session.request(0, ChannelRequestType::Shell, None)
    else {
        panic!("no shell");
    };
    assert_eq!(request.term, "xterm");
    assert!(env.is_empty());
    assert!(session.sent().is_empty());
    session
        .channels
        .shell_started(0, true, &mut Encoder::new(&mut session.write), None)
        .unwrap();
    assert_eq!(
        session.sent(),
        [
            numbers(93, &[7, INITIAL_WINDOW_SIZE]),
            numbers(99, &[7])
        ]
    );
    assert_eq!(INITIAL_WINDOW_SIZE, 1_048_576);
}

#[test]
fn banners_take_room_in_the_window() {
    let mut session = Session::new();
    session.open(7, 9);
    session.sent();
    session.request(0, pty(), Some("banner")).unwrap();
    let mut data = numbers(94, &[7]);
    data.extend(string(b"banner"));
    assert_eq!(session.sent(), [numbers(99, &[7]), data]);
    assert_eq!(session.channels.channels[&0].send_window, 3);
    // No room left for another
    session.request(0, pty(), Some("banner")).unwrap();
    assert_eq!(session.sent(), [numbers(99, &[7])]);
    assert_eq!(session.channels.channels[&0].send_window, 3);
}

#[test]
fn environment_variables_are_filtered() {
    let mut session = Session::new();
    session.open(7, 500);
    session.sent();
    let mut set = |session: &mut Session, name: &str| {
        session
            .request(0, ChannelRequestType::Env(Env { name, value: "v" }), None)
            .unwrap();
        session.sent()
    };
    let accepted = [numbers(99, &[7])];
    let refused = [numbers(100, &[7])];
    assert_eq!(set(&mut session, "LANG"), accepted);
    assert_eq!(set(&mut session, "TZ"), accepted);
    assert_eq!(set(&mut session, "LC_ALL"), accepted);
    assert_eq!(set(&mut session, "PATH"), refused);
    assert_eq!(set(&mut session, "LC"), refused);
    assert_eq!(set(&mut session, "LANGUAGE"), refused);
    for _ in 3..32 {
        assert_eq!(set(&mut session, "LC_X"), accepted);
    }
    assert_eq!(set(&mut session, "LC_X"), refused);
    assert_eq!(session.channels.channels[&0].env.len(), 32);
    assert_eq!(
        session.channels.channels[&0].env[0],
        ("LANG".to_owned(), "v".to_owned())
    );
}

#[test]
fn unsupported_requests_are_refused() {
    let mut session = Session::new();
    session.open(7, 500);
    session.sent();
    for request in [
        ChannelRequestType::AuthAgentReq,
        ChannelRequestType::Unknown("exec"),
    ] {
        assert!(matches!(
            session.request(0, request, Some("banner")),
            Ok(RequestAction::Done)
        ));
        assert_eq!(session.sent(), [numbers(100, &[7])]);
    }
    let change = WindowChange {
        cols: 1,
        rows: 2,
        width_px: 3,
        height_px: 4,
    };
    assert!(matches!(
        session.request(0, ChannelRequestType::WindowChange(change), None),
        Ok(RequestAction::Done)
    ));
    assert_eq!(session.sent(), [numbers(99, &[7])]);
}

#[test]
fn running_terminals_are_resized() {
    let mut session = Session::new();
    session.running(7, 500);
    let change = WindowChange {
        cols: 1,
        rows: 2,
        width_px: 3,
        height_px: 4,
    };
    let Ok(RequestAction::Resize(change)) =
        session.request(0, ChannelRequestType::WindowChange(change), None)
    else {
        panic!("not resized");
    };
    assert_eq!(change.cols, 1);
    assert!(session.sent().is_empty());
    session
        .channels
        .finish_request(0, true, &mut Encoder::new(&mut session.write), None)
        .unwrap();
    assert_eq!(session.sent(), [numbers(99, &[7])]);
}

#[test]
fn windows_of_the_server() {
    let mut session = Session::new();
    session.running(7, 500);
    let half = vec![1; INITIAL_WINDOW_SIZE as usize / 2];
    let mut data = ChannelData {
        recipient_channel: 0,
        data: Cow::Borrowed(&half),
    };
    let got = session
        .channels
        .data(&data, &mut Encoder::new(&mut session.write))
        .unwrap();
    assert_eq!(got, Some(&half[..]));
    // Exactly half of the window is left
    assert!(session.sent().is_empty());
    data.data = Cow::Borrowed(b"x");
    session
        .channels
        .data(&data, &mut Encoder::new(&mut session.write))
        .unwrap();
    assert_eq!(
        session.sent(),
        [numbers(93, &[7, INITIAL_WINDOW_SIZE / 2 + 1])]
    );
    assert_eq!(
        session.channels.channels[&0].receive_window,
        INITIAL_WINDOW_SIZE
    );
    let more = vec![1; INITIAL_WINDOW_SIZE as usize + 1];
    data.data = Cow::Borrowed(&more);
    assert!(matches!(
        session
            .channels
            .data(&data, &mut Encoder::new(&mut session.write)),
        Err(ProtoError::InvalidPacket("channel data exceeds receive window"))
    ));
    data.recipient_channel = 1;
    assert!(matches!(
        session
            .channels
            .data(&data, &mut Encoder::new(&mut session.write)),
        Err(ProtoError::InvalidPacket("channel data for unknown channel ID"))
    ));
}

#[test]
fn channels_do_not_disturb_each_other() {
    let mut session = Session::new();
    session.running(7, 10);
    session.running(8, 20);
    let data = ChannelData {
        recipient_channel: 0,
        data: Cow::Borrowed(b"input"),
    };
    session
        .channels
        .data(&data, &mut Encoder::new(&mut session.write))
        .unwrap();
    session.channels.terminal_output(0, vec![1; 4]);
    session
        .channels
        .close(
            &ChannelClose { recipient_channel: 0 },
            &mut Encoder::new(&mut session.write),
        )
        .unwrap();
    let (first, second) = (&session.channels.channels[&0], &session.channels.channels[&1]);
    assert_eq!(first.receive_window, INITIAL_WINDOW_SIZE - 5);
    assert_eq!(first.send_window, 6);
    assert!(first.closed.received);
    assert_eq!(second.receive_window, INITIAL_WINDOW_SIZE);
    assert_eq!(second.send_window, 20);
    assert!(!second.closed.received);
}

#[test]
fn windows_of_the_client() {
    let mut session = Session::new();
    session.running(7, 10);
    assert!(matches!(session.channels.poll_channel(0), TerminalStep::Read(10)));
    let out = session.channels.terminal_output(0, vec![1; 10]);
    let mut expected = numbers(94, &[7]);
    expected.extend(string(&[1; 10]));
    assert_eq!(wire(&out), expected);
    // The window is used up
    assert!(matches!(session.channels.poll_channel(0), TerminalStep::Skip));
    let adjust = |bytes_to_add| ChannelWindowAdjust {
        recipient_channel: 0,
        bytes_to_add,
    };
    session.channels.adjust_window(&adjust(5000)).unwrap();
    assert!(matches!(session.channels.poll_channel(0), TerminalStep::Read(1000)));
    session.channels.adjust_window(&adjust(u32::MAX)).unwrap();
    assert_eq!(session.channels.channels[&0].send_window, u32::MAX);
    let unknown = ChannelWindowAdjust {
        recipient_channel: 3,
        bytes_to_add: 1,
    };
    assert!(matches!(
        session.channels.adjust_window(&unknown),
        Err(ProtoError::InvalidPacket("channel window adjust for unknown channel ID"))
    ));
}

#[test]
fn channels_close_after_the_terminal() {
    let mut session = Session::new();
    session.running(7, 10);
    let ended = session.channels.terminal_ended(0);
    assert!(matches!(ended, OutgoingChannelMessage::Eof(_)));
    assert_eq!(wire(&ended), numbers(96, &[7]));
    let TerminalStep::Close(close) = session.channels.poll_channel(0) else {
        panic!("not closed");
    };
    assert_eq!(wire(&close), numbers(97, &[7]));
    assert!(matches!(session.channels.poll_channel(0), TerminalStep::Skip));
    session
        .channels
        .close(
            &ChannelClose { recipient_channel: 0 },
            &mut Encoder::new(&mut session.write),
        )
        .unwrap();
    assert!(session.sent().is_empty());
    assert!(session.channels.ids().is_empty());
}

#[test]
fn channels_close_before_the_terminal() {
    let mut session = Session::new();
    session.running(7, 10);
    let close = ChannelClose { recipient_channel: 0 };
    session
        .channels
        .close(&close, &mut Encoder::new(&mut session.write))
        .unwrap();
    assert_eq!(session.sent(), [numbers(97, &[7])]);
    assert_eq!(session.channels.ids(), [0]);
    session.channels.terminal_ended(0);
    assert!(matches!(session.channels.poll_channel(0), TerminalStep::Close(_)));
    assert!(session.channels.ids().is_empty());
    // A second one is for an unknown channel
    session
        .channels
        .close(&close, &mut Encoder::new(&mut session.write))
        .unwrap();
    assert!(session.sent().is_empty());
    assert!(matches!(
        session.channels.eof(&ChannelEof { recipient_channel: 0 }),
        Err(ProtoError::InvalidPacket("channel eof for unknown channel ID"))
    ));
}

#[test]
fn channel_messages_round_trip() {
    let data = wire(&ChannelData {
        recipient_channel: 3,
        data: Cow::Borrowed(b"text"),
    });
    let read = ChannelData::try_from(packet(MessageType::ChannelData, &data[1..])).unwrap();
    assert_eq!(read.recipient_channel, 3);
    assert_eq!(*read.data, *b"text");
    let adjust = wire(&ChannelWindowAdjust {
        recipient_channel: 3,
        bytes_to_add: 9,
    });
    assert!(matches!(
        IncomingChannelMessage::try_from(packet(MessageType::ChannelWindowAdjust, &adjust[1..])),
        Ok(IncomingChannelMessage::WindowAdjust(ChannelWindowAdjust {
            recipient_channel: 3,
            bytes_to_add: 9,
        }))
    ));
    let eof = wire(&ChannelEof { recipient_channel: 4 });
    assert!(matches!(
        IncomingChannelMessage::try_from(packet(MessageType::ChannelEof, &eof[1..])),
        Ok(IncomingChannelMessage::Eof(ChannelEof { recipient_channel: 4 }))
    ));
    let close = wire(&ChannelClose { recipient_channel: 4 });
    assert!(matches!(
        IncomingChannelMessage::try_from(packet(MessageType::ChannelClose, &close[1..])),
        Ok(IncomingChannelMessage::Close(ChannelClose { recipient_channel: 4 }))
    ));
    assert!(matches!(
        IncomingChannelMessage::try_from(packet(MessageType::NewKeys, &[])),
        Err(ProtoError::UnexpectedMessage(MessageType::NewKeys, _))
    ));
}

#[test]
fn channel_requests_are_read() {
    let mut open = string(b"session");
    open.extend([0, 0, 0, 1, 0, 0, 0, 2, 0, 0, 0, 3]);
    let open = ChannelOpen::try_from(packet(MessageType::ChannelOpen, &open)).unwrap();
    assert_eq!(open.sender_channel, 1);
    assert_eq!(open.initial_window_size, 2);
    assert_eq!(open.maximum_packet_size, 3);

    let mut request = vec![0, 0, 0, 5];
    request.extend(string(b"pty-req"));
    request.push(1);
    request.extend(string(b"vt100"));
    request.extend([0, 0, 0, 80, 0, 0, 0, 24, 0, 0, 0, 1, 0, 0, 0, 2]);
    request.extend(string(&[53, 0, 0, 0, 1, 1, 0, 0, 0, 3, 53, 0, 0, 0, 0, 0]));
    let read = ChannelRequest::try_from(packet(MessageType::ChannelRequest, &request)).unwrap();
    assert_eq!(read.recipient_channel, 5);
    assert!(read.want_reply);
    let ChannelRequestType::PtyReq(pty) = read.request_type else {
        panic!("not a terminal");
    };
    assert_eq!(pty.term, "vt100");
    assert_eq!((pty.cols, pty.rows), (80, 24));
    assert_eq!((pty.width_px, pty.height_px), (1, 2));
    assert_eq!(pty.terminal_modes, BTreeMap::from([(1, 3), (53, 0)]));
    assert_eq!(
        BTreeMap::<u8, u32>::decode(&string(&[200, 0, 0, 0, 1, 0])).map(|_| ()).is_err(),
        true
    );
    assert!(matches!(
        BTreeMap::<u8, u32>::decode(&string(&[])),
        Err(ProtoError::Incomplete(Some(1)))
    ));

    let mut request = vec![0, 0, 0, 5];
    request.extend(string(b"exec"));
    request.push(0);
    let read = ChannelRequest::try_from(packet(MessageType::ChannelRequest, &request)).unwrap();
    assert!(matches!(read.request_type, ChannelRequestType::Unknown("exec")));
}

#[test]
fn modes_and_opcodes() {
    let mut known = 0;
    for opcode in 0..=u8::MAX {
        if let Some(mode) = Mode::from_opcode(opcode) {
            assert_eq!(mode.opcode(), opcode);
            known += 1;
        }
    }
    assert!(known > 50);
    assert!(Mode::from_opcode(0).is_none());
    assert!(matches!(Mode::from_opcode(53), Some(Mode::Echo)));
}

#[test]
fn modes_change_terminals() {
    assert_eq!(
        mode_action(Mode::VIntr, 0x103),
        ModeAction::SetCode(SpecialCode::Intr, 3)
    );
    assert_eq!(
        mode_action(Mode::VFlush, 15),
        ModeAction::SetCode(SpecialCode::Discard, 15)
    );
    assert_eq!(
        mode_action(Mode::Echo, 0),
        ModeAction::SetFlag(TerminalFlag::Echo, false)
    );
    assert_eq!(
        mode_action(Mode::Echo, 2),
        ModeAction::SetFlag(TerminalFlag::Echo, true)
    );
    assert_eq!(mode_action(Mode::Cs7, 0), ModeAction::SevenBits);
    assert_eq!(
        mode_action(Mode::TtyOpISpeed, 38400),
        ModeAction::InputSpeed(38400)
    );
    assert_eq!(
        terminal_actions(&BTreeMap::from([(129, 9600), (53, 1), (1, 3)])),
        [
            ModeAction::SetCode(SpecialCode::Intr, 3),
            ModeAction::SetFlag(TerminalFlag::Echo, true),
            ModeAction::OutputSpeed(9600),
        ]
    );
    assert!(terminal_actions(&BTreeMap::new()).is_empty());
}

#[test]
fn terminals_have_sizes_and_environments() {
    let size = window_size(&WindowChange {
        cols: 65_537,
        rows: 24,
        width_px: 640,
        height_px: 480,
    });
    assert_eq!(
        (size.cols, size.rows, size.width_px, size.height_px),
        (1, 24, 640, 480)
    );
    let ChannelRequestType::PtyReq(mut request) = pty() else {
        panic!("not a terminal");
    };
    let size = requested_size(&request);
    assert_eq!((size.cols, size.rows), (80, 24));
    let lang = ("LANG".to_owned(), "C".to_owned());
    assert_eq!(
        terminal_env(&request, vec![lang.clone()]),
        [lang.clone(), ("TERM".to_owned(), "xterm".to_owned())]
    );
    request.term = Cow::Borrowed("");
    assert_eq!(terminal_env(&request, vec![lang.clone()]), [lang]);
}
