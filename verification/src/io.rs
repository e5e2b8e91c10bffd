//! Packet framing and the state of the two directions of a connection.

use vstd::prelude::*;
use vstd::slice::slice_subrange;

use crate::auth::{failure_wire, UserAuthFailure};
use crate::crypto::{zeroize, HandshakeHash, Opener, RandomSource, Sealer};
use crate::error::{io_error, new_io_error, CryptoError, IoErrorKind, ProtoError};
use crate::key_exchange::StrictKeyExchange;
use crate::named::{views, MethodName};
use crate::packet::{parse_message_type, parse_packet_length, parse_padding_length};
use crate::packet::{IncomingPacket, MessageType, PacketLength, PaddingLength, MAX_PACKET_LEN};
use crate::wire::{put, string_wire, u32_round_trip, u32_wire};
use crate::wire::{Completion, Decode, Decoded, Encode};

verus! {

/// The reader and decryption state for an SSH connection.
pub struct ReadState {
    /// Buffer for incoming data from the transport stream.
    pub buf: Vec<u8>,
    /// Full length of the last decoded packet, including packet length and tag.
    ///
    /// Set after decoding and decrypting a packet successfully in `poll_packet()`; reduced at
    /// the start of each call to `poll_packet()`.
    pub last_length: usize,
    /// Sequence number of the next incoming packet.
    ///
    /// See <https://www.rfc-editor.org/rfc/rfc4253#section-6.4>.
    pub sequence_number: u32,
    /// Decryption state, or `None` before `SSH_MSG_NEWKEYS` takes effect.
    pub opener: Option<Opener>,
}

/// What the bytes at the start of the incoming data amount to.
pub enum Incoming {
    /// No packet can start like this.
    Failed(ProtoError),
    /// This many bytes are missing from the packet.
    Waiting(usize),
    /// The packet is complete but cannot be decrypted: the value of its length field, and why.
    Rejected(u32, CryptoError),
    /// The packet is complete: the value of its length field, and the incoming data with the
    /// packet in it decrypted.
    Ready(u32, Seq<u8>),
}

/// The length of the tag behind each incoming packet.
pub open spec fn opening_tag_len(opener: Option<Opener>) -> usize {
    match opener {
        Some(opener) => opener.0.spec_tag_len(),
        None => 0,
    }
}

/// What the bytes at the start of the incoming data amount to.
pub open spec fn incoming(opener: Option<Opener>, sequence_number: u32, data: Seq<u8>) -> Incoming {
    match opener {
        None => match parse_packet_length(data) {
            Err(e) => Incoming::Failed(e),
            Ok((length, rest)) => if rest.len() < length {
                Incoming::Waiting((length - rest.len()) as usize)
            } else {
                Incoming::Ready(length, data)
            },
        },
        Some(opener) => if data.len() < 4 {
            Incoming::Waiting((4 - data.len()) as usize)
        } else {
            match parse_packet_length(
                opener.0.spec_packet_length(sequence_number, data.take(4)),
            ) {
                Err(e) => Incoming::Failed(e),
                Ok((length, _)) => {
                    let end = 4 + length as int;
                    let tag_end = end + opener.0.spec_tag_len();
                    if data.len() < tag_end {
                        Incoming::Waiting((tag_end - data.len()) as usize)
                    } else {
                        match opener.0.spec_open(
                            sequence_number,
                            data.take(end),
                            data.subrange(end, tag_end),
                        ) {
                            Err(e) => Incoming::Rejected(length, e),
                            Ok(packet) => Incoming::Ready(length, packet + data.skip(end)),
                        }
                    }
                },
            }
        },
    }
}

/// The outcome of looking for the next packet: its sequence number and the value of its length
/// field.
pub open spec fn poll_result(state: ReadState) -> Result<
    Completion<(u32, PacketLength)>,
    ProtoError,
> {
    match incoming(state.opener, state.sequence_number, state.arrived()) {
        Incoming::Failed(e) => Err(e),
        Incoming::Waiting(n) => Ok(Completion::Incomplete(Some(n))),
        Incoming::Rejected(_, e) => Err(ProtoError::Crypto(e)),
        Incoming::Ready(length, _) => Ok(
            Completion::Complete((state.sequence_number, PacketLength(length))),
        ),
    }
}

/// The state of the reader before and after it was looked for the next packet.
///
/// The packet before is gone. Nothing but the next packet is changed, and that only where it is
/// complete.
pub open spec fn packet_polled(before: ReadState, after: ReadState) -> bool {
    &&& after.opener is Some == before.opener is Some
    &&& opening_tag_len(after.opener) == opening_tag_len(before.opener)
    &&& after.buf@.len() == before.arrived().len()
    &&& match incoming(before.opener, before.sequence_number, before.arrived()) {
        Incoming::Failed(_) | Incoming::Waiting(_) => {
            &&& after.buf@ == before.arrived()
            &&& after.opener == before.opener
            &&& after.last_length == 0
            &&& after.sequence_number == before.sequence_number
        },
        Incoming::Rejected(length, _) => {
            &&& after.buf@.skip(4 + length) == before.arrived().skip(4 + length)
            &&& after.last_length == 0
            &&& after.sequence_number == before.sequence_number
        },
        Incoming::Ready(length, data) => {
            &&& after.buf@ == data
            &&& after.buf@.skip(4 + length) == before.arrived().skip(4 + length)
            &&& after.last_length == 4 + length + opening_tag_len(before.opener)
            &&& after.sequence_number == (before.sequence_number + 1) % 0x1_0000_0000
        },
    }
}

/// After a packet, what is left to be looked at is all that came behind it, as it came, and the
/// next packet has the next sequence number.
pub proof fn no_byte_is_lost(before: ReadState, after: ReadState, number: u32, length: u32)
    requires
        before.wf(),
        packet_polled(before, after),
        poll_result(before) == Ok::<Completion<(u32, PacketLength)>, ProtoError>(
            Completion::Complete((number, PacketLength(length))),
        ),
    ensures
        number == before.sequence_number,
        after.sequence_number == (number + 1) % 0x1_0000_0000,
        after.arrived() == before.arrived().skip(4 + length + opening_tag_len(before.opener)),
{
    let data = before.arrived();
    let tag_len = opening_tag_len(before.opener) as int;
    assert(after.arrived() =~= after.buf@.skip(4 + length).skip(tag_len));
    assert(data.skip(4 + length).skip(tag_len) =~= data.skip(4 + length + tag_len));
    assert(after.arrived() =~= data.skip(4 + length + opening_tag_len(before.opener)));
}

/// Of unencrypted packets that lie one behind another each is found once, in order.
pub proof fn packets_come_in_order(
    start: ReadState,
    middle: ReadState,
    last: ReadState,
    first: Seq<u8>,
    second: Seq<u8>,
    rest: Seq<u8>,
)
    requires
        start.wf(),
        start.opener is None,
        first.len() <= MAX_PACKET_LEN,
        second.len() <= MAX_PACKET_LEN,
        start.arrived() == u32_wire(first.len() as u32) + first + (u32_wire(second.len() as u32)
            + second + rest),
        packet_polled(start, middle),
        packet_polled(middle, last),
    ensures
        poll_result(start) == Ok::<Completion<(u32, PacketLength)>, ProtoError>(
            Completion::Complete((start.sequence_number, PacketLength(first.len() as u32))),
        ),
        middle.sequence_number == (start.sequence_number + 1) % 0x1_0000_0000,
        poll_result(middle) == Ok::<Completion<(u32, PacketLength)>, ProtoError>(
            Completion::Complete((middle.sequence_number, PacketLength(second.len() as u32))),
        ),
        last.buf@ == u32_wire(second.len() as u32) + second + rest,
        last.last_length == 4 + second.len(),
        last.arrived() == rest,
        last.sequence_number == (start.sequence_number + 2) % 0x1_0000_0000,
{
    let behind = u32_wire(second.len() as u32) + second + rest;
    lemma_plain_packet(start, middle, first, behind);
    lemma_plain_packet(middle, last, second, rest);
}

/// An unencrypted packet is found, and what comes behind it is left.
proof fn lemma_plain_packet(before: ReadState, after: ReadState, contents: Seq<u8>, rest: Seq<u8>)
    requires
        before.last_length <= before.buf@.len(),
        before.opener is None,
        contents.len() <= MAX_PACKET_LEN,
        before.arrived() == u32_wire(contents.len() as u32) + contents + rest,
        packet_polled(before, after),
    ensures
        poll_result(before) == Ok::<Completion<(u32, PacketLength)>, ProtoError>(
            Completion::Complete((before.sequence_number, PacketLength(contents.len() as u32))),
        ),
        after.opener is None,
        after.buf@ == before.arrived(),
        after.last_length == 4 + contents.len(),
        after.last_length <= after.buf@.len(),
        after.arrived() == rest,
        after.sequence_number == (before.sequence_number + 1) % 0x1_0000_0000,
{
    let len = contents.len() as u32;
    u32_round_trip(len, contents + rest);
    assert(before.arrived() =~= u32_wire(len) + (contents + rest));
    assert(parse_packet_length(before.arrived()) == Ok::<(u32, Seq<u8>), ProtoError>(
        (len, contents + rest),
    ));
    assert(incoming(before.opener, before.sequence_number, before.arrived()) == Incoming::Ready(
        len,
        before.arrived(),
    ));
    assert(after.arrived() =~= rest);
}

/// The message type and the rest of the payload of the decrypted packet at the start of `data`
/// whose length field has the given value.
pub open spec fn parse_packet(data: Seq<u8>, length: u32) -> Result<
    (MessageType, Seq<u8>),
    ProtoError,
> {
    if data.len() < 4 {
        Err(ProtoError::Incomplete(Some((4 - data.len()) as usize)))
    } else {
        match parse_padding_length(data.skip(4)) {
            Err(e) => Err(e),
            Ok((padding, next)) => if length < 1 + padding {
                Err(ProtoError::InvalidPacket("padding length exceeds packet length"))
            } else {
                let payload_len = length - 1 - padding;
                if next.len() < payload_len {
                    Err(ProtoError::Incomplete(Some((payload_len - next.len()) as usize)))
                } else {
                    match parse_message_type(next.take(payload_len)) {
                        Err(_) => Err(ProtoError::InvalidPacket("packet without message type")),
                        Ok((message_type, payload)) => if next.len() - payload_len < padding {
                            Err(
                                ProtoError::Incomplete(
                                    Some((padding - (next.len() - payload_len)) as usize),
                                ),
                            )
                        } else {
                            Ok((message_type, payload))
                        },
                    }
                }
            },
        }
    }
}

/// Remove the first `len` bytes.
fn compact(buf: &mut Vec<u8>, len: usize)
    requires
        len <= old(buf)@.len(),
    ensures
        final(buf)@ == old(buf)@.skip(len as int),
{
    let total: usize = buf.len();
    let rest: usize = total - len;
    let mut i: usize = 0;
    while i < rest
        invariant
            len <= old(buf)@.len(),
            total == old(buf)@.len(),
            rest == total - len,
            i <= rest,
            buf@.len() == old(buf)@.len(),
            forall|j: int| 0 <= j < i ==> buf@[j] == old(buf)@[j + len],
            forall|j: int| i <= j < buf@.len() ==> buf@[j] == old(buf)@[j],
        decreases rest - i,
    {
        let byte: u8 = buf[i + len];
        buf.set(i, byte);
        i += 1;
    }
    buf.truncate(rest);
    assert(buf@ =~= old(buf)@.skip(len as int));
}

impl ReadState {
    /// The last packet lies within the buffer, and lengths of packets fit in `usize`.
    pub open spec fn wf(&self) -> bool {
        &&& self.last_length <= self.buf@.len()
        &&& 4 + MAX_PACKET_LEN + opening_tag_len(self.opener) <= usize::MAX
    }

    /// Whether the next packet can be looked for.
    pub fn is_ready(&self) -> (r: bool)
        ensures
            r == self.wf(),
    {
        let tag_len: usize = match &self.opener {
            Some(opener) => opener.0.tag_len(),
            None => 0,
        };
        self.last_length <= self.buf.len() && tag_len <= usize::MAX - 4 - MAX_PACKET_LEN as usize
    }

    /// The incoming data after the last packet.
    pub open spec fn arrived(&self) -> Seq<u8> {
        self.buf@.skip(self.last_length as int)
    }

    /// Verify and decrypt the next packet in the buffer, if complete.
    ///
    /// On success, returns the packet's sequence number and length for use with
    /// [`Self::decode_packet()`].
    pub fn poll_packet(&mut self) -> (r: Result<Completion<(u32, PacketLength)>, ProtoError>)
        requires
            old(self).wf(),
        ensures
            final(self).wf(),
            packet_polled(*old(self), *final(self)),
            r == poll_result(*old(self)),
    {
        // Compact the internal buffer
        if self.last_length > 0 {
            compact(&mut self.buf, self.last_length);
            self.last_length = 0;
        } else {
            assert(self.buf@ =~= old(self).arrived());
        }

        let (packet_length, tag_len) = if let Some(opener) = &mut self.opener {
            // The packet length is transmitted in cleartext (authenticated as AAD).
            if self.buf.len() < 4 {
                return Ok(Completion::Incomplete(Some(4 - self.buf.len())));
            }
            let length = [self.buf[0], self.buf[1], self.buf[2], self.buf[3]];
            assert(length@ =~= self.buf@.take(4));

            let length_bytes = opener.0.decrypt_packet_length(self.sequence_number, length);
            let Decoded { value: packet_length, next: _ } = PacketLength::decode(&length_bytes)?;

            let tag_len: usize = opener.0.tag_len();
            let end: usize = 4 + usize::from(packet_length);
            if self.buf.len() < end {
                return Ok(Completion::Incomplete(Some(end + tag_len - self.buf.len())));
            }
            if self.buf.len() - end < tag_len {
                return Ok(Completion::Incomplete(Some(tag_len - (self.buf.len() - end))));
            }
            let ghost data = self.buf@;
            let (packet, rest) = self.buf.as_mut_slice().split_at_mut(end);
            let tag = slice_subrange(rest, 0, tag_len);
            assert(packet@ =~= data.take(end as int));
            assert(tag@ =~= data.subrange(end as int, end + tag_len));
            assert(rest@ =~= data.skip(end as int));

            // Verify and decrypt the packet in place in `buf`. `open_in_place` authenticates
            // the cleartext length field, which stays in `buf` alongside the ciphertext even
            // though it is not itself decrypted.
            match opener.0.open_in_place(self.sequence_number, packet, tag) {
                Ok(()) => {},
                Err(e) => {
                    assert(self.buf@.skip(end as int) =~= data.skip(end as int));
                    return Err(ProtoError::Crypto(e));
                },
            }
            proof {
                let opened = self.buf@.take(end as int);
                assert(self.buf@ =~= opened + data.skip(end as int));
                assert(self.buf@.skip(end as int) =~= data.skip(end as int));
            }
            (packet_length, tag_len)
        } else {
            let Decoded { value: packet_length, next } = PacketLength::decode(self.buf.as_slice())?;

            if next.len() < usize::from(packet_length) {
                return Ok(
                    Completion::Incomplete(Some(usize::from(packet_length) - next.len())),
                );
            }
            (packet_length, 0)
        };

        let sequence_number: u32 = self.sequence_number;
        self.sequence_number = self.sequence_number.wrapping_add(1);
        self.last_length = 4 + usize::from(packet_length) + tag_len;
        Ok(Completion::Complete((sequence_number, packet_length)))
    }

    /// Verify and decrypt the next packet in the buffer, or `None` where more data is to be read
    /// from the stream first.
    pub fn next_packet(&mut self) -> (r: Result<Option<(u32, PacketLength)>, ProtoError>)
        requires
            old(self).wf(),
        ensures
            final(self).wf(),
            packet_polled(*old(self), *final(self)),
            r == match poll_result(*old(self)) {
                Ok(Completion::Complete(found)) => Ok::<
                    Option<(u32, PacketLength)>,
                    ProtoError,
                >(Some(found)),
                Ok(Completion::Incomplete(_)) | Err(ProtoError::Incomplete(_)) => Ok::<
                    Option<(u32, PacketLength)>,
                    ProtoError,
                >(None),
                Err(e) => Err::<Option<(u32, PacketLength)>, ProtoError>(e),
            },
    {
        match self.poll_packet() {
            Ok(Completion::Complete((sequence_number, packet_length))) => Ok(
                Some((sequence_number, packet_length)),
            ),
            Ok(Completion::Incomplete(_)) | Err(ProtoError::Incomplete(_)) => Ok(None),
            Err(e) => Err(e),
        }
    }

    /// Decode a packet decrypted by an earlier call to [`Self::poll_packet()`].
    pub fn decode_packet<'a>(&'a self, sequence_number: u32, packet_length: PacketLength) -> (r:
        Result<IncomingPacket<'a>, ProtoError>)
        ensures
            match r {
                Ok(packet) => {
                    &&& packet.sequence_number == sequence_number
                    &&& parse_packet(self.buf@, packet_length.0) == Ok::<
                        (MessageType, Seq<u8>),
                        ProtoError,
                    >((packet.message_type, packet.payload@))
                },
                Err(e) => parse_packet(self.buf@, packet_length.0) == Err::<
                    (MessageType, Seq<u8>),
                    ProtoError,
                >(e),
            },
    {
        if self.buf.len() < 4 {
            return Err(ProtoError::Incomplete(Some(4 - self.buf.len())));
        }
        let next = slice_subrange(self.buf.as_slice(), 4, self.buf.len());
        assert(next@ =~= self.buf@.skip(4));

        let Decoded { value: padding_length, next } = PaddingLength::decode(next)?;

        let packet_length: u32 = u32::from(packet_length);
        let padding: u32 = padding_length.0 as u32;
        if packet_length < 1 || packet_length - 1 < padding {
            return Err(ProtoError::InvalidPacket("padding length exceeds packet length"));
        }
        let payload_len: usize = (packet_length - 1 - padding) as usize;

        if next.len() < payload_len {
            return Err(ProtoError::Incomplete(Some(payload_len - next.len())));
        }
        let payload = slice_subrange(next, 0, payload_len);
        assert(payload@ =~= next@.take(payload_len as int));

        let Decoded { value: message_type, next: payload } = match MessageType::decode(payload) {
            Ok(decoded) => decoded,
            Err(_) => return Err(ProtoError::InvalidPacket("packet without message type")),
        };

        if next.len() - payload_len < padding as usize {
            return Err(ProtoError::Incomplete(Some(padding as usize - (next.len() - payload_len))));
        }
        Ok(IncomingPacket { sequence_number, message_type, payload })
    }

    /// Take the incoming data after the last packet out of the buffer.
    pub fn take_arrived(&mut self) -> (r: Vec<u8>)
        requires
            old(self).wf(),
        ensures
            r@ == old(self).arrived(),
            final(self).buf@ == Seq::<u8>::empty(),
            final(self).last_length == 0,
            final(self).sequence_number == old(self).sequence_number,
            final(self).opener == old(self).opener,
    {
        let last_length: usize = self.last_length;
        compact(&mut self.buf, last_length);
        self.last_length = 0;
        let mut data: Vec<u8> = Vec::new();
        std::mem::swap(&mut data, &mut self.buf);
        data
    }

    /// Record the full length of the last decoded packet for buffer compaction.
    pub fn set_last_length(&mut self, len: usize)
        ensures
            *final(self) == (ReadState { last_length: len, ..*old(self) }),
    {
        self.last_length = len;
    }

    /// Reset the receive sequence number to zero.
    ///
    /// As required by strict key exchange after receiving `SSH_MSG_NEWKEYS`.
    pub fn reset_sequence_number(&mut self, strict_kx: Option<&StrictKeyExchange>)
        ensures
            *final(self) == if strict_kx is Some {
                ReadState { sequence_number: 0, ..*old(self) }
            } else {
                *old(self)
            },
    {
        if strict_kx.is_some() {
            self.sequence_number = 0;
        }
    }
}

impl Drop for ReadState {
    fn drop(&mut self)
        opens_invariants none
        no_unwind
    {
        zeroize(&mut self.buf);
    }
}

impl Default for ReadState {
    fn default() -> (r: Self)
        ensures
            r.wf(),
            r.buf@ == Seq::<u8>::empty(),
            r.last_length == 0,
            r.sequence_number == 0,
            r.opener is None,
    {
        ReadState {
            buf: Vec::with_capacity(16_384),
            last_length: 0,
            sequence_number: 0,
            opener: None,
        }
    }
}

/// The smallest multiple of `block` that is not below `n`.
pub open spec fn rounded_up(n: int, block: int) -> int {
    if n % block == 0 {
        n
    } else {
        n + block - n % block
    }
}

/// The number of padding bytes for a packet of which `region` bytes are aligned to blocks.
///
/// The aligned part of a packet takes whole blocks and at least 16 bytes, and there are at least
/// 4 bytes of padding.
pub open spec fn padding_len(region: int, block: int) -> int {
    let full = rounded_up(region, block);
    let padding = if full < 16 {
        16 - region
    } else {
        full - region
    };
    if padding < 4 {
        padding + block
    } else {
        padding
    }
}

/// The aligned part of a packet takes whole blocks and at least 16 bytes, and a packet has at
/// least 4 bytes of padding. Where the block size does not divide 16, this holds of packets that
/// take 16 bytes without padding.
pub proof fn packets_are_aligned(region: int, block: int)
    requires
        0 <= region,
        8 <= block,
        16int % block == 0 || 16 <= rounded_up(region, block),
    ensures
        4 <= padding_len(region, block),
        16 <= region + padding_len(region, block),
        (region + padding_len(region, block)) % block == 0,
{
    let full = rounded_up(region, block);
    lemma_rounded_up(region, block);
    let total = if full < 16 {
        16int
    } else {
        full
    };
    assert(total % block == 0);
    vstd::arithmetic::div_mod::lemma_mod_add_multiples_vanish(total, block);
}

proof fn lemma_rounded_up(n: int, block: int)
    requires
        0 <= n,
        0 < block,
    ensures
        rounded_up(n, block) % block == 0,
        n <= rounded_up(n, block) < n + block,
{
    let q = n / block;
    vstd::arithmetic::div_mod::lemma_fundamental_div_mod(n, block);
    vstd::arithmetic::div_mod::lemma_mod_bound(n, block);
    if n % block != 0 {
        assert(rounded_up(n, block) == block * (q + 1)) by (nonlinear_arith)
            requires
                rounded_up(n, block) == n + block - n % block,
                n == block * q + n % block,
        ;
        vstd::arithmetic::div_mod::lemma_mod_multiples_basic(q + 1, block);
        assert(block * (q + 1) == (q + 1) * block) by (nonlinear_arith);
    }
}

/// An unencrypted packet.
pub open spec fn framed(payload: Seq<u8>, padding: Seq<u8>) -> Seq<u8> {
    u32_wire((1 + payload.len() + padding.len()) as u32) + seq![padding.len() as u8] + payload
        + padding
}

/// A packet as it goes to the stream.
pub open spec fn sealed(sealer: Option<Sealer>, sequence_number: u32, packet: Seq<u8>) -> Result<
    Seq<u8>,
    CryptoError,
> {
    match sealer {
        None => Ok(packet),
        Some(sealer) => match sealer.0.spec_seal(sequence_number, packet) {
            Ok((body, tag)) => Ok(body + tag),
            Err(e) => Err(e),
        },
    }
}

/// The number of bytes to which packets are aligned.
pub open spec fn block_size(sealer: Option<Sealer>) -> int {
    match sealer {
        Some(sealer) => if sealer.0.spec_block_len() < 8 {
            8
        } else {
            sealer.0.spec_block_len() as int
        },
        None => 8,
    }
}

/// The length of the tag behind each outgoing packet.
pub open spec fn sealing_tag_len(sealer: Option<Sealer>) -> usize {
    match sealer {
        Some(sealer) => sealer.0.spec_tag_len(),
        None => 0,
    }
}

/// The number of padding bytes of a packet. With a cipher the length field is not encrypted and
/// does not count towards the blocks.
pub open spec fn packet_padding(sealer: Option<Sealer>, payload_len: nat) -> int {
    let prefix: int = if sealer is Some {
        4
    } else {
        0
    };
    padding_len(5 + payload_len - prefix, block_size(sealer))
}

/// More bytes than a packet takes besides its payload.
pub open spec fn packet_overhead(sealer: Option<Sealer>) -> int {
    21 + 2 * block_size(sealer) + sealing_tag_len(sealer)
}

/// The writer and encryption state for an SSH connection.
pub struct WriteState {
    /// Buffer for encoded and encrypted packets.
    pub buf: Vec<u8>,
    /// The amount of bytes at the start of `buf` that have already been sent to the transport
    /// stream.
    pub written: usize,
    /// Sequence number of the next outgoing packet.
    ///
    /// See <https://www.rfc-editor.org/rfc/rfc4253#section-6.4>.
    pub sequence_number: u32,
    /// Encryption state, or `None` before `SSH_MSG_NEWKEYS` takes effect.
    pub sealer: Option<Sealer>,
    /// Source of random bytes for packet padding.
    pub secure_random: RandomSource,
}

/// Padding for a payload: as long as it has to be, and taken from the source of random bytes.
pub open spec fn random_padding(state: WriteState, payload: Seq<u8>, padding: Seq<u8>) -> bool {
    &&& padding.len() == packet_padding(state.sealer, payload.len())
    &&& state.secure_random.0.spec_fill(padding.len(), Ok(padding))
}

/// The source of random bytes can fail in this way to give padding for a payload.
pub open spec fn padding_fails(state: WriteState, payload: Seq<u8>, reason: CryptoError) -> bool {
    state.secure_random.0.spec_fill(
        packet_padding(state.sealer, payload.len()) as nat,
        Err(reason),
    )
}

/// The state of the writer before and after a payload was enqueued, or could not be.
///
/// The packet is put behind what was in the buffer, with random padding.
pub open spec fn enqueued(
    before: WriteState,
    after: WriteState,
    payload: Seq<u8>,
    r: Result<(), ProtoError>,
) -> bool {
    &&& after.sent() == before.sent()
    &&& after.secure_random == before.secure_random
    &&& before.queued().len() <= after.queued().len()
    &&& after.queued().take(before.queued().len() as int) == before.queued()
    &&& match r {
        Ok(_) => {
            &&& exists|padding: Seq<u8>|
                random_padding(before, payload, padding) && sealed(
                    before.sealer,
                    before.sequence_number,
                    #[trigger] framed(payload, padding),
                ) == Ok::<Seq<u8>, CryptoError>(
                    after.queued().skip(before.queued().len() as int),
                )
            &&& after.queued().len() == before.queued().len() + 5 + payload.len() + packet_padding(
                before.sealer,
                payload.len(),
            ) + sealing_tag_len(before.sealer)
            &&& after.sequence_number == (before.sequence_number + 1) % 0x1_0000_0000
            &&& block_size(after.sealer) == block_size(before.sealer)
            &&& sealing_tag_len(after.sealer) == sealing_tag_len(before.sealer)
            &&& after.sealer is Some == before.sealer is Some
        },
        Err(ProtoError::Crypto(e)) => {
            &&& exists|padding: Seq<u8>|
                random_padding(before, payload, padding) && sealed(
                    before.sealer,
                    before.sequence_number,
                    #[trigger] framed(payload, padding),
                ) == Err::<Seq<u8>, CryptoError>(e)
            &&& after.sequence_number == before.sequence_number
        },
        Err(e) => {
            &&& e == ProtoError::Unreachable("failed to get random padding")
            &&& exists|reason: CryptoError| padding_fails(before, payload, reason)
            &&& after.sequence_number == before.sequence_number
            &&& after.sealer == before.sealer
        },
    }
}

/// The state of the writer before and after payloads were enqueued one after another, up to the
/// first that could not be.
pub open spec fn all_enqueued(
    before: WriteState,
    after: WriteState,
    payloads: Seq<Seq<u8>>,
    r: Result<(), ProtoError>,
) -> bool
    decreases payloads.len(),
{
    if payloads.len() == 0 {
        after == before && r is Ok
    } else {
        ||| exists|mid: WriteState|
            {
                &&& all_enqueued(before, mid, payloads.drop_last(), Ok(()))
                &&& #[trigger] enqueued(mid, after, payloads.last(), r)
            }
        ||| r is Err && all_enqueued(before, after, payloads.drop_last(), r)
    }
}

/// There is only one way to succeed without a value.
pub proof fn lemma_ok(r: Result<(), ProtoError>)
    requires
        r is Ok,
    ensures
        r == Ok::<(), ProtoError>(()),
{
    assert(r->Ok_0 == ());
    assert(r == Ok::<(), ProtoError>(r->Ok_0));
}

/// A payload enqueued after others.
pub proof fn lemma_enqueued_next(
    before: WriteState,
    mid: WriteState,
    after: WriteState,
    payloads: Seq<Seq<u8>>,
    payload: Seq<u8>,
    r: Result<(), ProtoError>,
)
    requires
        all_enqueued(before, mid, payloads, Ok(())),
        enqueued(mid, after, payload, r),
    ensures
        all_enqueued(before, after, payloads.push(payload), r),
{
    let all = payloads.push(payload);
    assert(all.drop_last() =~= payloads);
    assert(all.last() == payload);
    assert(all_enqueued(before, mid, all.drop_last(), Ok(())));
    assert(enqueued(mid, after, all.last(), r));
}

/// The room that is left after a payload was enqueued.
pub proof fn lemma_room_left(
    before: WriteState,
    after: WriteState,
    payload: Seq<u8>,
    payloads: nat,
    bytes: nat,
)
    requires
        enqueued(before, after, payload, Ok(())),
        before.has_room(payloads + 1, bytes + payload.len()),
    ensures
        after.has_room(payloads, bytes),
{
    let prefix: int = if before.sealer is Some {
        4
    } else {
        0
    };
    lemma_rounded_up(5 + payload.len() - prefix, block_size(before.sealer));
    let overhead = packet_overhead(before.sealer);
    assert((payloads + 1) * overhead == payloads * overhead + overhead) by (nonlinear_arith);
}

/// Room for more is room for less.
pub proof fn lemma_less_room(state: WriteState, payloads: nat, bytes: nat, fewer: nat, less: nat)
    requires
        state.has_room(payloads, bytes),
        fewer <= payloads,
        less <= bytes,
    ensures
        state.has_room(fewer, less),
{
    let overhead = packet_overhead(state.sealer);
    assert(fewer * overhead <= payloads * overhead) by (nonlinear_arith)
        requires
            fewer <= payloads,
            overhead >= 0,
    ;
}

impl WriteState {
    /// The bytes in the buffer.
    pub open spec fn queued(&self) -> Seq<u8> {
        self.buf@
    }

    /// How many of the bytes in the buffer have been sent.
    pub open spec fn sent(&self) -> usize {
        self.written
    }

    /// No more has been sent than there was.
    pub open spec fn wf(&self) -> bool {
        self.sent() <= self.queued().len()
    }

    /// The lengths that come up while payloads are framed fit in `usize`, for as many payloads
    /// with as many bytes in all.
    pub open spec fn has_room(&self, payloads: nat, bytes: nat) -> bool {
        self.queued().len() + payloads * packet_overhead(self.sealer) + bytes <= usize::MAX
    }

    /// Whether the lengths that come up while payloads are framed fit in `usize`.
    pub fn fits(&self, payloads: u8, bytes: usize) -> (r: bool)
        ensures
            r == self.has_room(payloads as nat, bytes as nat),
    {
        let (block, tag_len): (usize, usize) = match &self.sealer {
            Some(sealer) => (sealer.0.block_len(), sealer.0.tag_len()),
            None => (0, 0),
        };
        let block: u128 = if block < 8 {
            8
        } else {
            block as u128
        };
        let overhead: u128 = 21 + 2 * block + tag_len as u128;
        proof {
            assert(payloads * overhead <= 255 * 0x4_0000_0000_0000_0000u128) by (nonlinear_arith)
                requires
                    payloads <= 255,
                    overhead <= 0x4_0000_0000_0000_0000u128,
            ;
        }
        self.buf.len() as u128 + payloads as u128 * overhead + bytes as u128 <= usize::MAX as u128
    }

    /// Create a new write state with an empty buffer.
    pub fn new(secure_random: RandomSource) -> (r: Self)
        ensures
            r.wf(),
            r.queued() == Seq::<u8>::empty(),
            r.sent() == 0,
            r.sequence_number == 0,
            r.sealer is None,
            r.secure_random == secure_random,
    {
        WriteState {
            buf: Vec::with_capacity(16_384),
            written: 0,
            sequence_number: 0,
            sealer: None,
            secure_random,
        }
    }

    /// Encode `payload` as a packet into the outgoing buffer.
    ///
    /// Applies padding and encryption per <https://www.rfc-editor.org/rfc/rfc4253#section-6>; if
    /// `exchange_hash` is given, the packet payload is also fed into it.
    pub fn handle_packet(
        &mut self,
        payload: &impl Encode,
        exchange_hash: Option<&mut HandshakeHash>,
    ) -> (r: Result<(), ProtoError>)
        requires
            old(self).has_room(1, payload.wire().len()),
        ensures
            enqueued(*old(self), *final(self), payload.wire(), r),
            exchange_hash matches Some(hash) ==> {
                &&& final(hash).algorithm() == hash.algorithm()
                &&& final(hash)@ == if r matches Err(ProtoError::Unreachable(_)) {
                    hash@
                } else {
                    hash@ + string_wire(payload.wire())
                }
            },
    {
        let start: usize = self.buf.len();
        // packet_length and padding_length
        put(&mut self.buf, &[0, 0, 0, 0, 0]);

        let payload_start: usize = self.buf.len();
        payload.encode(&mut self.buf);
        let payload_len: usize = self.buf.len() - payload_start;

        let padding_len: usize = self.padding_for(payload_len);
        let padding_start: usize = self.buf.len();
        let ghost prepared = self.buf@;
        let padded = self.pad(padding_len);
        proof {
            assert(prepared.skip(payload_start as int) =~= payload.wire());
            assert(padding_len == packet_padding(old(self).sealer, payload.wire().len()));
            assert(self.buf@.take(start as int) =~= prepared.take(start as int)) by {
                assert(self.buf@.take(padding_start as int) == prepared);
                assert(prepared.take(start as int) =~= self.buf@.take(padding_start as int).take(
                    start as int,
                ));
            }
            assert(self.buf@.take(start as int) =~= old(self).buf@);
        }
        if let Err(e) = padded {
            assert(padding_fails(*old(self), payload.wire(), e));
            return Err(ProtoError::Unreachable("failed to get random padding"));
        }
        proof {
            let padding = self.buf@.skip(padding_start as int);
            assert(self.buf@.subrange(payload_start as int, padding_start as int)
                =~= self.buf@.take(padding_start as int).skip(payload_start as int));
            assert(random_padding(*old(self), payload.wire(), padding));
        }
        self.finish_packet(start, payload_len, exchange_hash)
    }

    /// The number of padding bytes for a payload of the given length.
    fn padding_for(&self, payload_len: usize) -> (r: usize)
        requires
            payload_len + packet_overhead(self.sealer) <= usize::MAX,
        ensures
            r == packet_padding(self.sealer, payload_len as nat),
            r < 16 + 2 * block_size(self.sealer),
    {
        // <https://www.rfc-editor.org/rfc/rfc4253#section-6>
        //
        // Note that the length of the concatenation of 'packet_length', 'padding_length',
        // 'payload', and 'random padding' MUST be a multiple of the cipher block size or 8,
        // whichever is larger. This constraint MUST be enforced, even when using stream ciphers.
        //
        // For AEAD ciphers (like aes128-gcm@openssh.com, RFC 5647) the 'packet_length' field is
        // transmitted in cleartext and is excluded from the block-aligned region;
        // `unencrypted_prefix` is 4 in that case and 0 otherwise.

        let cipher_block: usize = match &self.sealer {
            Some(sealer) => sealer.0.block_len(),
            None => 0,
        };
        let block: usize = if cipher_block < 8 {
            8
        } else {
            cipher_block
        };

        let unencrypted_prefix: usize = match &self.sealer {
            Some(_) => 4,
            None => 0,
        };

        let region: usize = 5 - unencrypted_prefix + payload_len;
        proof {
            lemma_rounded_up(region as int, block as int);
        }
        padding(region, block)
    }

    /// Put random bytes behind what is in the buffer.
    fn pad(&mut self, len: usize) -> (r: Result<(), CryptoError>)
        requires
            old(self).queued().len() + len <= usize::MAX,
        ensures
            final(self).sent() == old(self).sent(),
            final(self).sequence_number == old(self).sequence_number,
            final(self).sealer == old(self).sealer,
            final(self).secure_random == old(self).secure_random,
            final(self).queued().len() == old(self).queued().len() + len,
            final(self).queued().take(old(self).queued().len() as int) == old(self).queued(),
            old(self).secure_random.0.spec_fill(
                len as nat,
                match r {
                    Ok(_) => Ok(final(self).queued().skip(old(self).queued().len() as int)),
                    Err(e) => Err(e),
                },
            ),
    {
        let start: usize = self.buf.len();
        self.buf.resize(start + len, 0);
        let ghost prepared = self.buf@;
        let (_head, padding) = self.buf.as_mut_slice().split_at_mut(start);
        assert(padding@.len() == len);
        let filled = self.secure_random.0.fill(padding);
        let ghost given = padding@;
        proof {
            assert(self.buf@.take(start as int) =~= prepared.take(start as int));
            assert(self.buf@.take(start as int) =~= old(self).buf@);
            assert(self.buf@.skip(start as int) =~= given);
        }
        filled
    }

    /// Turn the bytes from `start` on into a packet: five bytes for the length fields, the
    /// payload and the padding.
    fn finish_packet(
        &mut self,
        start: usize,
        payload_len: usize,
        exchange_hash: Option<&mut HandshakeHash>,
    ) -> (r: Result<(), ProtoError>)
        requires
            start + 5 + payload_len <= old(self).queued().len(),
            old(self).queued().len() + sealing_tag_len(old(self).sealer) <= usize::MAX,
        ensures
            final(self).sent() == old(self).sent(),
            final(self).secure_random == old(self).secure_random,
            start <= final(self).queued().len(),
            final(self).queued().take(start as int) == old(self).queued().take(start as int),
            block_size(final(self).sealer) == block_size(old(self).sealer),
            sealing_tag_len(final(self).sealer) == sealing_tag_len(old(self).sealer),
            final(self).sealer is Some == old(self).sealer is Some,
            final(self).queued().len() == old(self).queued().len() + sealing_tag_len(
                old(self).sealer,
            ),
            ({
                let payload = old(self).queued().subrange(start + 5, start + 5 + payload_len);
                let padding = old(self).queued().skip(start + 5 + payload_len);
                &&& match sealed(
                    old(self).sealer,
                    old(self).sequence_number,
                    framed(payload, padding),
                ) {
                    Ok(packet) => {
                        &&& r == Ok::<(), ProtoError>(())
                        &&& final(self).queued().skip(start as int) == packet
                        &&& final(self).sequence_number == (old(self).sequence_number + 1)
                            % 0x1_0000_0000
                    },
                    Err(e) => {
                        &&& r == Err::<(), ProtoError>(ProtoError::Crypto(e))
                        &&& final(self).sequence_number == old(self).sequence_number
                    },
                }
                &&& exchange_hash matches Some(hash) ==> {
                    &&& final(hash).algorithm() == hash.algorithm()
                    &&& final(hash)@ == hash@ + string_wire(payload)
                }
            }),
    {
        let ghost payload = self.buf@.subrange(start + 5, start + 5 + payload_len);
        let ghost padding = self.buf@.skip(start + 5 + payload_len);
        let packet_end: usize = self.buf.len();
        let padding_len: usize = packet_end - start - 5 - payload_len;
        if let Some(sealer) = &self.sealer {
            let tag_len: usize = sealer.0.tag_len();
            self.buf.resize(packet_end + tag_len, 0);
        }

        // packet_length covers padding_length (1 byte), payload and padding
        let length: u32 = (1 + payload_len + padding_len) as u32;
        self.buf.set(start, (length / 0x100_0000) as u8);
        self.buf.set(start + 1, ((length / 0x1_0000) % 0x100) as u8);
        self.buf.set(start + 2, ((length / 0x100) % 0x100) as u8);
        self.buf.set(start + 3, (length % 0x100) as u8);
        self.buf.set(start + 4, padding_len as u8);
        proof {
            let packet = self.buf@.subrange(start as int, packet_end as int);
            assert(packet =~= framed(payload, padding));
            assert(self.buf@.take(start as int) =~= old(self).buf@.take(start as int));
        }

        if let Some(exchange_hash) = exchange_hash {
            let bytes = slice_subrange(self.buf.as_slice(), start + 5, start + 5 + payload_len);
            assert(bytes@ =~= payload);
            exchange_hash.prefixed(bytes);
        }
        if let Some(sealer) = &mut self.sealer {
            let ghost before = self.buf@;
            let (_, packet) = self.buf.as_mut_slice().split_at_mut(start);
            let (body, tag) = packet.split_at_mut(5 + payload_len + padding_len);
            assert(body@ =~= framed(payload, padding));

            match sealer.0.seal_in_place(self.sequence_number, body, tag) {
                Ok(()) => {},
                Err(e) => {
                    assert(self.buf@.take(start as int) =~= before.take(start as int));
                    return Err(ProtoError::Crypto(e));
                },
            }
            assert(self.buf@.take(start as int) =~= before.take(start as int));
        } else {
            assert(self.buf@.skip(start as int) =~= framed(payload, padding));
        }
        self.sequence_number = self.sequence_number.wrapping_add(1);
        Ok(())
    }

    /// Encode `payload` directly into the buffer, without packet framing.
    pub fn encoded(&mut self, payload: &impl Encode) -> (r: &[u8])
        ensures
            final(self).queued() == old(self).queued() + payload.wire(),
            final(self).sent() == old(self).sent(),
            final(self).sequence_number == old(self).sequence_number,
            final(self).sealer == old(self).sealer,
            final(self).secure_random == old(self).secure_random,
            r@ == final(self).queued(),
    {
        payload.encode(&mut self.buf);
        self.buf.as_slice()
    }

    /// Process the result of writing buffered data to the transport stream.
    pub fn written(&mut self, result: Result<usize, std::io::Error>) -> (r: Result<
        (),
        std::io::Error,
    >)
        requires
            result matches Ok(n) ==> old(self).sent() + n <= usize::MAX,
        ensures
            final(self).sequence_number == old(self).sequence_number,
            final(self).sealer == old(self).sealer,
            final(self).secure_random == old(self).secure_random,
            match result {
                Err(e) => r == Err::<(), std::io::Error>(e),
                Ok(n) => r == if n == 0 {
                    Err::<(), std::io::Error>(
                        io_error(IoErrorKind::WriteZero, "failed to write buffered data"@),
                    )
                } else {
                    Ok::<(), std::io::Error>(())
                },
            },
            match result {
                Ok(n) => if n > 0 && old(self).sent() + n == old(self).queued().len() {
                    final(self).queued() == Seq::<u8>::empty() && final(self).sent() == 0
                } else {
                    final(self).queued() == old(self).queued() && final(self).sent() == old(
                        self,
                    ).sent() + n
                },
                Err(_) => final(self).queued() == old(self).queued() && final(self).sent() == old(
                    self,
                ).sent(),
            },
    {
        let written: usize = match result {
            Ok(written) => written,
            Err(e) => return Err(e),
        };
        if written == 0 {
            return Err(new_io_error(IoErrorKind::WriteZero, "failed to write buffered data"));
        }
        self.written = self.written + written;
        if self.written == self.buf.len() {
            self.buf.clear();
            self.written = 0;
        }
        Ok(())
    }

    /// Clear the outgoing buffer after writing its contents to the stream directly.
    pub fn clear(&mut self)
        ensures
            final(self).queued() == Seq::<u8>::empty(),
            final(self).sent() == old(self).sent(),
            final(self).sequence_number == old(self).sequence_number,
            final(self).sealer == old(self).sealer,
            final(self).secure_random == old(self).secure_random,
    {
        self.buf.clear();
    }

    /// Reset the send sequence number to zero.
    ///
    /// As required by strict key exchange after sending `SSH_MSG_NEWKEYS`.
    pub fn reset_sequence_number(&mut self, strict_kx: Option<&StrictKeyExchange>)
        ensures
            *final(self) == if strict_kx is Some {
                WriteState { sequence_number: 0, ..*old(self) }
            } else {
                *old(self)
            },
    {
        if strict_kx.is_some() {
            self.sequence_number = 0;
        }
    }

    /// The buffered data that has not yet been written to the stream.
    pub fn buffered(&self) -> (r: &[u8])
        requires
            self.wf(),
        ensures
            r@ == self.queued().skip(self.sent() as int),
    {
        let r = slice_subrange(self.buf.as_slice(), self.written, self.buf.len());
        assert(r@ =~= self.buf@.skip(self.written as int));
        r
    }
}

/// The number of padding bytes for a packet of which `region` bytes are aligned to blocks.
pub fn padding(region: usize, block: usize) -> (r: usize)
    requires
        8 <= block,
        region + 2 * block + 16 <= usize::MAX,
    ensures
        r == padding_len(region as int, block as int),
{
    proof {
        lemma_rounded_up(region as int, block as int);
    }
    let over: usize = region % block;
    let full: usize = if over == 0 {
        region
    } else {
        region + (block - over)
    };
    // The minimum size of a packet is 16 bytes
    let min_padding: usize = if full < 16 {
        16 - region
    } else {
        full - region
    };
    // Padding is at least 4 bytes
    if min_padding < 4 {
        min_padding + block
    } else {
        min_padding
    }
}

impl Drop for WriteState {
    fn drop(&mut self)
        opens_invariants none
        no_unwind
    {
        zeroize(&mut self.buf);
    }
}

/// Wrapper for the write and encryption state of an SSH connection.
pub struct Encoder<'a> {
    /// The write state to encode packets into.
    pub write: &'a mut WriteState,
}

impl<'a> Encoder<'a> {
    /// Create a new encoder for the given write state.
    pub fn new(write: &'a mut WriteState) -> (r: Encoder<'a>)
        ensures
            *r.write == *old(write),
            *final(r.write) == *final(write),
    {
        Encoder { write }
    }

    /// Send a `SSH_MSG_USERAUTH_FAILURE` message to the client.
    pub fn send_auth_failed(&mut self, can_continue: &[MethodName<'_>]) -> (r: Result<
        (),
        ProtoError,
    >)
        requires
            old(self).write.has_room(1, failure_wire(views(can_continue@), false).len()),
        ensures
            enqueued(
                *old(self).write,
                *final(self).write,
                failure_wire(views(can_continue@), false),
                r,
            ),
            *final(final(self).write) == *final(old(self).write),
    {
        self.enqueue(&UserAuthFailure { can_continue, partial_success: false })
    }

    /// Encode and enqueue a packet for sending.
    pub fn enqueue(&mut self, payload: &impl Encode) -> (r: Result<(), ProtoError>)
        requires
            old(self).write.has_room(1, payload.wire().len()),
        ensures
            enqueued(*old(self).write, *final(self).write, payload.wire(), r),
            *final(final(self).write) == *final(old(self).write),
    {
        self.write.handle_packet(payload, None)
    }
}

/// `opener` undoes what `sealer` does to `packet`.
pub open spec fn opens(opener: Opener, sealer: Sealer, sequence_number: u32, packet: Seq<u8>) -> bool {
    match sealer.0.spec_seal(sequence_number, packet) {
        Ok((body, tag)) => {
            &&& body.len() == packet.len()
            &&& tag.len() == opener.0.spec_tag_len()
            &&& opener.0.spec_packet_length(sequence_number, body.take(4)) == packet.take(4)
            &&& opener.0.spec_open(sequence_number, body, tag) == Ok::<Seq<u8>, CryptoError>(packet)
        },
        Err(_) => false,
    }
}

/// A payload with its padding makes up a packet that receivers take.
pub open spec fn acceptable(payload: Seq<u8>, padding: Seq<u8>) -> bool {
    &&& 0 < payload.len()
    &&& 4 <= padding.len() <= 255
    &&& 1 + payload.len() + padding.len() <= MAX_PACKET_LEN
}

proof fn lemma_framed(payload: Seq<u8>, padding: Seq<u8>, rest: Seq<u8>)
    requires
        acceptable(payload, padding),
    ensures
        ({
            let length = (1 + payload.len() + padding.len()) as u32;
            let data = framed(payload, padding) + rest;
            &&& framed(payload, padding).len() == 4 + length
            &&& parse_packet_length(framed(payload, padding).take(4)) == Ok::<
                (u32, Seq<u8>),
                ProtoError,
            >((length, Seq::empty()))
            &&& parse_packet_length(data) == Ok::<(u32, Seq<u8>), ProtoError>(
                (length, data.skip(4)),
            )
            &&& parse_packet(data, length) == Ok::<(MessageType, Seq<u8>), ProtoError>(
                (MessageType::numbered(payload[0]), payload.skip(1)),
            )
        }),
{
    let length = (1 + payload.len() + padding.len()) as u32;
    let packet = framed(payload, padding);
    let data = packet + rest;
    let tail = seq![padding.len() as u8] + payload + padding;
    assert(packet =~= u32_wire(length) + tail);
    assert(packet.take(4) =~= u32_wire(length));
    assert(packet.take(4) =~= u32_wire(length) + Seq::<u8>::empty());
    u32_round_trip(length, Seq::empty());
    assert(data =~= u32_wire(length) + (tail + rest));
    u32_round_trip(length, tail + rest);
    assert(data.skip(4) =~= tail + rest);
    let next = data.skip(4).skip(1);
    assert(data.skip(4).take(1)[0] == padding.len() as u8);
    assert(next =~= payload + padding + rest);
    assert(next.take(payload.len() as int) =~= payload);
    assert(payload.take(1)[0] == payload[0]);
}

/// What one side frames and the other side reads are the same message, before encryption is in
/// place.
pub proof fn packet_round_trip(
    payload: Seq<u8>,
    padding: Seq<u8>,
    sequence_number: u32,
    rest: Seq<u8>,
)
    requires
        acceptable(payload, padding),
    ensures
        ({
            let length = (1 + payload.len() + padding.len()) as u32;
            let data = framed(payload, padding) + rest;
            &&& incoming(None, sequence_number, data) == Incoming::Ready(length, data)
            &&& parse_packet(data, length) == Ok::<(MessageType, Seq<u8>), ProtoError>(
                (MessageType::numbered(payload[0]), payload.skip(1)),
            )
        }),
{
    lemma_framed(payload, padding, rest);
}

/// What one side encrypts and the other side decrypts are the same message, where the keys match.
pub proof fn sealed_packet_round_trip(
    payload: Seq<u8>,
    padding: Seq<u8>,
    sequence_number: u32,
    sealer: Sealer,
    opener: Opener,
    rest: Seq<u8>,
)
    requires
        acceptable(payload, padding),
        opens(opener, sealer, sequence_number, framed(payload, padding)),
    ensures
        match sealed(Some(sealer), sequence_number, framed(payload, padding)) {
            Ok(packet) => {
                let length = (1 + payload.len() + padding.len()) as u32;
                match incoming(Some(opener), sequence_number, packet + rest) {
                    Incoming::Ready(n, data) => n == length && parse_packet(data, length) == Ok::<
                        (MessageType, Seq<u8>),
                        ProtoError,
                    >((MessageType::numbered(payload[0]), payload.skip(1))),
                    _ => false,
                }
            },
            Err(_) => false,
        },
{
    let packet = framed(payload, padding);
    let length = (1 + payload.len() + padding.len()) as u32;
    let (body, tag) = sealer.0.spec_seal(sequence_number, packet)->Ok_0;
    lemma_framed(payload, padding, tag + rest);
    let data = body + tag + rest;
    let end = 4 + length as int;
    assert(data.take(4) =~= body.take(4));
    assert(data.take(end) =~= body);
    assert(data.subrange(end, end + tag.len()) =~= tag);
    assert(data.skip(end) =~= tag + rest);
}

/// Packets with the padding that the writer chooses are taken by receivers, as long as the
/// cipher's blocks are not longer than 252 bytes and the packet is not too long.
pub proof fn written_packets_are_acceptable(
    sealer: Option<Sealer>,
    payload: Seq<u8>,
    padding: Seq<u8>,
)
    requires
        0 < payload.len(),
        block_size(sealer) <= 252,
        padding.len() == packet_padding(sealer, payload.len()),
        1 + payload.len() + padding.len() <= MAX_PACKET_LEN,
    ensures
        acceptable(payload, padding),
{
    let prefix: int = if sealer is Some {
        4
    } else {
        0
    };
    lemma_rounded_up(5 + payload.len() - prefix, block_size(sealer));
}

} // verus!
