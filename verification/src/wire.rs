//! The SSH wire format: how values are laid out as bytes, and how they are read back.
//!
//! Data type representations are defined in <https://www.rfc-editor.org/rfc/rfc4251#section-5>.

use vstd::prelude::*;
use vstd::slice::slice_subrange;

use crate::error::ProtoError;

verus! {

/// The result of decoding from input that may not yet hold a full value.
#[derive(Debug)]
pub enum Completion<T> {
    /// A complete value was decoded.
    Complete(T),
    /// Not enough input was available to produce a value.
    ///
    /// The payload, if known, is the number of additional bytes needed beyond
    /// the end of the current input (as in `required - available`).
    Incomplete(Option<usize>),
}

/// A decoded value together with the remaining input.
#[derive(Debug)]
pub struct Decoded<'a, T> {
    /// The decoded value.
    pub value: T,
    /// The input remaining after the decoded value.
    pub next: &'a [u8],
}

/// What reading a value from the start of a byte sequence amounts to: the value and the bytes
/// left over, or the error.
pub type Parsed<M> = Result<(M, Seq<u8>), ProtoError>;

/// A type that can be encoded into the SSH wire format.
pub trait Encode: Send + Sync {
    /// The wire representation of `self`.
    spec fn wire(&self) -> Seq<u8>;

    /// Append the wire representation of `self` to `buf`.
    fn encode(&self, buf: &mut Vec<u8>)
        ensures
            final(buf)@ == old(buf)@ + self.wire(),
    ;
}

/// A type that can be decoded from the SSH wire format.
pub trait Decode<'a>: Sized {
    /// The mathematical value that a decoded value stands for.
    type Model;

    /// The mathematical value that `self` stands for.
    spec fn model(&self) -> Self::Model;

    /// What decoding a value from the start of `bytes` gives.
    spec fn parse(bytes: Seq<u8>) -> Parsed<Self::Model>;

    /// Decode a value from the start of `bytes`.
    fn decode(bytes: &'a [u8]) -> (r: Result<Decoded<'a, Self>, ProtoError>)
        ensures
            Self::parse(bytes@) == match r {
                Ok(d) => Ok::<(Self::Model, Seq<u8>), ProtoError>((d.value.model(), d.next@)),
                Err(e) => Err::<(Self::Model, Seq<u8>), ProtoError>(e),
            },
    ;
}

/// What a fixed-width field of `n` bytes amounts to.
pub open spec fn parse_fixed(bytes: Seq<u8>, n: nat) -> Parsed<Seq<u8>> {
    if bytes.len() < n {
        Err(ProtoError::Incomplete(Some((n - bytes.len()) as usize)))
    } else {
        Ok((bytes.take(n as int), bytes.skip(n as int)))
    }
}

/// The four bytes of `n`, most significant first.
pub open spec fn u32_wire(n: u32) -> Seq<u8> {
    seq![
        (n / 0x100_0000) as u8,
        ((n / 0x1_0000) % 0x100) as u8,
        ((n / 0x100) % 0x100) as u8,
        (n % 0x100) as u8,
    ]
}

/// The number whose bytes, most significant first, are the first four of `bytes`.
pub open spec fn u32_value(bytes: Seq<u8>) -> u32 {
    (bytes[0] * 0x100_0000 + bytes[1] * 0x1_0000 + bytes[2] * 0x100 + bytes[3]) as u32
}

/// The eight bytes of `n`, most significant first.
pub open spec fn u64_wire(n: u64) -> Seq<u8> {
    u32_wire((n / 0x1_0000_0000) as u32) + u32_wire((n % 0x1_0000_0000) as u32)
}

/// The number whose bytes, most significant first, are the first eight of `bytes`.
pub open spec fn u64_value(bytes: Seq<u8>) -> u64 {
    (u32_value(bytes) * 0x1_0000_0000 + u32_value(bytes.skip(4))) as u64
}

/// The byte of a boolean.
pub open spec fn bool_wire(b: bool) -> Seq<u8> {
    seq![if b { 1u8 } else { 0u8 }]
}

/// The `string` representation of `bytes`: a length followed by that many bytes.
///
/// The length field holds 32 bits, so of a longer sequence it holds the length modulo 2^32.
#[verifier::opaque]
pub open spec fn string_wire(bytes: Seq<u8>) -> Seq<u8> {
    u32_wire(bytes.len() as u32) + bytes
}

/// What decoding a number of four bytes gives.
pub open spec fn parse_u32(bytes: Seq<u8>) -> Parsed<u32> {
    match parse_fixed(bytes, 4) {
        Ok((b, rest)) => Ok((u32_value(b), rest)),
        Err(e) => Err(e),
    }
}

/// What decoding a single byte gives.
pub open spec fn parse_u8(bytes: Seq<u8>) -> Parsed<u8> {
    match parse_fixed(bytes, 1) {
        Ok((b, rest)) => Ok((b[0], rest)),
        Err(e) => Err(e),
    }
}

/// What decoding a number of eight bytes gives.
pub open spec fn parse_u64(bytes: Seq<u8>) -> Parsed<u64> {
    match parse_fixed(bytes, 8) {
        Ok((b, rest)) => Ok((u64_value(b), rest)),
        Err(e) => Err(e),
    }
}

/// What decoding a `string` gives.
#[verifier::opaque]
pub open spec fn parse_string(bytes: Seq<u8>) -> Parsed<Seq<u8>> {
    match parse_u32(bytes) {
        Ok((n, rest)) => parse_fixed(rest, n as nat),
        Err(e) => Err(e),
    }
}

/// What decoding a boolean gives: any non-zero byte is true.
pub open spec fn parse_bool(bytes: Seq<u8>) -> Parsed<bool> {
    match parse_fixed(bytes, 1) {
        Ok((b, rest)) => Ok((b[0] != 0, rest)),
        Err(e) => Err(e),
    }
}

/// `[T]::split_first_chunk` of std: the first `LEN` elements as an array and the elements after
/// them, or nothing where there are fewer than `LEN`.
pub assume_specification<Item, const LEN: usize>[ <[Item]>::split_first_chunk::<LEN> ](
    slice: &[Item],
) -> (r: Option<(&[Item; LEN], &[Item])>)
    ensures
        match r {
            Some((chunk, rest)) => {
                &&& LEN <= slice@.len()
                &&& chunk@ == slice@.take(LEN as int)
                &&& rest@ == slice@.skip(LEN as int)
            },
            None => slice@.len() < LEN,
        },
;

/// Append `bytes` to `buf`.
pub fn put(buf: &mut Vec<u8>, bytes: &[u8])
    ensures
        final(buf)@ == old(buf)@ + bytes@,
{
    buf.extend_from_slice(bytes);
    assert(buf@ =~= old(buf)@ + bytes@);
}

/// Append the bytes of the string literal or text `text` to `buf`.
pub fn put_text(buf: &mut Vec<u8>, text: &str)
    ensures
        final(buf)@ == old(buf)@ + vstd::utf8::encode_utf8(text@),
{
    put(buf, text.as_bytes());
}

/// Append `text` as a `string` to `buf`.
pub fn put_string(buf: &mut Vec<u8>, text: &str)
    ensures
        final(buf)@ == old(buf)@ + text_wire(text@),
{
    text.as_bytes().encode(buf);
}

/// The `string` representation of a text.
pub open spec fn text_wire(text: Seq<char>) -> Seq<u8> {
    string_wire(vstd::utf8::encode_utf8(text))
}

impl Encode for u32 {
    open spec fn wire(&self) -> Seq<u8> {
        u32_wire(*self)
    }

    fn encode(&self, buf: &mut Vec<u8>) {
        let n: u32 = *self;
        buf.push((n / 0x100_0000) as u8);
        buf.push(((n / 0x1_0000) % 0x100) as u8);
        buf.push(((n / 0x100) % 0x100) as u8);
        buf.push((n % 0x100) as u8);
        assert(buf@ =~= old(buf)@ + u32_wire(n));
    }
}

impl<'a> Decode<'a> for u32 {
    type Model = u32;

    open spec fn model(&self) -> u32 {
        *self
    }

    open spec fn parse(bytes: Seq<u8>) -> Parsed<u32> {
        parse_u32(bytes)
    }

    fn decode(bytes: &'a [u8]) -> (r: Result<Decoded<'a, u32>, ProtoError>) {
        let Decoded { value, next } = <[u8; 4]>::decode(bytes)?;
        Ok(Decoded { value: u32_from_bytes(value), next })
    }
}

/// The number whose bytes, most significant first, are `bytes`.
pub fn u32_from_bytes(bytes: [u8; 4]) -> (r: u32)
    ensures
        r == u32_value(bytes@),
{
    bytes[0] as u32 * 0x100_0000 + bytes[1] as u32 * 0x1_0000 + bytes[2] as u32 * 0x100
        + bytes[3] as u32
}

impl Encode for u64 {
    open spec fn wire(&self) -> Seq<u8> {
        u64_wire(*self)
    }

    fn encode(&self, buf: &mut Vec<u8>) {
        let n: u64 = *self;
        ((n / 0x1_0000_0000) as u32).encode(buf);
        ((n % 0x1_0000_0000) as u32).encode(buf);
        assert(buf@ =~= old(buf)@ + u64_wire(n));
    }
}

impl<'a> Decode<'a> for u64 {
    type Model = u64;

    open spec fn model(&self) -> u64 {
        *self
    }

    open spec fn parse(bytes: Seq<u8>) -> Parsed<u64> {
        parse_u64(bytes)
    }

    fn decode(bytes: &'a [u8]) -> (r: Result<Decoded<'a, u64>, ProtoError>) {
        let Decoded { value, next } = <[u8; 8]>::decode(bytes)?;
        let high: u32 = u32_from_bytes([value[0], value[1], value[2], value[3]]);
        let low: u32 = u32_from_bytes([value[4], value[5], value[6], value[7]]);
        Ok(Decoded { value: high as u64 * 0x1_0000_0000 + low as u64, next })
    }
}

impl Encode for bool {
    open spec fn wire(&self) -> Seq<u8> {
        bool_wire(*self)
    }

    fn encode(&self, buf: &mut Vec<u8>) {
        buf.push(if *self { 1u8 } else { 0u8 });
        assert(buf@ =~= old(buf)@ + bool_wire(*self));
    }
}

impl<'a> Decode<'a> for bool {
    type Model = bool;

    open spec fn model(&self) -> bool {
        *self
    }

    open spec fn parse(bytes: Seq<u8>) -> Parsed<bool> {
        parse_bool(bytes)
    }

    fn decode(bytes: &'a [u8]) -> (r: Result<Decoded<'a, bool>, ProtoError>) {
        let Decoded { value, next } = <[u8; 1]>::decode(bytes)?;
        Ok(Decoded { value: value[0] != 0, next })
    }
}

impl Encode for [u8] {
    open spec fn wire(&self) -> Seq<u8> {
        string_wire(self@)
    }

    fn encode(&self, buf: &mut Vec<u8>) {
        proof {
            reveal(string_wire);
        }
        (self.len() as u32).encode(buf);
        put(buf, self);
        assert(buf@ =~= old(buf)@ + string_wire(self@));
    }
}

impl<'a> Decode<'a> for &'a [u8] {
    type Model = Seq<u8>;

    open spec fn model(&self) -> Seq<u8> {
        self@
    }

    open spec fn parse(bytes: Seq<u8>) -> Parsed<Seq<u8>> {
        parse_string(bytes)
    }

    fn decode(bytes: &'a [u8]) -> (r: Result<Decoded<'a, &'a [u8]>, ProtoError>) {
        proof {
            reveal(parse_string);
        }
        let Decoded { value: len, next } = u32::decode(bytes)?;
        let len: usize = len as usize;
        if next.len() < len {
            return Err(ProtoError::Incomplete(Some(len - next.len())));
        }
        let (value, rest) = next.split_at(len);
        assert(rest@ =~= next@.skip(len as int));
        assert(value@ =~= next@.take(len as int));
        Ok(Decoded { value, next: rest })
    }
}

impl<'a, const N: usize> Decode<'a> for [u8; N] {
    type Model = Seq<u8>;

    open spec fn model(&self) -> Seq<u8> {
        self@
    }

    open spec fn parse(bytes: Seq<u8>) -> Parsed<Seq<u8>> {
        parse_fixed(bytes, N as nat)
    }

    fn decode(bytes: &'a [u8]) -> (r: Result<Decoded<'a, [u8; N]>, ProtoError>) {
        match bytes.split_first_chunk::<N>() {
            Some((value, next)) => Ok(Decoded { value: *value, next }),
            None => Err(ProtoError::Incomplete(Some(N - bytes.len()))),
        }
    }
}

impl<'a> Decode<'a> for u8 {
    type Model = u8;

    open spec fn model(&self) -> u8 {
        *self
    }

    open spec fn parse(bytes: Seq<u8>) -> Parsed<u8> {
        parse_u8(bytes)
    }

    fn decode(bytes: &'a [u8]) -> (r: Result<Decoded<'a, u8>, ProtoError>) {
        if bytes.len() == 0 {
            return Err(ProtoError::Incomplete(Some(1)));
        }
        let next = slice_subrange(bytes, 1, bytes.len());
        assert(next@ =~= bytes@.skip(1));
        Ok(Decoded { value: bytes[0], next })
    }
}

/// A number of four bytes is read back as it was written, whatever follows it.
pub proof fn u32_round_trip(n: u32, rest: Seq<u8>)
    ensures
        parse_u32(u32_wire(n) + rest) == Ok::<(u32, Seq<u8>), ProtoError>((n, rest)),
{
    let bytes = u32_wire(n) + rest;
    assert(bytes.take(4) =~= u32_wire(n));
    assert(bytes.skip(4) =~= rest);
}

/// The first four bytes of what starts with the bytes of `n` make up `n`.
proof fn lemma_u32_value(n: u32, rest: Seq<u8>)
    ensures
        u32_value(u32_wire(n) + rest) == n,
{
    let b = u32_wire(n) + rest;
    assert(b[0] == u32_wire(n)[0] && b[1] == u32_wire(n)[1] && b[2] == u32_wire(n)[2] && b[3]
        == u32_wire(n)[3]);
}

/// A number of eight bytes is read back as it was written, whatever follows it.
pub proof fn u64_round_trip(n: u64, rest: Seq<u8>)
    ensures
        parse_u64(u64_wire(n) + rest) == Ok::<(u64, Seq<u8>), ProtoError>((n, rest)),
{
    let high = (n / 0x1_0000_0000) as u32;
    let low = (n % 0x1_0000_0000) as u32;
    assert(high * 0x1_0000_0000 + low == n);
    lemma_u32_value(high, u32_wire(low));
    lemma_u32_value(low, Seq::empty());
    let (h, l) = (u32_wire(high), u32_wire(low));
    assert(h.len() == 4 && l.len() == 4);
    lemma_halves(h, l, rest);
    assert(l + Seq::<u8>::empty() =~= l);
}

proof fn lemma_halves(h: Seq<u8>, l: Seq<u8>, rest: Seq<u8>)
    requires
        h.len() == 4,
        l.len() == 4,
    ensures
        ((h + l) + rest).take(8) == h + l,
        ((h + l) + rest).skip(8) == rest,
        (h + l).skip(4) == l,
{
    assert(((h + l) + rest).take(8) =~= h + l);
    assert(((h + l) + rest).skip(8) =~= rest);
    assert((h + l).skip(4) =~= l);
}

/// A boolean is read back as it was written, whatever follows it.
pub proof fn bool_round_trip(b: bool, rest: Seq<u8>)
    ensures
        parse_bool(bool_wire(b) + rest) == Ok::<(bool, Seq<u8>), ProtoError>((b, rest)),
{
    let bytes = bool_wire(b) + rest;
    assert(bytes.take(1) =~= bool_wire(b));
    assert(bytes.skip(1) =~= rest);
}

/// A `string` whose length fits its length field is read back as it was written, whatever
/// follows it.
pub proof fn string_round_trip(bytes: Seq<u8>, rest: Seq<u8>)
    requires
        bytes.len() <= u32::MAX,
    ensures
        parse_string(string_wire(bytes) + rest) == Ok::<(Seq<u8>, Seq<u8>), ProtoError>(
            (bytes, rest),
        ),
{
    reveal(string_wire);
    reveal(parse_string);
    let n = bytes.len() as u32;
    assert(string_wire(bytes) + rest =~= u32_wire(n) + (bytes + rest));
    u32_round_trip(n, bytes + rest);
    assert((bytes + rest).take(n as int) =~= bytes);
    assert((bytes + rest).skip(n as int) =~= rest);
}

/// A `string` takes four bytes more than its contents.
pub proof fn lemma_string_len(bytes: Seq<u8>)
    ensures
        string_wire(bytes).len() == 4 + bytes.len(),
{
    reveal(string_wire);
}

/// What was read of a `string` and what is left make up the input.
pub proof fn lemma_parse_string_len(bytes: Seq<u8>)
    ensures
        parse_string(bytes) matches Ok((value, rest)) ==> 4 + value.len() + rest.len()
            == bytes.len(),
{
    reveal(parse_string);
}

/// A text whose encoding fits the length field is read back as it was written, whatever follows
/// it.
pub proof fn text_round_trip(text: Seq<char>, rest: Seq<u8>)
    requires
        vstd::utf8::encode_utf8(text).len() <= u32::MAX,
    ensures
        parse_string(text_wire(text) + rest) == Ok::<(Seq<u8>, Seq<u8>), ProtoError>(
            (vstd::utf8::encode_utf8(text), rest),
        ),
        vstd::utf8::valid_utf8(vstd::utf8::encode_utf8(text)),
        vstd::utf8::decode_utf8(vstd::utf8::encode_utf8(text)) == text,
{
    string_round_trip(vstd::utf8::encode_utf8(text), rest);
    vstd::utf8::encode_utf8_valid_utf8(text);
    vstd::utf8::encode_utf8_decode_utf8(text);
}

} // verus!
