//! The data types that messages are made of.

use vstd::prelude::*;
use vstd::utf8::encode_utf8;

use crate::error::ProtoError;
use crate::key_exchange::{mpint, mpint_wire, stripped};
use crate::named::{encoded_names, names_wire, with_commas, Named};
use crate::packet::{parse_message_type, type_wire, DisconnectReason, MessageType};
use crate::wire::{bool_wire, parse_bool, parse_fixed, parse_string, parse_u32, parse_u64, parse_u8};
use crate::wire::{string_round_trip, string_wire, text_wire, u32_round_trip, u32_wire};
use crate::wire::{u64_round_trip, u64_wire};

verus! {

/// A `uint32` is four bytes, most significant first, and is read from any four bytes as the number
/// that they make up. From fewer it is not read, and it is said how many are missing
/// (<https://www.rfc-editor.org/rfc/rfc4251#section-5>).
pub proof fn u32_layout(n: u32, bytes: Seq<u8>)
    ensures
        u32_wire(n).len() == 4,
        u32_wire(n)[0] * 0x100_0000 + u32_wire(n)[1] * 0x1_0000 + u32_wire(n)[2] * 0x100
            + u32_wire(n)[3] == n,
        match parse_u32(bytes) {
            Ok((value, rest)) => {
                &&& bytes.len() >= 4
                &&& value == bytes[0] * 0x100_0000 + bytes[1] * 0x1_0000 + bytes[2] * 0x100
                    + bytes[3]
                &&& rest == bytes.subrange(4, bytes.len() as int)
            },
            Err(e) => bytes.len() < 4 && e == ProtoError::Incomplete(
                Some((4 - bytes.len()) as usize),
            ),
        },
{
    if bytes.len() >= 4 {
        assert(bytes.take(4)[0] == bytes[0] && bytes.take(4)[1] == bytes[1] && bytes.take(4)[2]
            == bytes[2] && bytes.take(4)[3] == bytes[3]);
        assert(bytes.skip(4) =~= bytes.subrange(4, bytes.len() as int));
    }
}

/// A `uint64` is eight bytes, most significant first: the more significant half comes first. From
/// fewer it is not read.
pub proof fn u64_layout(n: u64, high: u32, low: u32, rest: Seq<u8>)
    requires
        n == high * 0x1_0000_0000 + low,
    ensures
        u64_wire(n) == u32_wire(high) + u32_wire(low),
        parse_u64(u32_wire(high) + u32_wire(low) + rest) == Ok::<(u64, Seq<u8>), ProtoError>(
            (n, rest),
        ),
        rest.len() < 8 ==> parse_u64(rest) == Err::<(u64, Seq<u8>), ProtoError>(
            ProtoError::Incomplete(Some((8 - rest.len()) as usize)),
        ),
{
    assert(n / 0x1_0000_0000 == high as u64 && n % 0x1_0000_0000 == low as u64) by (nonlinear_arith)
        requires
            n == high * 0x1_0000_0000 + low,
            0 <= low < 0x1_0000_0000,
    ;
    u64_round_trip(n, rest);
}

/// A `boolean` is one byte, which is written as 0 or 1; any byte but 0 is read as true.
pub proof fn boolean_layout(b: bool, byte: u8, rest: Seq<u8>)
    ensures
        bool_wire(b).len() == 1,
        bool_wire(b)[0] == 1 <==> b,
        bool_wire(b)[0] == 0 <==> !b,
        parse_bool(seq![byte] + rest) == Ok::<(bool, Seq<u8>), ProtoError>((byte != 0, rest)),
        parse_u8(seq![byte] + rest) == Ok::<(u8, Seq<u8>), ProtoError>((byte, rest)),
        parse_bool(Seq::empty()) == Err::<(bool, Seq<u8>), ProtoError>(
            ProtoError::Incomplete(Some(1)),
        ),
{
    assert((seq![byte] + rest).take(1) =~= seq![byte]);
    assert((seq![byte] + rest).skip(1) =~= rest);
}

/// A `string` is its length, as a `uint32`, and then its bytes; what follows them is left. Where
/// some of the bytes are not there yet it is not read, and it is said how many are missing.
pub proof fn string_layout(bytes: Seq<u8>, rest: Seq<u8>, there: int)
    requires
        bytes.len() <= u32::MAX,
        0 <= there < bytes.len(),
    ensures
        string_wire(bytes) == u32_wire(bytes.len() as u32) + bytes,
        parse_string(u32_wire(bytes.len() as u32) + (bytes + rest)) == Ok::<
            (Seq<u8>, Seq<u8>),
            ProtoError,
        >((bytes, rest)),
        parse_string(u32_wire(bytes.len() as u32) + bytes.take(there)) == Err::<
            (Seq<u8>, Seq<u8>),
            ProtoError,
        >(ProtoError::Incomplete(Some((bytes.len() - there) as usize))),
{
    reveal(string_wire);
    reveal(parse_string);
    string_round_trip(bytes, rest);
    assert(string_wire(bytes) + rest =~= u32_wire(bytes.len() as u32) + (bytes + rest));
    u32_round_trip(bytes.len() as u32, bytes.take(there));
}

/// A text is written as the `string` of its encoding.
pub proof fn text_layout(text: Seq<char>)
    ensures
        text_wire(text) == u32_wire(encode_utf8(text).len() as u32) + encode_utf8(text),
{
    reveal(string_wire);
}

/// A fixed number of bytes is read as it is, and nothing is read where there are fewer.
pub proof fn fixed_layout(bytes: Seq<u8>, rest: Seq<u8>, n: nat)
    ensures
        parse_fixed(bytes + rest, bytes.len()) == Ok::<(Seq<u8>, Seq<u8>), ProtoError>(
            (bytes, rest),
        ),
        bytes.len() < n ==> parse_fixed(bytes, n) == Err::<(Seq<u8>, Seq<u8>), ProtoError>(
            ProtoError::Incomplete(Some((n - bytes.len()) as usize)),
        ),
{
    assert((bytes + rest).take(bytes.len() as int) =~= bytes);
    assert((bytes + rest).skip(bytes.len() as int) =~= rest);
}

/// The message numbers (<https://www.rfc-editor.org/rfc/rfc4250#section-4.1.2>): a payload starts
/// with the number of its message.
pub proof fn message_numbers(message_type: MessageType, byte: u8, rest: Seq<u8>)
    ensures
        type_wire(message_type).len() == 1,
        ({
            let number = type_wire(message_type)[0];
            &&& message_type is Disconnect ==> number == 1
            &&& message_type is Ignore ==> number == 2
            &&& message_type is Unimplemented ==> number == 3
            &&& message_type is Debug ==> number == 4
            &&& message_type is ServiceRequest ==> number == 5
            &&& message_type is ServiceAccept ==> number == 6
            &&& message_type is ExtInfo ==> number == 7
            &&& message_type is KeyExchangeInit ==> number == 20
            &&& message_type is NewKeys ==> number == 21
            &&& message_type is KeyExchangeEcdhInit ==> number == 30
            &&& message_type is KeyExchangeEcdhReply ==> number == 31
            &&& message_type is UserAuthRequest ==> number == 50
            &&& message_type is UserAuthFailure ==> number == 51
            &&& message_type is UserAuthSuccess ==> number == 52
            &&& message_type is UserAuthBanner ==> number == 53
            &&& message_type is UserAuthPkOk ==> number == 60
            &&& message_type is GlobalRequest ==> number == 80
            &&& message_type is RequestSuccess ==> number == 81
            &&& message_type is RequestFailure ==> number == 82
            &&& message_type is ChannelOpen ==> number == 90
            &&& message_type is ChannelOpenConfirmation ==> number == 91
            &&& message_type is ChannelOpenFailure ==> number == 92
            &&& message_type is ChannelWindowAdjust ==> number == 93
            &&& message_type is ChannelData ==> number == 94
            &&& message_type is ChannelExtendedData ==> number == 95
            &&& message_type is ChannelEof ==> number == 96
            &&& message_type is ChannelClose ==> number == 97
            &&& message_type is ChannelRequest ==> number == 98
            &&& message_type is ChannelSuccess ==> number == 99
            &&& message_type is ChannelFailure ==> number == 100
        }),
        // What is read is the type that is written in the same way.
        parse_message_type(seq![byte] + rest) matches Ok((read, next)) && next == rest
            && type_wire(read) == seq![byte] && (read is Unknown ==> forall|known: MessageType|
            !(known is Unknown) ==> #[trigger] type_wire(known) != seq![byte]),
        parse_message_type(Seq::empty()) is Err,
{
    assert((seq![byte] + rest).take(1) =~= seq![byte]);
    assert((seq![byte] + rest).skip(1) =~= rest);
    assert(seq![byte][0] == byte);
    if MessageType::numbered(byte) is Unknown {
        assert forall|known: MessageType| !(known is Unknown) implies #[trigger] type_wire(known)
            != seq![byte] by {
            assert(type_wire(known)[0] != byte);
        }
    }
}

/// The reason codes of disconnect messages
/// (<https://www.rfc-editor.org/rfc/rfc4253#section-11.1>). No other code is known.
pub proof fn disconnect_codes(code: u32)
    ensures
        match DisconnectReason::coded(code) {
            Ok(reason) => {
                &&& 1 <= code <= 15
                &&& reason.spec_code() == code
                &&& reason is HostNotAllowedToConnect <==> code == 1
                &&& reason is ProtocolError <==> code == 2
                &&& reason is KeyExchangeFailed <==> code == 3
                &&& reason is Reserved <==> code == 4
                &&& reason is MacError <==> code == 5
                &&& reason is CompressionError <==> code == 6
                &&& reason is ServiceNotAvailable <==> code == 7
                &&& reason is ProtocolVersionNotSupported <==> code == 8
                &&& reason is HostKeyNotVerifiable <==> code == 9
                &&& reason is ConnectionLost <==> code == 10
                &&& reason is ByApplication <==> code == 11
                &&& reason is TooManyConnections <==> code == 12
                &&& reason is AuthCancelledByUser <==> code == 13
                &&& reason is NoMoreAuthMethodsAvailable <==> code == 14
                &&& reason is IllegalUserName <==> code == 15
            },
            Err(_) => code == 0 || code > 15,
        },
{
}

/// The number whose digits to base 256, most significant first, are `bytes`.
pub open spec fn number(bytes: Seq<u8>) -> nat
    decreases bytes.len(),
{
    if bytes.len() == 0 {
        0
    } else {
        number(bytes.drop_last()) * 256 + bytes.last() as nat
    }
}

/// Zeros before a number leave it as it is.
pub proof fn lemma_leading_zeros(bytes: Seq<u8>, n: nat)
    ensures
        number(Seq::new(n, |i: int| 0u8) + bytes) == number(bytes),
    decreases n + bytes.len(),
{
    let zeros = Seq::new(n, |i: int| 0u8);
    let all = zeros + bytes;
    if bytes.len() > 0 {
        lemma_leading_zeros(bytes.drop_last(), n);
        assert(all.drop_last() =~= zeros + bytes.drop_last());
        assert(all.last() == bytes.last());
    } else if n > 0 {
        lemma_leading_zeros(bytes, (n - 1) as nat);
        assert(all.drop_last() =~= Seq::new((n - 1) as nat, |i: int| 0u8) + bytes);
        assert(all.last() == 0);
        assert(number(bytes) == 0);
    } else {
        assert(all =~= bytes);
    }
}

/// An `mpint` holds the same number as the bytes that it was made from, is never negative, and has
/// no more bytes than that takes: it starts with a zero only where the next byte would make it
/// negative (<https://www.rfc-editor.org/rfc/rfc4251#section-5>).
pub proof fn mpint_layout(value: Seq<u8>)
    ensures
        mpint_wire(value) == string_wire(mpint(value)),
        number(mpint(value)) == number(value),
        mpint(value).len() > 0 ==> mpint(value)[0] < 0x80,
        mpint(value).len() > 0 && mpint(value)[0] == 0 ==> mpint(value).len() > 1 && mpint(value)[1]
            >= 0x80,
{
    lemma_stripped(value);
    let digits = stripped(value);
    lemma_leading_zeros(digits, 1);
    assert(Seq::new(1, |i: int| 0u8) + digits =~= seq![0u8] + digits);
}

proof fn lemma_stripped(value: Seq<u8>)
    ensures
        number(stripped(value)) == number(value),
        stripped(value).len() > 0 ==> stripped(value)[0] != 0,
    decreases value.len(),
{
    if value.len() > 0 && value[0] == 0 {
        lemma_stripped(value.skip(1));
        lemma_leading_zeros(value.skip(1), 1);
        assert(Seq::new(1, |i: int| 0u8) + value.skip(1) =~= value);
    }
}

/// A list of names is their names with commas between them
/// (<https://www.rfc-editor.org/rfc/rfc4251#section-5>).
pub proof fn name_list_layout<'a, T: Named<'a>>(values: Seq<T::V>, value: T::V)
    ensures
        names_wire::<T>(Seq::empty()) == string_wire(Seq::empty()),
        names_wire::<T>(seq![value]) == text_wire(T::spec_name(value)),
        values.len() > 0 ==> exists|list: Seq<u8>| #[trigger]
            string_wire(list) == names_wire::<T>(values) && names_wire::<T>(values.push(value))
                == string_wire(list + seq![44u8] + encode_utf8(T::spec_name(value))),
{
    reveal(names_wire);
    let list = with_commas(encoded_names::<T>(values));
    assert(encoded_names::<T>(seq![value]) =~= seq![encode_utf8(T::spec_name(value))]);
    assert(encoded_names::<T>(Seq::empty()) =~= Seq::empty());
    let names = encoded_names::<T>(values.push(value));
    assert(names.drop_last() =~= encoded_names::<T>(values));
    assert(string_wire(list) == names_wire::<T>(values));
}

} // verus!
