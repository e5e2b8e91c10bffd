//! The protocol version exchange (RFC 4253 section 4.2).

use vstd::prelude::*;
use vstd::slice::slice_subrange;
use vstd::utf8::{decode_utf8, encode_utf8, valid_utf8};

use crate::error::{IdentificationError, ProtoError};
use crate::text::{can_start_text, find, from_utf8, split_at_char, split_once, starts_text};
use crate::text::{strip_prefix, without_prefix};
use crate::wire::{put_text, Completion, Decoded, Encode};

verus! {

/// The protocol version implemented by this crate.
///
/// See <https://www.rfc-editor.org/rfc/rfc4253#section-4.2>.
pub const PROTOCOL: &'static str = "2.0";

/// Protocol version exchange identification string.
///
/// Exchanged by both sides before any packets are sent, in the form
/// `SSH-protoversion-softwareversion SP comments CR LF`.
///
/// See <https://www.rfc-editor.org/rfc/rfc4253#section-4.2>.
#[derive(Debug)]
pub struct Identification<'a> {
    /// The protocol version, `2.0` for this version of the protocol.
    pub protocol: &'a str,
    /// The software name and version of the implementation.
    pub software: &'a str,
    /// Optional comments, empty if not present.
    pub comments: &'a str,
}

/// What an [`Identification`] says.
pub struct IdentificationView {
    /// The protocol version.
    pub protocol: Seq<char>,
    /// The software name and version of the implementation.
    pub software: Seq<char>,
    /// Optional comments, empty if not present.
    pub comments: Seq<char>,
}

impl View for Identification<'_> {
    type V = IdentificationView;

    open spec fn view(&self) -> IdentificationView {
        IdentificationView {
            protocol: self.protocol@,
            software: self.software@,
            comments: self.comments@,
        }
    }
}

impl IdentificationView {
    /// The identification string without the line end.
    pub open spec fn line(self) -> Seq<char> {
        "SSH-"@ + self.protocol + "-"@ + self.software + if self.comments.len() == 0 {
            Seq::<char>::empty()
        } else {
            " "@ + self.comments
        }
    }
}

/// The most bytes that an identification string takes, including its line end.
pub const MAX_LEN: usize = 255;

/// The first index at or after `i` at which a carriage return is followed by a line feed.
pub open spec fn line_end(bytes: Seq<u8>, i: int) -> Option<int>
    decreases bytes.len() - i,
{
    if i + 1 >= bytes.len() {
        None
    } else if bytes[i] == 13 && bytes[i + 1] == 10 {
        Some(i)
    } else {
        line_end(bytes, i + 1)
    }
}

/// The index of the first line end.
fn find_line_end(bytes: &[u8]) -> (r: Option<usize>)
    ensures
        match r {
            Some(i) => line_end(bytes@, 0) == Some(i as int) && i + 2 <= bytes@.len(),
            None => line_end(bytes@, 0) is None,
        },
{
    if bytes.len() < 2 {
        return None;
    }
    let mut i: usize = 0;
    while i < bytes.len() - 1
        invariant
            2 <= bytes@.len(),
            i <= bytes@.len() - 1,
            line_end(bytes@, 0) == line_end(bytes@, i as int),
        decreases bytes@.len() - i,
    {
        if bytes[i] == 13 && bytes[i + 1] == 10 {
            return Some(i);
        }
        i += 1;
    }
    None
}

impl<'a> Identification<'a> {
    /// What an identification line without its line end says.
    pub open spec fn parse_line(line: Seq<char>) -> Result<IdentificationView, ProtoError> {
        match without_prefix(line, "SSH-"@) {
            None => Err(ProtoError::Identification(IdentificationError::NoSsh)),
            Some(rest) => match split_at_char(rest, '-') {
                None => Err(ProtoError::Identification(IdentificationError::NoVersion)),
                Some((protocol, rest)) => match split_at_char(rest, ' ') {
                    None => Ok(
                        IdentificationView { protocol, software: rest, comments: Seq::empty() },
                    ),
                    Some((software, comments)) => Ok(
                        IdentificationView { protocol, software, comments },
                    ),
                },
            },
        }
    }

    /// What decoding an identification string from the start of `bytes` gives: what it says and
    /// the bytes after its line end, nothing where the line end has not arrived yet, or an error.
    ///
    /// Only the line has to be text; what follows it is left alone. Of a line that has not arrived
    /// as a whole, the part that has must be the start of a text.
    pub open spec fn parse(bytes: Seq<u8>) -> Result<
        Option<(IdentificationView, Seq<u8>)>,
        ProtoError,
    > {
        match line_end(bytes, 0) {
            None => if !starts_text(bytes) {
                Err(ProtoError::Identification(IdentificationError::InvalidUtf8))
            } else if bytes.len() + 2 > MAX_LEN {
                Err(ProtoError::Identification(IdentificationError::TooLong))
            } else {
                Ok(None)
            },
            Some(end) => if !valid_utf8(bytes.take(end)) {
                Err(ProtoError::Identification(IdentificationError::InvalidUtf8))
            } else if end + 2 > MAX_LEN {
                Err(ProtoError::Identification(IdentificationError::TooLong))
            } else {
                match Identification::parse_line(decode_utf8(bytes.take(end))) {
                    Err(e) => Err(e),
                    Ok(view) => Ok(Some((view, bytes.skip(end + 2)))),
                }
            },
        }
    }

    /// Decode an identification string from the start of `bytes`.
    pub fn decode(bytes: &'a [u8]) -> (r: Result<Completion<Decoded<'a, Self>>, ProtoError>)
        ensures
            match r {
                Ok(Completion::Complete(d)) => Identification::parse(bytes@) == Ok::<
                    Option<(IdentificationView, Seq<u8>)>,
                    ProtoError,
                >(Some((d.value@, d.next@))),
                Ok(Completion::Incomplete(n)) => n is None && Identification::parse(bytes@) == Ok::<
                    Option<(IdentificationView, Seq<u8>)>,
                    ProtoError,
                >(None),
                Err(e) => Identification::parse(bytes@) == Err::<
                    Option<(IdentificationView, Seq<u8>)>,
                    ProtoError,
                >(e),
            },
    {
        let Some(end) = find_line_end(bytes) else {
            if !can_start_text(bytes) {
                return Err(ProtoError::Identification(IdentificationError::InvalidUtf8));
            }
            // The line end is not there yet, and counts towards the maximum length.
            return match bytes.len() > MAX_LEN - 2 {
                true => Err(ProtoError::Identification(IdentificationError::TooLong)),
                false => Ok(Completion::Incomplete(None)),
            };
        };
        let len: usize = bytes.len();
        let line = slice_subrange(bytes, 0, end);
        let next = slice_subrange(bytes, end + 2, len);
        assert(line@ =~= bytes@.take(end as int));
        assert(next@ =~= bytes@.skip(end + 2));

        let Some(message) = from_utf8(line) else {
            return Err(ProtoError::Identification(IdentificationError::InvalidUtf8));
        };
        if end > MAX_LEN - 2 {
            return Err(ProtoError::Identification(IdentificationError::TooLong));
        }

        let Some(rest) = strip_prefix(message, "SSH-") else {
            return Err(ProtoError::Identification(IdentificationError::NoSsh));
        };

        let Some((protocol, rest)) = split_once(rest, '-') else {
            return Err(ProtoError::Identification(IdentificationError::NoVersion));
        };

        let (software, comments) = match split_once(rest, ' ') {
            Some((software, comments)) => (software, comments),
            None => {
                proof {
                    reveal_strlit("");
                    assert(""@ =~= Seq::<char>::empty());
                }
                (rest, "")
            },
        };

        let out = Identification { protocol, software, comments };

        Ok(Completion::Complete(Decoded { value: out, next }))
    }
}

impl Encode for Identification<'_> {
    open spec fn wire(&self) -> Seq<u8> {
        encode_utf8(self@.line()) + encode_utf8("\r\n"@)
    }

    fn encode(&self, buf: &mut Vec<u8>) {
        let Identification { protocol, software, comments } = self;

        put_text(buf, "SSH-");
        put_text(buf, protocol);
        put_text(buf, "-");
        put_text(buf, software);
        proof {
            lemma_encode_concat("SSH-"@, protocol@);
            lemma_encode_concat("SSH-"@ + protocol@, "-"@);
            lemma_encode_concat("SSH-"@ + protocol@ + "-"@, software@);
            assert(buf@ =~= old(buf)@ + encode_utf8("SSH-"@ + protocol@ + "-"@ + software@));
        }
        let ghost head = "SSH-"@ + protocol@ + "-"@ + software@;
        if !self.comments.is_empty() {
            put_text(buf, " ");
            put_text(buf, comments);
            proof {
                lemma_encode_concat(" "@, comments@);
                lemma_encode_concat(head, " "@ + comments@);
                assert(buf@ =~= old(buf)@ + encode_utf8(self@.line()));
            }
        } else {
            assert(head + Seq::<char>::empty() =~= head);
        }
        put_text(buf, "\r\n");
        assert(buf@ =~= old(buf)@ + self.wire());
    }
}

/// Encoding works piece by piece.
pub proof fn lemma_encode_concat(a: Seq<char>, b: Seq<char>)
    ensures
        encode_utf8(a + b) == encode_utf8(a) + encode_utf8(b),
    decreases a.len(),
{
    if a.len() == 0 {
        assert(a + b =~= b);
        assert(encode_utf8(a) + encode_utf8(b) =~= encode_utf8(b));
    } else {
        lemma_encode_concat(a.drop_first(), b);
        assert((a + b).drop_first() =~= a.drop_first() + b);
        assert(encode_utf8(a + b) =~= encode_utf8(a) + encode_utf8(b));
    }
}

/// Where a line holds no line end, the first line end is the one behind it.
proof fn lemma_line_end(line: Seq<u8>, rest: Seq<u8>, i: int)
    requires
        0 <= i <= line.len(),
        line_end(line, i) is None,
    ensures
        line_end(line + seq![13u8, 10u8] + rest, i) == Some(line.len() as int),
    decreases line.len() - i,
{
    let all = line + seq![13u8, 10u8] + rest;
    if i + 1 < line.len() {
        lemma_line_end(line, rest, i + 1);
    } else if i + 1 == line.len() {
        assert(all[i + 1] == 13);
        assert(line_end(all, i) == line_end(all, i + 1));
        assert(all[i + 2] == 10);
        assert(line_end(all, i + 1) == Some(i + 1));
    } else {
        assert(all[i] == 13 && all[i + 1] == 10);
    }
}

proof fn lemma_find(s: Seq<char>, c: char, rest: Seq<char>, i: int)
    requires
        0 <= i <= s.len(),
        !s.contains(c),
    ensures
        find(s + seq![c] + rest, c, i) == Some(s.len() as int),
        find(s, c, i) is None,
    decreases s.len() - i,
{
    let all = s + seq![c] + rest;
    if i < s.len() {
        assert(all[i] == s[i]);
        assert(s.contains(s[i]));
        lemma_find(s, c, rest, i + 1);
    } else {
        assert(all[i] == c);
    }
}

/// An identification line says what it was made to say, where the protocol version holds no `-`
/// and the software version no space: these end the two fields.
pub proof fn identification_line_round_trip(view: IdentificationView)
    requires
        !view.protocol.contains('-'),
        !view.software.contains(' '),
    ensures
        Identification::parse_line(view.line()) == Ok::<IdentificationView, ProtoError>(view),
{
    reveal_strlit("SSH-");
    reveal_strlit("-");
    reveal_strlit(" ");
    let comments = if view.comments.len() == 0 {
        Seq::<char>::empty()
    } else {
        " "@ + view.comments
    };
    let line = view.line();
    let rest = view.protocol + seq!['-'] + (view.software + comments);
    assert(line.take(4) =~= "SSH-"@);
    assert(line.skip(4) =~= rest);
    lemma_find(view.protocol, '-', view.software + comments, 0);
    assert(rest.take(view.protocol.len() as int) =~= view.protocol);
    assert(rest.skip(view.protocol.len() as int + 1) =~= view.software + comments);
    lemma_find(view.software, ' ', view.comments, 0);
    if view.comments.len() == 0 {
        assert(view.software + comments =~= view.software);
        assert(view.comments =~= Seq::empty());
    } else {
        let tail = view.software + comments;
        assert(tail =~= view.software + seq![' '] + view.comments);
        assert(tail.take(view.software.len() as int) =~= view.software);
        assert(tail.skip(view.software.len() as int + 1) =~= view.comments);
    }
}

/// An identification string is read back as it was written, whatever follows it.
///
/// The fields must not hold what separates them, and the line must not be too long.
pub proof fn identification_round_trip(id: Identification<'_>, rest: Seq<u8>)
    requires
        !id.protocol@.contains('-'),
        !id.software@.contains(' '),
        line_end(encode_utf8(id@.line()), 0) is None,
        id.wire().len() <= MAX_LEN,
    ensures
        Identification::parse(id.wire() + rest) == Ok::<
            Option<(IdentificationView, Seq<u8>)>,
            ProtoError,
        >(Some((id@, rest))),
{
    reveal_strlit("\r\n");
    let line = encode_utf8(id@.line());
    let all = line + seq![13u8, 10u8] + rest;
    vstd::utf8::is_ascii_chars_encode_utf8("\r\n"@);
    assert(encode_utf8("\r\n"@) =~= seq![13u8, 10u8]);
    assert(id.wire() + rest == all);
    lemma_line_end(line, rest, 0);
    assert(all.take(line.len() as int) =~= line);
    assert(all.skip(line.len() as int + 2) =~= rest);
    vstd::utf8::encode_utf8_valid_utf8(id@.line());
    vstd::utf8::encode_utf8_decode_utf8(id@.line());
    identification_line_round_trip(id@);
}

} // verus!
