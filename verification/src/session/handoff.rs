//! The message in which a session state is handed over.

use vstd::prelude::*;
use vstd::slice::slice_subrange;

use crate::error::{io_error, new_io_error, Error, IoErrorKind};
use crate::wire::{put, string_wire, u32_from_bytes, u32_round_trip, u32_value, u32_wire, Encode};

verus! {

/// The message with a session state: its length and its encoding.
pub fn handoff_message(state: &impl Encode) -> (r: Vec<u8>)
    ensures
        r@ == string_wire(state.wire()),
{
    let mut encoded: Vec<u8> = Vec::new();
    state.encode(&mut encoded);
    let mut message: Vec<u8> = Vec::new();
    encoded.as_slice().encode(&mut message);
    proof {
        assert(encoded@ =~= state.wire());
        assert(message@ =~= string_wire(state.wire()));
    }
    crate::crypto::zeroize(&mut encoded);
    message
}

/// A message of which parts have arrived.
pub struct Handoff {
    length: Option<usize>,
    received: Vec<u8>,
}

/// What is known of a message of which parts have arrived.
#[verifier::ext_equal]
pub struct HandoffView {
    /// The length of the contents, once it has arrived.
    pub length: Option<nat>,
    /// The contents that have arrived.
    pub received: Seq<u8>,
}

impl View for Handoff {
    type V = HandoffView;

    closed spec fn view(&self) -> HandoffView {
        HandoffView {
            length: match self.length {
                Some(length) => Some(length as nat),
                None => None,
            },
            received: self.received@,
        }
    }
}

impl HandoffView {
    /// Contents only arrive after their length, and not more than that.
    pub open spec fn wf(self) -> bool {
        match self.length {
            Some(length) => self.received.len() <= length,
            None => self.received.len() == 0,
        }
    }

    /// All of the message has arrived.
    pub open spec fn complete(self) -> bool {
        self.length == Some(self.received.len())
    }
}

/// What becomes of a message when a part of it arrives.
pub open spec fn fed(message: HandoffView, part: Seq<u8>) -> Result<HandoffView, &'static str> {
    match message.length {
        None => if part.len() < 4 {
            Err("received fewer than 4 bytes for length prefix")
        } else if part.len() - 4 > u32_value(part) {
            Err("received more bytes than expected")
        } else {
            Ok(HandoffView { length: Some(u32_value(part) as nat), received: part.skip(4) })
        },
        Some(length) => if message.received.len() + part.len() > length {
            Err("received more bytes than expected")
        } else {
            Ok(HandoffView { received: message.received + part, ..message })
        },
    }
}

impl Handoff {
    /// A message of which nothing has arrived.
    pub fn new() -> (r: Self)
        ensures
            r@ == (HandoffView { length: None, received: Seq::empty() }),
            r@.wf(),
    {
        let r = Handoff { length: None, received: Vec::new() };
        assert(r@.received =~= Seq::<u8>::empty());
        r
    }

    /// Take in a part of the message; the peer sends no more where it is empty. Returns whether
    /// all of the message has arrived.
    pub fn feed(&mut self, part: &[u8]) -> (r: Result<bool, Error>)
        requires
            old(self)@.wf(),
        ensures
            if part@.len() == 0 {
                &&& final(self)@ == old(self)@
                &&& r == Err::<bool, Error>(
                    Error::Io(
                        io_error(
                            IoErrorKind::UnexpectedEof,
                            "EOF while receiving handoff message"@,
                        ),
                    ),
                )
            } else {
                match fed(old(self)@, part@) {
                    Ok(message) => {
                        &&& final(self)@ == message
                        &&& final(self)@.wf()
                        &&& r == Ok::<bool, Error>(message.complete())
                    },
                    Err(reason) => {
                        &&& final(self)@ == old(self)@
                        &&& r == Err::<bool, Error>(Error::InvalidState(reason))
                    },
                }
            },
    {
        if part.len() == 0 {
            return Err(
                Error::Io(
                    new_io_error(IoErrorKind::UnexpectedEof, "EOF while receiving handoff message"),
                ),
            );
        }
        match self.length {
            Some(length) => {
                if part.len() > length - self.received.len() {
                    return Err(Error::InvalidState("received more bytes than expected"));
                }
                put(&mut self.received, part);
                Ok(self.received.len() == length)
            },
            None => {
                if part.len() < 4 {
                    return Err(
                        Error::InvalidState("received fewer than 4 bytes for length prefix"),
                    );
                }
                let length: usize = u32_from_bytes([part[0], part[1], part[2], part[3]]) as usize;
                let rest = slice_subrange(part, 4, part.len());
                if rest.len() > length {
                    return Err(Error::InvalidState("received more bytes than expected"));
                }
                self.length = Some(length);
                put(&mut self.received, rest);
                assert(self.received@ =~= part@.skip(4));
                Ok(self.received.len() == length)
            },
        }
    }

    /// The contents that have arrived.
    pub fn contents(&self) -> (r: &[u8])
        ensures
            r@ == self@.received,
    {
        self.received.as_slice()
    }
}

impl Drop for Handoff {
    fn drop(&mut self)
        opens_invariants none
        no_unwind
    {
        crate::crypto::zeroize(&mut self.received);
    }
}

/// The bytes of the parts before `n`, one after another.
pub open spec fn joined(parts: Seq<Seq<u8>>, n: int) -> Seq<u8>
    decreases n,
{
    if n <= 0 {
        Seq::empty()
    } else {
        joined(parts, n - 1) + parts[n - 1]
    }
}

/// What becomes of a message when the parts before `n` arrive one after another.
pub open spec fn fed_all(parts: Seq<Seq<u8>>, n: int) -> Result<HandoffView, &'static str>
    decreases n,
{
    if n <= 0 {
        Ok(HandoffView { length: None, received: Seq::empty() })
    } else {
        match fed_all(parts, n - 1) {
            Err(reason) => Err(reason),
            Ok(message) => fed(message, parts[n - 1]),
        }
    }
}

proof fn lemma_joined_len(parts: Seq<Seq<u8>>, n: int, m: int)
    requires
        0 <= n <= m <= parts.len(),
    ensures
        joined(parts, n).len() <= joined(parts, m).len(),
        joined(parts, m).take(joined(parts, n).len() as int) == joined(parts, n),
    decreases m - n,
{
    if n < m {
        lemma_joined_len(parts, n, m - 1);
        assert(joined(parts, m).take(joined(parts, n).len() as int) =~= joined(
            parts,
            m - 1,
        ).take(joined(parts, n).len() as int));
    } else {
        assert(joined(parts, m).take(joined(parts, n).len() as int) =~= joined(parts, n));
    }
}

/// However a message is split into parts, as long as the length is in the first of them, its
/// contents arrive, and it is complete with the last part and not before.
pub proof fn handoff_reassembles(contents: Seq<u8>, parts: Seq<Seq<u8>>, n: int)
    requires
        contents.len() <= u32::MAX,
        0 < n <= parts.len(),
        joined(parts, parts.len() as int) == string_wire(contents),
        parts[0].len() >= 4,
        forall|i: int| 0 <= i < parts.len() ==> (#[trigger] parts[i]).len() > 0,
    ensures
        match fed_all(parts, n) {
            Ok(message) => {
                &&& message.length == Some(contents.len())
                &&& message.received == joined(parts, n).skip(4)
                &&& n < parts.len() ==> !message.complete()
                &&& n == parts.len() ==> message.complete() && message.received == contents
            },
            Err(_) => false,
        },
    decreases n,
{
    reveal(string_wire);
    let all = string_wire(contents);
    let count = parts.len() as int;
    lemma_joined_len(parts, n, count);
    assert(joined(parts, 1) =~= parts[0]) by {
        assert(joined(parts, 0) =~= Seq::<u8>::empty());
    }
    lemma_joined_len(parts, 1, n);
    if n < count {
        assert(parts[n].len() > 0);
        lemma_joined_len(parts, n + 1, count);
    }
    if n == 1 {
        reveal_with_fuel(fed_all, 2);
        let length = contents.len() as u32;
        lemma_joined_len(parts, 1, count);
        assert(parts[0].take(4) =~= all.take(4)) by {
            assert(parts[0] == all.take(parts[0].len() as int));
        }
        assert(all.take(4) =~= u32_wire(length));
        u32_round_trip(length, Seq::empty());
        assert(u32_wire(length) + Seq::<u8>::empty() =~= u32_wire(length));
        assert(u32_wire(length).take(4) =~= u32_wire(length));
        assert(parts[0][0] == u32_wire(length)[0] && parts[0][1] == u32_wire(length)[1]
            && parts[0][2] == u32_wire(length)[2] && parts[0][3] == u32_wire(length)[3]) by {
            assert(parts[0].take(4)[0] == parts[0][0] && parts[0].take(4)[1] == parts[0][1]
                && parts[0].take(4)[2] == parts[0][2] && parts[0].take(4)[3] == parts[0][3]);
        }
        assert(u32_value(parts[0]) == length);
    } else {
        handoff_reassembles(contents, parts, n - 1);
        lemma_joined_len(parts, 1, n - 1);
        assert(joined(parts, n).skip(4) =~= joined(parts, n - 1).skip(4) + parts[n - 1]);
    }
    if n == count {
        assert(all.skip(4) =~= contents);
    }
}

} // verus!
