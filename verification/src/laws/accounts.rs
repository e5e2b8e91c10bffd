//! Host keys, users, their keys, and the lines of identifications.

use vstd::prelude::*;
use vstd::utf8::{encode_utf8, valid_utf8};

use crate::authorized_keys::{blob_key, key_from_line, AuthorizedKeyView};
use crate::crypto::Provider;
use crate::handshake::{client_identification, ClientIdentification};
use crate::host_keys::HostKeys;
use crate::identification::line_end;
use crate::named::PublicKeyAlgorithmView;
use crate::text::{first_word, skip_white, skip_word, white};
use crate::users::{keys_in, resolved, trustworthy, PasswdEntry, UserLookup};
use crate::wire::{string_round_trip, string_wire, text_round_trip, text_wire};

verus! {

/// The host key for an algorithm is found wherever it stands, and is the first one of that
/// algorithm; none is found only where there is none.
pub proof fn host_keys_are_found(keys: HostKeys, algorithm: PublicKeyAlgorithmView)
    ensures
        match keys.first_with(algorithm, 0) {
            Some(i) => {
                &&& 0 <= i < keys.keys@.len()
                &&& keys.keys@[i].key.0.spec_algorithm() == algorithm
                &&& forall|j: int|
                    0 <= j < i ==> (#[trigger] keys.keys@[j]).key.0.spec_algorithm() != algorithm
            },
            None => forall|j: int|
                0 <= j < keys.keys@.len() ==> (#[trigger] keys.keys@[j]).key.0.spec_algorithm()
                    != algorithm,
        },
{
    lemma_first_with(keys, algorithm, 0);
}

proof fn lemma_first_with(keys: HostKeys, algorithm: PublicKeyAlgorithmView, from: int)
    requires
        0 <= from,
    ensures
        match keys.first_with(algorithm, from) {
            Some(i) => {
                &&& from <= i < keys.keys@.len()
                &&& keys.keys@[i].key.0.spec_algorithm() == algorithm
                &&& forall|j: int|
                    from <= j < i ==> (#[trigger] keys.keys@[j]).key.0.spec_algorithm()
                        != algorithm
            },
            None => forall|j: int|
                from <= j < keys.keys@.len() ==> (#[trigger] keys.keys@[j]).key.0.spec_algorithm()
                    != algorithm,
        },
    decreases keys.keys@.len() - from,
{
    if from < keys.keys@.len() && keys.keys@[from].key.0.spec_algorithm() != algorithm {
        lemma_first_with(keys, algorithm, from + 1);
    }
}

/// Every line of a file that describes a key gives one, and nothing else does.
pub proof fn every_line_counts(
    lines: Seq<Seq<char>>,
    n: int,
    provider: Provider<'_>,
    key: AuthorizedKeyView,
)
    requires
        0 <= n <= lines.len(),
    ensures
        keys_in(lines, n, provider).contains(key) <==> exists|i: int|
            0 <= i < n && key_from_line(#[trigger] lines[i], provider) == Some(key),
    decreases n,
{
    if n > 0 {
        every_line_counts(lines, n - 1, provider, key);
        let before = keys_in(lines, n - 1, provider);
        let keys = keys_in(lines, n, provider);
        if let Some(last) = key_from_line(lines[n - 1], provider) {
            if before.contains(key) {
                let i = choose|i: int| 0 <= i < before.len() && before[i] == key;
                assert(keys[i] == key);
            }
            if last == key {
                assert(keys[before.len() as int] == key);
            }
            if keys.contains(key) && last != key {
                let i = choose|i: int| 0 <= i < keys.len() && keys[i] == key;
                assert(before[i] == key);
            }
        }
    }
}

/// The keys of a file stand in the order of its lines: those of more lines start with those of
/// fewer.
pub proof fn keys_stay_in_order(lines: Seq<Seq<char>>, n: int, provider: Provider<'_>)
    requires
        0 <= n < lines.len(),
    ensures
        keys_in(lines, n + 1, provider).len() <= keys_in(lines, n, provider).len() + 1,
        keys_in(lines, n + 1, provider).take(keys_in(lines, n, provider).len() as int)
            =~= keys_in(lines, n, provider),
        key_from_line(lines[n], provider) matches Some(key) ==> keys_in(
            lines,
            n + 1,
            provider,
        ).last() == key,
{
}

/// The first word of a text is what stands between the white space that it starts with and the next, and the
/// rest follows it. There is none only in a text of nothing but white space.
pub proof fn words_are_split(space: Seq<char>, word: Seq<char>, rest: Seq<char>)
    requires
        forall|i: int| 0 <= i < space.len() ==> white(#[trigger] space[i]),
        word.len() > 0,
        forall|i: int| 0 <= i < word.len() ==> !white(#[trigger] word[i]),
        rest.len() > 0 ==> white(rest[0]),
    ensures
        first_word(space + word + rest) == Some((word, rest)),
        first_word(space) is None,
{
    let s = space + word + rest;
    let (a, b) = (space.len() as int, (space.len() + word.len()) as int);
    lemma_skip_white(s, 0, a);
    lemma_skip_word(s, a, b);
    lemma_skip_white(space, 0, a);
    assert(s.subrange(a, b) =~= word);
    assert(s.skip(b) =~= rest);
}

proof fn lemma_skip_white(s: Seq<char>, i: int, end: int)
    requires
        0 <= i <= end <= s.len(),
        forall|j: int| i <= j < end ==> white(#[trigger] s[j]),
        end < s.len() ==> !white(s[end]),
    ensures
        skip_white(s, i) == end,
    decreases end - i,
{
    if i < end {
        lemma_skip_white(s, i + 1, end);
    }
}

proof fn lemma_skip_word(s: Seq<char>, i: int, end: int)
    requires
        0 <= i <= end <= s.len(),
        forall|j: int| i <= j < end ==> !white(#[trigger] s[j]),
        end < s.len() ==> white(s[end]),
    ensures
        skip_word(s, i) == end,
    decreases end - i,
{
    if i < end {
        lemma_skip_word(s, i + 1, end);
    }
}

/// The key in a blob: for Ed25519 it follows the name of the algorithm, for ECDSA the curve stands
/// between them. Nothing follows it, and the name has to be that of the algorithm.
pub proof fn key_blob_layout(name: Seq<char>, curve: Seq<u8>, key: Seq<u8>, rest: Seq<u8>)
    requires
        encode_utf8(name).len() <= u32::MAX,
        curve.len() <= u32::MAX,
        key.len() <= u32::MAX,
    ensures
        blob_key(
            PublicKeyAlgorithmView::Ed25519,
            text_wire(name) + (string_wire(key) + rest),
        ) == if name == "ssh-ed25519"@ && rest.len() == 0 {
            Some(key)
        } else {
            None
        },
        blob_key(
            PublicKeyAlgorithmView::EcdsaSha2Nistp256,
            text_wire(name) + (string_wire(curve) + (string_wire(key) + rest)),
        ) == if name == "ecdsa-sha2-nistp256"@ && rest.len() == 0 {
            Some(key)
        } else {
            None
        },
{
    text_round_trip(name, string_wire(key) + rest);
    text_round_trip(name, string_wire(curve) + (string_wire(key) + rest));
    string_round_trip(curve, string_wire(key) + rest);
    string_round_trip(key, rest);
    vstd::utf8::encode_utf8_decode_utf8("ssh-ed25519"@);
    vstd::utf8::encode_utf8_decode_utf8("ecdsa-sha2-nistp256"@);
}

/// A user in the system database is who the entry says, under the name that was asked for; the
/// home and the shell have a default, and an empty shell is none.
pub proof fn users_are_resolved(lookup: UserLookup, entry: PasswdEntry)
    ensures
        entry.uid == 0 ==> resolved(lookup, Some(entry)) is Err,
        lookup is Name && entry.uid != 0 ==> resolved(lookup, Some(entry)) is Ok,
        resolved(lookup, None) is Ok,
        lookup is Name ==> resolved(lookup, None)->Ok_0 is None,
        lookup is Id ==> resolved(lookup, None)->Ok_0 is Some,
        lookup is Id ==> resolved(lookup, None)->Ok_0->Some_0.id == u32::MAX,
        lookup is Id ==> resolved(lookup, None)->Ok_0->Some_0.gid == u32::MAX,
        resolved(lookup, Some(entry)) matches Ok(found) ==> {
            &&& found is Some
            &&& found->Some_0.id == entry.uid
            &&& found->Some_0.gid == entry.gid
            &&& lookup is Name ==> found->Some_0.name == lookup->Name_0@
            &&& lookup is Id && entry.name is Some ==> encode_utf8(found->Some_0.name)
                == entry.name->Some_0@
            &&& entry.home_dir is Some ==> found->Some_0.home_dir == entry.home_dir->Some_0@
            &&& entry.home_dir is None ==> found->Some_0.home_dir == encode_utf8("/var/empty"@)
            &&& entry.shell is Some && entry.shell->Some_0@.len() > 0 ==> found->Some_0.shell
                == entry.shell->Some_0@
            &&& entry.shell is None || entry.shell->Some_0@.len() == 0 ==> found->Some_0.shell
                == encode_utf8("/bin/sh"@)
            &&& found->Some_0.command is None
        },
{
    if let Some(name) = entry.name {
        if valid_utf8(name@) {
            vstd::utf8::decode_utf8_encode_utf8(name@);
        }
    }
}

/// What is accepted of a client's identification is a line at the start of what was sent, up to
/// its line end, which is taken as well. It takes at most 255 bytes and is text.
pub proof fn identifications_are_lines(buf: Seq<u8>)
    ensures
        client_identification(buf) matches ClientIdentification::Accepted(line, len) ==> {
            &&& len == line.len() + 2
            &&& len <= 255
            &&& len <= buf.len()
            &&& buf.take(line.len() as int) == line
            &&& buf[line.len() as int] == 13 && buf[len - 1] == 10
            &&& valid_utf8(line)
        },
{
    lemma_some_line_end(buf, 0);
    if let Some(end) = line_end(buf, 0) {
        assert(buf.len() - buf.skip(end + 2).len() == end + 2);
    }
}

proof fn lemma_some_line_end(bytes: Seq<u8>, i: int)
    requires
        0 <= i,
    ensures
        line_end(bytes, i) matches Some(end) ==> i <= end && end + 2 <= bytes.len() && bytes[end]
            == 13 && bytes[end + 1] == 10,
    decreases bytes.len() - i,
{
    if i + 1 < bytes.len() && !(bytes[i] == 13 && bytes[i + 1] == 10) {
        lemma_some_line_end(bytes, i + 1);
    }
}

/// A file that its group or others can write is not trusted, nor one of another user, but for
/// root; any other is.
pub proof fn others_cannot_write(mode: u32, owner: u32, uid: u32)
    ensures
        trustworthy(mode, owner, uid) <==> {
            &&& (mode / 16) % 2 == 0
            &&& (mode / 2) % 2 == 0
            &&& owner == uid || owner == 0
        },
{
    assert(mode & 0o022 == 0 <==> (mode / 16) % 2 == 0 && (mode / 2) % 2 == 0) by (bit_vector);
}

} // verus!
