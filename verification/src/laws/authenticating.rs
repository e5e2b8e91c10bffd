//! Authenticating users.

use vstd::prelude::*;
use vstd::utf8::encode_utf8;

use crate::auth::{signed_data, MethodView, PublicKeyView, UserAuthRequest};
use crate::authentication::{attempted, authenticating, first_match, verdict, AuthenticationView};
use crate::authentication::{CachedUserView, Store, UserView, Verdict};
use crate::authorized_keys::AuthorizedKeyView;
use crate::crypto::Provider;
use crate::error::Error;
use crate::io::{enqueued, WriteState};
use crate::named::{Named, PublicKeyAlgorithm, ServiceNameView};
use crate::packet::{IncomingPacket, MessageType};
use crate::wire::{string_wire, text_round_trip, text_wire};

verus! {

/// The key that a request is for is found wherever it stands, and it is the first such one.
proof fn lemma_first(keys: Seq<AuthorizedKeyView>, public_key: PublicKeyView, i: int, from: int)
    requires
        0 <= from <= i < keys.len(),
        keys[i].algorithm == public_key.algorithm && keys[i].blob == public_key.key_blob,
        forall|j: int|
            from <= j < i ==> !((#[trigger] keys[j]).algorithm == public_key.algorithm
                && keys[j].blob == public_key.key_blob),
    ensures
        first_match(keys, public_key, from) == Some(i),
    decreases i - from,
{
    if from < i {
        lemma_first(keys, public_key, i, from + 1);
    }
}

proof fn lemma_no_match(keys: Seq<AuthorizedKeyView>, public_key: PublicKeyView, from: int)
    requires
        0 <= from <= keys.len(),
        forall|j: int|
            from <= j < keys.len() ==> !((#[trigger] keys[j]).algorithm == public_key.algorithm
                && keys[j].blob == public_key.key_blob),
    ensures
        first_match(keys, public_key, from) is None,
    decreases keys.len() - from,
{
    if from < keys.len() {
        lemma_no_match(keys, public_key, from + 1);
    }
}

/// Any of a user's keys will do, wherever it stands in the list. A request for it without a
/// signature is told that the key would do; one with a signature of the key's algorithm that
/// verifies by the key is accepted, with the key's command; any other is refused.
pub proof fn every_key_counts(
    keys: Seq<AuthorizedKeyView>,
    public_key: PublicKeyView,
    session_id: Seq<u8>,
    user_name: Seq<char>,
    service_name: ServiceNameView,
    i: int,
)
    requires
        0 <= i < keys.len(),
        keys[i].algorithm == public_key.algorithm,
        keys[i].blob == public_key.key_blob,
        // No key before it is the same key.
        forall|j: int|
            0 <= j < i ==> !((#[trigger] keys[j]).algorithm == public_key.algorithm && keys[j].blob
                == public_key.key_blob),
    ensures
        verdict(keys, public_key, session_id, user_name, service_name)
            == match public_key.signature {
            None => Verdict::PkOk,
            Some(signature) => match signature.encoded() {
                Ok(encoded) if signature.algorithm == public_key.algorithm
                    && keys[i].key.0.spec_verify(
                    signed_data(
                        session_id,
                        user_name,
                        service_name,
                        public_key.algorithm,
                        public_key.key_blob,
                    ),
                    encoded,
                ) is Ok => Verdict::Accept(keys[i].command),
                _ => Verdict::Fail,
            },
        },
{
    lemma_first(keys, public_key, i, 0);
}

/// A request for a key that is not among the user's is refused, with or without a signature.
pub proof fn other_keys_fail(
    keys: Seq<AuthorizedKeyView>,
    public_key: PublicKeyView,
    session_id: Seq<u8>,
    user_name: Seq<char>,
    service_name: ServiceNameView,
)
    requires
        forall|j: int|
            0 <= j < keys.len() ==> !((#[trigger] keys[j]).algorithm == public_key.algorithm
                && keys[j].blob == public_key.key_blob),
    ensures
        verdict(keys, public_key, session_id, user_name, service_name) == Verdict::Fail,
{
    lemma_no_match(keys, public_key, 0);
}

/// A user who is known from an earlier request and sends a request for the connection service with
/// a signature that verifies by one of the user's keys is authenticated, and told so.
pub proof fn signed_requests_succeed(
    user: CachedUserView,
    attempts: u8,
    packet: IncomingPacket<'_>,
    public_key: PublicKeyView,
    session_id: Seq<u8>,
    store: Store<'_>,
    provider: Provider<'_>,
    write_before: WriteState,
    write_after: WriteState,
    next: AuthenticationView,
    i: int,
)
    requires
        attempts > 1,
        packet.message_type == MessageType::UserAuthRequest,
        UserAuthRequest::parse(packet.payload@) matches Ok(request) && {
            &&& request.user_name == user.data.name
            &&& request.service_name == ServiceNameView::Connection
            &&& request.method == MethodView::PublicKey(public_key)
        },
        0 <= i < user.keys.len(),
        user.keys[i].algorithm == public_key.algorithm,
        user.keys[i].blob == public_key.key_blob,
        forall|j: int|
            0 <= j < i ==> !((#[trigger] user.keys[j]).algorithm == public_key.algorithm
                && user.keys[j].blob == public_key.key_blob),
        public_key.signature matches Some(signature) && {
            &&& signature.algorithm == public_key.algorithm
            &&& signature.encoded() matches Ok(encoded)
            &&& user.keys[i].key.0.spec_verify(
                signed_data(
                    session_id,
                    user.data.name,
                    ServiceNameView::Connection,
                    public_key.algorithm,
                    public_key.key_blob,
                ),
                encoded,
            ) is Ok
        },
        authenticating(
            AuthenticationView::AwaitAuthRequest(Some(user), attempts),
            packet,
            session_id,
            store,
            provider,
            write_before,
            write_after,
            Ok(next),
        ),
    ensures
        next == AuthenticationView::Complete(
            UserView { command: user.keys[i].command, ..user.data },
        ),
        enqueued(write_before, write_after, seq![52u8], Ok(())),
{
    reveal(attempted);
    every_key_counts(
        user.keys,
        public_key,
        session_id,
        user.data.name,
        ServiceNameView::Connection,
        i,
    );
}

/// A user who is known from an earlier request and asks, without a signature, whether one of the
/// user's keys would do, is told that it would, with the key, and can go on.
pub proof fn known_keys_are_confirmed(
    user: CachedUserView,
    attempts: u8,
    packet: IncomingPacket<'_>,
    public_key: PublicKeyView,
    session_id: Seq<u8>,
    store: Store<'_>,
    provider: Provider<'_>,
    write_before: WriteState,
    write_after: WriteState,
    next: AuthenticationView,
    i: int,
)
    requires
        attempts > 1,
        packet.message_type == MessageType::UserAuthRequest,
        UserAuthRequest::parse(packet.payload@) matches Ok(request) && {
            &&& request.user_name == user.data.name
            &&& request.service_name == ServiceNameView::Connection
            &&& request.method == MethodView::PublicKey(public_key)
        },
        public_key.signature is None,
        0 <= i < user.keys.len(),
        user.keys[i].algorithm == public_key.algorithm,
        user.keys[i].blob == public_key.key_blob,
        authenticating(
            AuthenticationView::AwaitAuthRequest(Some(user), attempts),
            packet,
            session_id,
            store,
            provider,
            write_before,
            write_after,
            Ok(next),
        ),
    ensures
        next == AuthenticationView::AwaitAuthRequest(Some(user), (attempts - 1) as u8),
        enqueued(
            write_before,
            write_after,
            seq![60u8] + text_wire(PublicKeyAlgorithm::spec_name(public_key.algorithm))
                + string_wire(public_key.key_blob),
            Ok(()),
        ),
    decreases i,
{
    reveal(attempted);
    if exists|j: int|
        0 <= j < i && (#[trigger] user.keys[j]).algorithm == public_key.algorithm
            && user.keys[j].blob == public_key.key_blob {
        let j = choose|j: int|
            0 <= j < i && (#[trigger] user.keys[j]).algorithm == public_key.algorithm
                && user.keys[j].blob == public_key.key_blob;
        known_keys_are_confirmed(
            user,
            attempts,
            packet,
            public_key,
            session_id,
            store,
            provider,
            write_before,
            write_after,
            next,
            j,
        );
    } else {
        every_key_counts(
            user.keys,
            public_key,
            session_id,
            user.data.name,
            ServiceNameView::Connection,
            i,
        );
    }
}

/// The first thing that a client can do is to ask for the authentication service, and no other; it
/// is told that it may authenticate, and then has five attempts.
pub proof fn authentication_starts(
    service: Seq<char>,
    packet: IncomingPacket<'_>,
    session_id: Seq<u8>,
    store: Store<'_>,
    provider: Provider<'_>,
    write_before: WriteState,
    write_after: WriteState,
    r: Result<AuthenticationView, Error>,
)
    requires
        packet.message_type == MessageType::ServiceRequest,
        encode_utf8(service).len() <= u32::MAX,
        packet.payload@ == text_wire(service),
        authenticating(
            AuthenticationView::AwaitServiceRequest,
            packet,
            session_id,
            store,
            provider,
            write_before,
            write_after,
            r,
        ),
    ensures
        service != "ssh-userauth"@ ==> r is Err && write_after == write_before,
        r matches Ok(next) ==> {
            &&& next == AuthenticationView::AwaitAuthRequest(None, 6)
            &&& enqueued(write_before, write_after, seq![6u8] + text_wire("ssh-userauth"@), Ok(()))
        },
{
    text_round_trip(service, Seq::empty());
    assert(text_wire(service) + Seq::<u8>::empty() =~= text_wire(service));
}

/// Only requests take attempts away: messages that are to be ignored leave everything as it was,
/// and a client that disconnects ends the authentication.
pub proof fn other_packets_change_nothing(
    state: AuthenticationView,
    packet: IncomingPacket<'_>,
    session_id: Seq<u8>,
    store: Store<'_>,
    provider: Provider<'_>,
    write_before: WriteState,
    write_after: WriteState,
    r: Result<AuthenticationView, Error>,
)
    requires
        authenticating(
            state,
            packet,
            session_id,
            store,
            provider,
            write_before,
            write_after,
            r,
        ),
        packet.message_type != MessageType::ServiceRequest,
        packet.message_type != MessageType::UserAuthRequest,
    ensures
        write_after == write_before,
        r matches Ok(next) ==> next == state && (packet.message_type == MessageType::Ignore
            || packet.message_type == MessageType::Debug),
        packet.message_type == MessageType::Ignore || packet.message_type == MessageType::Debug
            ==> r is Ok,
{
}

} // verus!
