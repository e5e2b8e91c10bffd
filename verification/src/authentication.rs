//! Authentication of users.

use std::borrow::Cow;

use vstd::prelude::*;
use vstd::utf8::{decode_utf8, valid_utf8};

use crate::auth::{failure_wire, pk_ok_wire, signed_data, Method, MethodView};
use crate::auth::{PublicKey, PublicKeyView, ServiceAccept, ServiceRequest, Signature};
use crate::auth::{SignatureData, SignatureView, UserAuthFailure, UserAuthPkOk, UserAuthRequest};
use crate::auth::UserAuthRequestView;
use crate::authorized_keys::{command_view, key_from_line, AuthorizedKey};
use crate::authorized_keys::{AuthorizedKeyOptions, AuthorizedKeyView};
use crate::crypto::{copied, Digest, Provider};
use crate::error::{AuthError, CryptoError, Error, ProtoError};
use crate::io::{enqueued, lemma_less_room, WriteState};
use crate::named::{encoded_names, lemma_parse_name_len, name_wire, names_wire, parse_name, views};
use crate::named::{with_commas, MethodName, MethodNameView, Named, PublicKeyAlgorithm};
use crate::named::{PublicKeyAlgorithmView, ServiceName, ServiceNameView};
use crate::packet::{type_wire, unexpected, Disconnect, DisconnectReason};
use crate::packet::{IncomingPacket, MessageType};
use crate::text::{chars_of, control, from_utf8, is_control, same_text};
use crate::wire::{lemma_parse_string_len, lemma_string_len, parse_bool, parse_string};

verus! {

/// Whether a text can be a user name: it holds no control characters and no slashes.
pub open spec fn valid_name(name: Seq<char>) -> bool {
    forall|i: int| 0 <= i < name.len() ==> !control(#[trigger] name[i]) && name[i] != '/'
}

/// A validated username.
///
/// Must be valid UTF-8 without any slashes or control characters, whether these are in ASCII or
/// not.
#[derive(Debug, PartialEq, Eq)]
pub struct Username {
    name: String,
}

impl View for Username {
    type V = Seq<char>;

    closed spec fn view(&self) -> Seq<char> {
        self.name@
    }
}

impl Username {
    #[verifier::type_invariant]
    spec fn inv(self) -> bool {
        valid_name(self.name@)
    }

    /// A name that can be used where there is no user.
    pub fn nobody() -> (r: Self)
        ensures
            r@ == "nobody"@,
    {
        proof {
            reveal_strlit("nobody");
        }
        Username { name: "nobody".to_owned() }
    }

    /// A user name from the bytes of a system database.
    pub fn from_bytes(value: &[u8]) -> (r: Result<Self, Error>)
        ensures
            match r {
                Ok(name) => valid_utf8(value@) && valid_name(decode_utf8(value@)) && name@
                    == decode_utf8(value@),
                Err(e) => e == Error::InvalidUsername && !(valid_utf8(value@) && valid_name(
                    decode_utf8(value@),
                )),
            },
    {
        let Some(name) = from_utf8(value) else {
            return Err(Error::InvalidUsername);
        };
        Username::try_from(name.to_owned())
    }

    /// The name.
    pub fn as_str(&self) -> (r: &str)
        ensures
            r@ == self@,
            valid_name(r@),
    {
        proof {
            use_type_invariant(self);
        }
        self.name.as_str()
    }
}

impl Clone for Username {
    fn clone(&self) -> (r: Self)
        ensures
            r@ == self@,
    {
        proof {
            use_type_invariant(self);
        }
        Username { name: self.name.clone() }
    }
}

impl TryFrom<String> for Username {
    type Error = Error;

    fn try_from(value: String) -> (r: Result<Self, Error>)
        ensures
            match r {
                Ok(name) => valid_name(value@) && name@ == value@,
                Err(e) => e == Error::InvalidUsername && !valid_name(value@),
            },
    {
        let chars = chars_of(value.as_str());
        let mut i: usize = 0;
        while i < chars.len()
            invariant
                chars@ == value@,
                i <= chars@.len(),
                forall|j: int|
                    0 <= j < i ==> !control(#[trigger] value@[j]) && value@[j] != '/',
            decreases chars@.len() - i,
        {
            if is_control(chars[i]) || chars[i] == '/' {
                assert(control(value@[i as int]) || value@[i as int] == '/');
                return Err(Error::InvalidUsername);
            }
            i += 1;
        }
        Ok(Username { name: value })
    }
}

impl vstd::std_specs::convert::TryFromSpecImpl<String> for Username {
    open spec fn obeys_try_from_spec() -> bool {
        false
    }

    open spec fn try_from_spec(value: String) -> Result<Self, Error> {
        arbitrary()
    }
}

/// User data as retrieved from the system database.
#[non_exhaustive]
pub struct User {
    /// The user's name.
    pub name: Username,
    /// The user's UID.
    pub id: u32,
    /// The user's GID.
    pub gid: u32,
    /// The path of the user's home directory.
    pub home_dir: Vec<u8>,
    /// The path of the user's shell.
    pub shell: Vec<u8>,
    /// The options of the key that the user has logged in with.
    pub options: Option<AuthorizedKeyOptions>,
}

/// What is known of a [`User`].
pub struct UserView {
    /// The user's name.
    pub name: Seq<char>,
    /// The user's UID.
    pub id: u32,
    /// The user's GID.
    pub gid: u32,
    /// The path of the user's home directory.
    pub home_dir: Seq<u8>,
    /// The path of the user's shell.
    pub shell: Seq<u8>,
    /// The command of the key that the user has logged in with.
    pub command: Option<Seq<char>>,
}

/// The command in options, if there are any.
pub open spec fn options_view(options: Option<AuthorizedKeyOptions>) -> Option<Seq<char>> {
    match options {
        Some(options) => command_view(options),
        None => None,
    }
}

impl View for User {
    type V = UserView;

    open spec fn view(&self) -> UserView {
        UserView {
            name: self.name@,
            id: self.id,
            gid: self.gid,
            home_dir: self.home_dir@,
            shell: self.shell@,
            command: options_view(self.options),
        }
    }
}

impl Clone for User {
    fn clone(&self) -> (r: Self)
        ensures
            r@ == self@,
    {
        User {
            name: self.name.clone(),
            id: self.id,
            gid: self.gid,
            home_dir: copied(self.home_dir.as_slice()),
            shell: copied(self.shell.as_slice()),
            options: match &self.options {
                Some(options) => Some(options.clone()),
                None => None,
            },
        }
    }
}

/// A user and the keys that the user may log in with.
pub struct CachedUser {
    /// The user.
    pub data: User,
    /// The keys.
    pub keys: Vec<AuthorizedKey>,
}

/// What is known of a [`CachedUser`].
pub struct CachedUserView {
    /// The user.
    pub data: UserView,
    /// The keys.
    pub keys: Seq<AuthorizedKeyView>,
}

impl View for CachedUser {
    type V = CachedUserView;

    open spec fn view(&self) -> CachedUserView {
        CachedUserView { data: self.data@, keys: views(self.keys@) }
    }
}

/// What a user is, if there is one.
pub open spec fn user_view(user: Option<User>) -> Option<UserView> {
    match user {
        Some(user) => Some(user@),
        None => None,
    }
}

/// A user store resolves a username to a `User` type containing data used for authentication.
///
/// What a store knows can change at any time, so the same lookup can have many results. A store
/// defines the spec functions to say which; where it keeps their default bodies, any.
pub trait UserStore: Send + Sync {
    /// Whether looking up `name` can give `user`, or nothing.
    open spec fn spec_lookup(&self, name: Seq<char>, user: Option<UserView>) -> bool {
        true
    }

    /// Whether looking up the authorized keys for `user` can give `keys`.
    open spec fn spec_keys(
        &self,
        user: UserView,
        provider: Provider<'_>,
        keys: Seq<AuthorizedKeyView>,
    ) -> bool {
        true
    }

    /// Lookup a user by name, returning `None` if the user does not exist or cannot be retrieved.
    ///
    /// The user that is found has the name.
    fn lookup(&self, name: Username) -> (r: Option<User>)
        ensures
            self.spec_lookup(name@, user_view(r)),
            r matches Some(user) ==> user@.name == name@,
    ;

    /// Lookup the authorized keys for a user.
    fn keys(&self, user: &User, provider: Provider<'_>) -> (r: Vec<AuthorizedKey>)
        ensures
            self.spec_keys(user@, provider, views(r@)),
    ;

    /// Whether the user store should set the UID of the process to the authenticated user.
    fn drop_privileges(&self) -> bool;
}

/// A user store for authentication.
#[derive(Clone, Copy)]
pub struct Store<'a>(pub &'a dyn UserStore);

/// User store that only contains a single user.
pub struct SingleUser(pub CachedUser);

impl SingleUser {
    /// The only user, if the user has the name.
    pub fn find(&self, name: &Username) -> (r: Option<User>)
        ensures
            match r {
                Some(user) => name@ == self.0@.data.name && user@ == self.0@.data,
                None => name@ != self.0@.data.name,
            },
    {
        match same_text(self.0.data.name.as_str(), name.as_str()) {
            true => Some(self.0.data.clone()),
            false => None,
        }
    }

    /// The keys of the only user.
    pub fn all_keys(&self) -> (r: Vec<AuthorizedKey>)
        ensures
            views(r@) == self.0@.keys,
    {
        let mut out: Vec<AuthorizedKey> = Vec::new();
        let mut i: usize = 0;
        while i < self.0.keys.len()
            invariant
                i <= self.0.keys@.len(),
                out@.len() == i,
                forall|j: int| 0 <= j < i ==> (#[trigger] out@[j])@ == self.0.keys@[j]@,
            decreases self.0.keys@.len() - i,
        {
            out.push(self.0.keys[i].clone());
            i += 1;
        }
        assert(views(out@) =~= self.0@.keys);
        out
    }
}

impl UserStore for SingleUser {
    open spec fn spec_lookup(&self, name: Seq<char>, user: Option<UserView>) -> bool {
        user == if name == self.0@.data.name {
            Some(self.0@.data)
        } else {
            None
        }
    }

    open spec fn spec_keys(
        &self,
        user: UserView,
        provider: Provider<'_>,
        keys: Seq<AuthorizedKeyView>,
    ) -> bool {
        keys == self.0@.keys
    }

    fn lookup(&self, name: Username) -> Option<User> {
        self.find(&name)
    }

    fn keys(&self, _user: &User, _provider: Provider<'_>) -> Vec<AuthorizedKey> {
        self.all_keys()
    }

    fn drop_privileges(&self) -> (r: bool)
        ensures
            !r,
    {
        false
    }
}

/// The line of an `authorized_keys` file with the fake key for an algorithm.
pub open spec fn fake_key_line(algorithm: PublicKeyAlgorithmView) -> Option<Seq<char>> {
    match algorithm {
        PublicKeyAlgorithmView::EcdsaSha2Nistp256 => Some(
            "ecdsa-sha2-nistp256 AAAAE2VjZHNhLXNoYTItbmlzdHAyNTYAAAAIbmlzdHAyNTYAAABBBE4MlZd759Tv7GElTKPf1D0FCmDWB9LEkkWyaP3E8T0H/fKyFnA0e0yBm/XpkG9erfxrcgMkAu1CM3e19g9bZWg="@,
        ),
        PublicKeyAlgorithmView::Ed25519 => Some(
            "ssh-ed25519 AAAAC3NzaC1lZDI1NTE5AAAAIDX+GNCeikghR3A2bLB0KmlovqxdC+BUHAfYhYGcUJxA"@,
        ),
        PublicKeyAlgorithmView::Unknown(_) => None,
    }
}

/// The fake key for an algorithm.
pub open spec fn spec_fake_key(algorithm: PublicKeyAlgorithmView, provider: Provider<'_>) -> Result<
    AuthorizedKeyView,
    CryptoError,
> {
    match fake_key_line(algorithm) {
        None => Err(CryptoError::UnknownAlgorithm),
        Some(line) => match key_from_line(line, provider) {
            None => Err(CryptoError::KeyRejected),
            Some(key) => Ok(key),
        },
    }
}

/// Build a fake key for the given `algorithm` to mitigate timing attacks.
///
/// We want to execute a signature verification even when the user does not have a matching
/// authorized key, so we build a fake key for the requested algorithm and verify the
/// signature against it. This ensures that the response time is consistent regardless of
/// whether the user has a matching authorized key.
pub fn fake_key(algorithm: &PublicKeyAlgorithm<'_>, provider: Provider<'_>) -> (r: Result<
    AuthorizedKey,
    CryptoError,
>)
    ensures
        spec_fake_key(algorithm@, provider) == match r {
            Ok(key) => Ok::<AuthorizedKeyView, CryptoError>(key@),
            Err(e) => Err::<AuthorizedKeyView, CryptoError>(e),
        },
{
    let line = match algorithm {
        PublicKeyAlgorithm::EcdsaSha2Nistp256 =>
            "ecdsa-sha2-nistp256 AAAAE2VjZHNhLXNoYTItbmlzdHAyNTYAAAAIbmlzdHAyNTYAAABBBE4MlZd759Tv7GElTKPf1D0FCmDWB9LEkkWyaP3E8T0H/fKyFnA0e0yBm/XpkG9erfxrcgMkAu1CM3e19g9bZWg=",
        PublicKeyAlgorithm::Ed25519 =>
            "ssh-ed25519 AAAAC3NzaC1lZDI1NTE5AAAAIDX+GNCeikghR3A2bLB0KmlovqxdC+BUHAfYhYGcUJxA",
        _ => return Err(CryptoError::UnknownAlgorithm),
    };
    match AuthorizedKey::from_str(line, provider) {
        Some(key) => Ok(key),
        None => Err(CryptoError::KeyRejected),
    }
}

/// The first key from index `i` on that a request is for.
pub open spec fn first_match(keys: Seq<AuthorizedKeyView>, public_key: PublicKeyView, i: int) -> Option<
    int,
>
    decreases keys.len() - i,
{
    if i >= keys.len() {
        None
    } else if keys[i].algorithm == public_key.algorithm && keys[i].blob == public_key.key_blob {
        Some(i)
    } else {
        first_match(keys, public_key, i + 1)
    }
}

/// How a request with a public key is answered.
pub enum Verdict {
    /// Authentication fails.
    Fail,
    /// The key would be acceptable.
    PkOk,
    /// Authentication succeeds, with the command of the key.
    Accept(Option<Seq<char>>),
}

/// Whether a signature for a request verifies by a key.
pub open spec fn verifies(
    signature: SignatureView,
    key: AuthorizedKeyView,
    algorithm: PublicKeyAlgorithmView,
    key_blob: Seq<u8>,
    session_id: Seq<u8>,
    user_name: Seq<char>,
    service_name: ServiceNameView,
) -> bool {
    match signature.encoded() {
        Err(_) => false,
        Ok(encoded) => key.key.0.spec_verify(
            signed_data(session_id, user_name, service_name, algorithm, key_blob),
            encoded,
        ) is Ok,
    }
}

/// How a request with a public key is answered, where the user may log in with the given keys.
pub open spec fn verdict(
    keys: Seq<AuthorizedKeyView>,
    public_key: PublicKeyView,
    session_id: Seq<u8>,
    user_name: Seq<char>,
    service_name: ServiceNameView,
) -> Verdict {
    match (public_key.signature, first_match(keys, public_key, 0)) {
        // No signature, authorized key => wait for signature
        (None, Some(_)) => Verdict::PkOk,
        // Signature, authorized key => verify signature, where the algorithms match
        (Some(signature), Some(i)) => if signature.algorithm == keys[i].algorithm && verifies(
            signature,
            keys[i],
            public_key.algorithm,
            public_key.key_blob,
            session_id,
            user_name,
            service_name,
        ) {
            Verdict::Accept(keys[i].command)
        } else {
            Verdict::Fail
        },
        // No authorized key => fail
        (_, None) => Verdict::Fail,
    }
}

/// Check the signature of a request with a key.
fn check_signature(
    signature: Signature<'_>,
    key: &AuthorizedKey,
    algorithm: PublicKeyAlgorithm<'_>,
    key_blob: &[u8],
    session_id: &Digest,
    user_name: &str,
    service_name: ServiceName<'_>,
) -> (r: bool)
    ensures
        r == verifies(
            signature@,
            key@,
            algorithm@,
            key_blob@,
            session_id@,
            user_name@,
            service_name@,
        ),
{
    let message = SignatureData {
        session_id: session_id.as_bytes(),
        user_name,
        service_name,
        algorithm,
        public_key: key_blob,
    }.encode();
    match signature.encode() {
        Ok(signature) => key.verify(message, signature).is_ok(),
        Err(_) => false,
    }
}

/// Check the signature of a request with the fake key for its algorithm.
///
/// This takes the time that checking it with an authorized key takes. The result says nothing
/// about the client, and nobody is authenticated by it.
fn check_fake_signature(
    signature: Signature<'_>,
    algorithm: PublicKeyAlgorithm<'_>,
    key_blob: &[u8],
    session_id: &Digest,
    user_name: &str,
    service_name: ServiceName<'_>,
    provider: Provider<'_>,
) -> (r: bool)
    ensures
        r == match spec_fake_key(algorithm@, provider) {
            Ok(key) => verifies(
                signature@,
                key,
                algorithm@,
                key_blob@,
                session_id@,
                user_name@,
                service_name@,
            ),
            Err(_) => false,
        },
{
    match fake_key(&algorithm, provider) {
        Ok(key) => check_signature(
            signature,
            &key,
            algorithm,
            key_blob,
            session_id,
            user_name,
            service_name,
        ),
        Err(_) => false,
    }
}

/// The state of an authentication.
pub enum AuthenticationState {
    /// The client is to ask for the authentication service.
    AwaitServiceRequest,
    /// The client is to authenticate.
    AwaitAuthRequest {
        /// The user that the client wants to be.
        cached: Option<CachedUser>,
        /// How many attempts are left, and one more.
        attempts: u8,
    },
    /// The client has authenticated.
    Complete(User),
}

/// What an [`AuthenticationState`] stands for.
pub enum AuthenticationView {
    /// The client is to ask for the authentication service.
    AwaitServiceRequest,
    /// The client is to authenticate.
    AwaitAuthRequest(Option<CachedUserView>, u8),
    /// The client has authenticated.
    Complete(UserView),
}

impl View for AuthenticationState {
    type V = AuthenticationView;

    open spec fn view(&self) -> AuthenticationView {
        match *self {
            AuthenticationState::AwaitServiceRequest => AuthenticationView::AwaitServiceRequest,
            AuthenticationState::AwaitAuthRequest { cached, attempts } =>
                AuthenticationView::AwaitAuthRequest(
                match cached {
                    Some(user) => Some(user@),
                    None => None,
                },
                attempts,
            ),
            AuthenticationState::Complete(user) => AuthenticationView::Complete(user@),
        }
    }
}

impl AuthenticationView {
    /// There is always an attempt to be taken away.
    pub open spec fn wf(self) -> bool {
        self matches AuthenticationView::AwaitAuthRequest(_, attempts) ==> attempts > 0
    }
}

impl Default for AuthenticationState {
    fn default() -> (r: Self)
        ensures
            r@ == AuthenticationView::AwaitServiceRequest,
    {
        AuthenticationState::AwaitServiceRequest
    }
}

/// The number of attempts that a client has, and one more.
pub const ATTEMPTS: u8 = 6;

/// The bytes of the message that authentication has failed.
pub open spec fn auth_failed() -> Seq<u8> {
    failure_wire(seq![MethodNameView::PublicKey], false)
}

/// Enqueue a `SSH_MSG_USERAUTH_FAILURE` message.
fn send_auth_failed(write: &mut WriteState) -> (r: Result<(), ProtoError>)
    requires
        old(write).has_room(1, auth_failed().len()),
    ensures
        enqueued(*old(write), *final(write), auth_failed(), r),
{
    let methods = [MethodName::PublicKey];
    assert(views(methods@) =~= seq![MethodNameView::PublicKey]);
    write.handle_packet(&UserAuthFailure { can_continue: &methods, partial_success: false }, None)
}

proof fn lemma_reply_lengths()
    ensures
        auth_failed().len() <= 32,
        (type_wire(MessageType::ServiceAccept) + name_wire::<ServiceName>(
            ServiceNameView::UserAuth,
        )).len() <= 32,
{
    reveal(names_wire);
    reveal_strlit("publickey");
    reveal_strlit("ssh-userauth");
    vstd::utf8::is_ascii_chars_encode_utf8("publickey"@);
    vstd::utf8::is_ascii_chars_encode_utf8("ssh-userauth"@);
    let names = encoded_names::<MethodName>(seq![MethodNameView::PublicKey]);
    assert(names.len() == 1 && names[0] == vstd::utf8::encode_utf8("publickey"@));
    lemma_string_len(with_commas(names));
    lemma_string_len(vstd::utf8::encode_utf8("ssh-userauth"@));
}

/// Where an attempt leads, given the user that it is for.
#[verifier::opaque]
pub open spec fn attempted(
    user: CachedUserView,
    attempts: u8,
    public_key: PublicKeyView,
    service_name: ServiceNameView,
    session_id: Seq<u8>,
    write_before: WriteState,
    write_after: WriteState,
    r: Result<AuthenticationView, Error>,
) -> bool {
    let (message, next) = match verdict(
        user.keys,
        public_key,
        session_id,
        user.data.name,
        service_name,
    ) {
        Verdict::Fail => (
            auth_failed(),
            AuthenticationView::AwaitAuthRequest(Some(user), attempts),
        ),
        Verdict::PkOk => (
            pk_ok_wire(public_key.algorithm, public_key.key_blob),
            AuthenticationView::AwaitAuthRequest(Some(user), attempts),
        ),
        Verdict::Accept(command) => (
            type_wire(MessageType::UserAuthSuccess),
            AuthenticationView::Complete(UserView { command, ..user.data }),
        ),
    };
    answered_with(write_before, write_after, message, next, r)
}

/// A message was enqueued, and the state is the next one if it could be.
pub open spec fn answered_with(
    write_before: WriteState,
    write_after: WriteState,
    message: Seq<u8>,
    next: AuthenticationView,
    r: Result<AuthenticationView, Error>,
) -> bool {
    match r {
        Ok(state) => state == next && enqueued(write_before, write_after, message, Ok(())),
        Err(Error::Proto(e)) => enqueued(write_before, write_after, message, Err(e)),
        Err(_) => false,
    }
}

/// What a state stands for, if there is one.
pub open spec fn state_view(r: Result<AuthenticationState, Error>) -> Result<
    AuthenticationView,
    Error,
> {
    match r {
        Ok(state) => Ok(state@),
        Err(e) => Err(e),
    }
}

fn find_key(keys: &Vec<AuthorizedKey>, public_key: &PublicKey<'_>) -> (r: Option<usize>)
    ensures
        match r {
            Some(i) => i < keys@.len() && first_match(views(keys@), public_key@, 0) == Some(
                i as int,
            ),
            None => first_match(views(keys@), public_key@, 0) is None,
        },
{
    let mut i: usize = 0;
    while i < keys.len()
        invariant
            i <= keys@.len(),
            first_match(views(keys@), public_key@, 0) == first_match(
                views(keys@),
                public_key@,
                i as int,
            ),
        decreases keys@.len() - i,
    {
        assert(views(keys@)[i as int] == keys@[i as int]@);
        if keys[i].matches(public_key) {
            return Some(i);
        }
        i += 1;
    }
    None
}

impl AuthenticationState {
    /// Answer a request with a public key, given the user that it is for.
    pub fn attempt(
        user: CachedUser,
        attempts: u8,
        public_key: PublicKey<'_>,
        service_name: ServiceName<'_>,
        session_id: &Digest,
        write: &mut WriteState,
        provider: Provider<'_>,
    ) -> (r: Result<Self, Error>)
        requires
            old(write).has_room(
                1,
                32 + pk_ok_wire(public_key@.algorithm, public_key@.key_blob).len(),
            ),
        ensures
            attempted(
                user@,
                attempts,
                public_key@,
                service_name@,
                session_id@,
                *old(write),
                *final(write),
                state_view(r),
            ),
            r matches Ok(state) ==> attempts > 0 ==> state@.wf(),
    {
        let ghost room = 32 + pk_ok_wire(public_key@.algorithm, public_key@.key_blob).len();
        proof {
            reveal(attempted);
            lemma_reply_lengths();
            lemma_less_room(*write, 1, room, 1, auth_failed().len());
            lemma_less_room(*write, 1, room, 1, 1);
            lemma_less_room(
                *write,
                1,
                room,
                1,
                pk_ok_wire(public_key@.algorithm, public_key@.key_blob).len(),
            );
        }
        let found = find_key(&user.keys, &public_key);
        let PublicKey { algorithm, key_blob, signature } = public_key;

        let i: usize = match (signature, found) {
            // Signature, authorized key => verify signature
            (Some(signature), Some(i)) => {
                let key = &user.keys[i];
                assert(views(user.keys@)[i as int] == key@);
                // Mismatched algorithms => fail authentication without verifying signature
                if !signature.algorithm.same(key.algorithm()) || !check_signature(
                    signature,
                    key,
                    algorithm,
                    key_blob,
                    session_id,
                    user.data.name.as_str(),
                    service_name,
                ) {
                    return AuthenticationState::fail(Some(user), attempts, write);
                }
                i
            },
            // Signature, no authorized key => verify signature against fake key, and fail
            // authentication whatever that gives
            (Some(signature), None) => {
                let _ = check_fake_signature(
                    signature,
                    algorithm,
                    key_blob,
                    session_id,
                    user.data.name.as_str(),
                    service_name,
                    provider,
                );
                return AuthenticationState::fail(Some(user), attempts, write);
            },
            // No signature, authorized key => send pk-ok and wait for signature
            (None, Some(_)) => {
                let pk_ok = UserAuthPkOk {
                    algorithm: algorithm.to_owned(),
                    key_blob: Cow::Owned(copied(key_blob)),
                };
                return match write.handle_packet(&pk_ok, None) {
                    Ok(()) => Ok(
                        AuthenticationState::AwaitAuthRequest { cached: Some(user), attempts },
                    ),
                    Err(e) => Err(Error::Proto(e)),
                };
            },
            // No signature, no authorized key => fail authentication
            (None, None) => return AuthenticationState::fail(Some(user), attempts, write),
        };

        match write.handle_packet(&MessageType::UserAuthSuccess, None) {
            Ok(()) => {},
            Err(e) => return Err(Error::Proto(e)),
        }
        let options = match user.keys[i].key_option() {
            Some(options) => Some(options.clone()),
            None => None,
        };
        let mut data = user.data;
        data.options = options;
        Ok(AuthenticationState::Complete(data))
    }

    fn fail(cached: Option<CachedUser>, attempts: u8, write: &mut WriteState) -> (r: Result<
        Self,
        Error,
    >)
        requires
            old(write).has_room(1, auth_failed().len()),
        ensures
            answered_with(
                *old(write),
                *final(write),
                auth_failed(),
                AuthenticationView::AwaitAuthRequest(
                    match cached {
                        Some(user) => Some(user@),
                        None => None,
                    },
                    attempts,
                ),
                state_view(r),
            ),
    {
        match send_auth_failed(write) {
            Ok(()) => Ok(AuthenticationState::AwaitAuthRequest { cached, attempts }),
            Err(e) => Err(Error::Proto(e)),
        }
    }
}

/// Where an attempt leads, for a user and keys that the user store gives for the name.
pub open spec fn attempted_anew(
    name: Seq<char>,
    attempts: u8,
    public_key: PublicKeyView,
    service_name: ServiceNameView,
    session_id: Seq<u8>,
    store: Store<'_>,
    provider: Provider<'_>,
    write_before: WriteState,
    write_after: WriteState,
    r: Result<AuthenticationView, Error>,
) -> bool {
    exists|user: CachedUserView|
        {
            &&& user.data.name == name
            &&& store.0.spec_lookup(name, Some(user.data))
            &&& store.0.spec_keys(user.data, provider, user.keys)
            &&& #[trigger] attempted(
                user,
                attempts,
                public_key,
                service_name,
                session_id,
                write_before,
                write_after,
                r,
            )
        }
}

/// What an authentication request leads to, with the attempts that are left after it.
pub open spec fn auth_requested(
    cached: Option<CachedUserView>,
    left: u8,
    request: UserAuthRequestView,
    session_id: Seq<u8>,
    store: Store<'_>,
    provider: Provider<'_>,
    write_before: WriteState,
    write_after: WriteState,
    r: Result<AuthenticationView, Error>,
) -> bool {
    let failed = answered_with(
        write_before,
        write_after,
        auth_failed(),
        AuthenticationView::AwaitAuthRequest(cached, left),
        r,
    );
    if ServiceName::spec_name(request.service_name) != "ssh-connection"@ {
        &&& write_after == write_before
        &&& r == Err::<AuthenticationView, Error>(
            Error::Proto(ProtoError::ServiceNotAvailable("only connection service is supported")),
        )
    } else {
        match request.method {
            MethodView::NoMethod => failed,
            MethodView::PublicKey(public_key) => match cached {
                Some(user) if user.data.name == request.user_name => attempted(
                    user,
                    left,
                    public_key,
                    request.service_name,
                    session_id,
                    write_before,
                    write_after,
                    r,
                ),
                _ => if !valid_name(request.user_name) {
                    failed
                } else {
                    // The user store may have no such user.
                    ||| store.0.spec_lookup(request.user_name, None) && failed
                    ||| attempted_anew(
                        request.user_name,
                        left,
                        public_key,
                        request.service_name,
                        session_id,
                        store,
                        provider,
                        write_before,
                        write_after,
                        r,
                    )
                },
            },
        }
    }
}

/// What a packet leads to.
pub open spec fn authenticating(
    state: AuthenticationView,
    packet: IncomingPacket<'_>,
    session_id: Seq<u8>,
    store: Store<'_>,
    provider: Provider<'_>,
    write_before: WriteState,
    write_after: WriteState,
    r: Result<AuthenticationView, Error>,
) -> bool {
    let refused = |e: Error|
        write_after == write_before && r == Err::<AuthenticationView, Error>(e);
    match (state, packet.message_type) {
        (_, MessageType::Ignore) | (_, MessageType::Debug) => {
            &&& write_after == write_before
            &&& r == Ok::<AuthenticationView, Error>(state)
        },
        (_, MessageType::Disconnect) => refused(Error::Auth(AuthError::Canceled)),
        (AuthenticationView::AwaitServiceRequest, MessageType::ServiceRequest) =>
            match ServiceRequest::parse(packet.payload@) {
            Err(e) => refused(Error::Proto(e)),
            Ok(ServiceNameView::UserAuth) => answered_with(
                write_before,
                write_after,
                type_wire(MessageType::ServiceAccept) + name_wire::<ServiceName>(
                    ServiceNameView::UserAuth,
                ),
                AuthenticationView::AwaitAuthRequest(None, ATTEMPTS),
                r,
            ),
            Ok(_) => refused(
                Error::Proto(
                    ProtoError::ServiceNotAvailable(
                        "only user authentication service is supported",
                    ),
                ),
            ),
        },
        (
            AuthenticationView::AwaitAuthRequest(cached, attempts),
            MessageType::UserAuthRequest,
        ) => if attempts <= 1 {
            refused(Error::Auth(AuthError::TooManyAttempts))
        } else {
            match UserAuthRequest::parse(packet.payload@) {
                Err(e) => refused(Error::Proto(e)),
                Ok(request) => auth_requested(
                    cached,
                    (attempts - 1) as u8,
                    request,
                    session_id,
                    store,
                    provider,
                    write_before,
                    write_after,
                    r,
                ),
            }
        },
        _ => refused(Error::InvalidState("unexpected packet received during authentication")),
    }
}

proof fn lemma_pk_ok_len(payload: Seq<u8>)
    ensures
        UserAuthRequest::parse(payload) matches Ok(request) ==> (
        request.method matches MethodView::PublicKey(public_key) ==> pk_ok_wire(
            public_key.algorithm,
            public_key.key_blob,
        ).len() <= payload.len() + 1),
{
    lemma_parse_string_len(payload);
    if let Ok(request) = UserAuthRequest::parse(payload) {
        if let MethodView::PublicKey(public_key) = request.method {
            let (_, services) = parse_string(payload)->Ok_0;
            lemma_parse_name_len::<ServiceName>(services);
            let (_, methods) = parse_name::<ServiceName>(services)->Ok_0;
            lemma_parse_name_len::<MethodName>(methods);
            let (_, data) = parse_name::<MethodName>(methods)->Ok_0;
            let (_, algorithms) = parse_bool(data)->Ok_0;
            lemma_parse_name_len::<PublicKeyAlgorithm>(algorithms);
            let (_, blob) = parse_name::<PublicKeyAlgorithm>(algorithms)->Ok_0;
            lemma_parse_string_len(blob);
            lemma_string_len(public_key.key_blob);
        }
    }
}

impl AuthenticationState {
    /// Handle an authentication request, with the attempts that are left after it.
    fn handle_request(
        cached: Option<CachedUser>,
        left: u8,
        request: UserAuthRequest<'_>,
        session_id: &Digest,
        write: &mut WriteState,
        store: Store<'_>,
        provider: Provider<'_>,
    ) -> (r: Result<Self, Error>)
        requires
            left > 0,
            old(write).has_room(1, auth_failed().len()),
            request@.method matches MethodView::PublicKey(public_key) ==> old(write).has_room(
                1,
                32 + pk_ok_wire(public_key.algorithm, public_key.key_blob).len(),
            ),
        ensures
            auth_requested(
                match cached {
                    Some(user) => Some(user@),
                    None => None,
                },
                left,
                request@,
                session_id@,
                store,
                provider,
                *old(write),
                *final(write),
                state_view(r),
            ),
            r matches Ok(state) ==> state@.wf(),
    {
        let UserAuthRequest { user_name, service_name, method } = request;
        if service_name != ServiceName::Connection {
            return Err(
                Error::Proto(
                    ProtoError::ServiceNotAvailable("only connection service is supported"),
                ),
            );
        }
        let Method::PublicKey(public_key) = method else {
            return AuthenticationState::fail(cached, left, write);
        };

        let (cached, known) = match cached {
            Some(user) => if same_text(user.data.name.as_str(), user_name) {
                (None, Some(user))
            } else {
                (Some(user), find_user(user_name, store, provider))
            },
            None => (None, find_user(user_name, store, provider)),
        };
        let Some(user) = known else {
            let PublicKey { algorithm, key_blob, signature } = public_key;
            // A name that is not known takes as long to refuse as one without authorized keys
            if let Some(signature) = signature {
                let _ = check_fake_signature(
                    signature,
                    algorithm,
                    key_blob,
                    session_id,
                    user_name,
                    service_name,
                    provider,
                );
            }
            return AuthenticationState::fail(cached, left, write);
        };
        let ghost key = public_key@;
        let ghost service = service_name@;
        let r = AuthenticationState::attempt(
            user,
            left,
            public_key,
            service_name,
            session_id,
            write,
            provider,
        );
        proof {
            assert(attempted(
                user@,
                left,
                key,
                service,
                session_id@,
                *old(write),
                *write,
                state_view(r),
            ));
            if user@.data.name == user_name@ && store.0.spec_lookup(
                user_name@,
                Some(user@.data),
            ) && store.0.spec_keys(
                user@.data,
                provider,
                user@.keys,
            ) {
                assert(attempted_anew(
                    user_name@,
                    left,
                    key,
                    service,
                    session_id@,
                    store,
                    provider,
                    *old(write),
                    *write,
                    state_view(r),
                ));
            }
        }
        r
    }

    /// Handle a packet from the client.
    pub fn handle(
        self,
        packet: IncomingPacket<'_>,
        session_id: &Digest,
        write: &mut WriteState,
        store: Store<'_>,
        provider: Provider<'_>,
    ) -> (r: Result<Self, Error>)
        requires
            self@.wf(),
            old(write).has_room(1, 33 + packet.payload@.len()),
        ensures
            authenticating(
                self@,
                packet,
                session_id@,
                store,
                provider,
                *old(write),
                *final(write),
                state_view(r),
            ),
            r matches Ok(state) ==> state@.wf(),
    {
        let ghost room = 33 + packet.payload@.len();
        proof {
            lemma_reply_lengths();
            lemma_less_room(*write, 1, room, 1, auth_failed().len());
            lemma_less_room(
                *write,
                1,
                room,
                1,
                (type_wire(MessageType::ServiceAccept) + name_wire::<ServiceName>(
                    ServiceNameView::UserAuth,
                )).len(),
            );
        }
        match (self, packet.message_type) {
            (state, MessageType::Ignore) | (state, MessageType::Debug) => Ok(state),
            (_, MessageType::Disconnect) => Err(Error::Auth(AuthError::Canceled)),
            (AuthenticationState::AwaitServiceRequest, MessageType::ServiceRequest) => {
                let request = match ServiceRequest::try_from(packet) {
                    Ok(request) => request,
                    Err(e) => return Err(Error::Proto(e)),
                };
                match request.service_name {
                    ServiceName::UserAuth => {
                        let accept = ServiceAccept { service_name: ServiceName::UserAuth };
                        match write.handle_packet(&accept, None) {
                            Ok(()) => Ok(
                                AuthenticationState::AwaitAuthRequest {
                                    cached: None,
                                    attempts: ATTEMPTS,
                                },
                            ),
                            Err(e) => Err(Error::Proto(e)),
                        }
                    },
                    _ => Err(
                        Error::Proto(
                            ProtoError::ServiceNotAvailable(
                                "only user authentication service is supported",
                            ),
                        ),
                    ),
                }
            },
            (
                AuthenticationState::AwaitAuthRequest { cached, attempts },
                MessageType::UserAuthRequest,
            ) => {
                let attempts: u8 = attempts - 1;
                if attempts == 0 {
                    return Err(Error::Auth(AuthError::TooManyAttempts));
                }
                let ghost payload = packet.payload@;
                let request = match UserAuthRequest::try_from(packet) {
                    Ok(request) => request,
                    Err(e) => return Err(Error::Proto(e)),
                };
                proof {
                    lemma_pk_ok_len(payload);
                    if let MethodView::PublicKey(public_key) = request@.method {
                        lemma_less_room(
                            *write,
                            1,
                            room,
                            1,
                            32 + pk_ok_wire(public_key.algorithm, public_key.key_blob).len(),
                        );
                    }
                }
                AuthenticationState::handle_request(
                    cached,
                    attempts,
                    request,
                    session_id,
                    write,
                    store,
                    provider,
                )
            },
            _ => Err(Error::InvalidState("unexpected packet received during authentication")),
        }
    }
}

/// The user with the given name and the keys that the user may log in with, as the user store
/// has them.
fn find_user(user_name: &str, store: Store<'_>, provider: Provider<'_>) -> (r: Option<
    CachedUser,
>)
    ensures
        match r {
            Some(user) => {
                &&& valid_name(user_name@)
                &&& user@.data.name == user_name@
                &&& store.0.spec_lookup(user_name@, Some(user@.data))
                &&& store.0.spec_keys(user@.data, provider, user@.keys)
            },
            None => !valid_name(user_name@) || store.0.spec_lookup(user_name@, None),
        },
{
    let Ok(name) = Username::try_from(user_name.to_owned()) else {
        return None;
    };
    let Some(user) = store.0.lookup(name) else {
        return None;
    };
    let keys = store.0.keys(&user, provider);
    Some(CachedUser { data: user, keys })
}

/// The message with which a failed authentication ends.
pub open spec fn farewell(error: Error) -> (DisconnectReason, &'static str) {
    match error {
        Error::Auth(AuthError::TooManyAttempts) => (
            DisconnectReason::ByApplication,
            "too many authentication attempts",
        ),
        Error::InvalidState(description) => (DisconnectReason::ByApplication, description),
        Error::InvalidUsername => (DisconnectReason::IllegalUserName, "invalid username"),
        Error::Proto(ProtoError::ServiceNotAvailable(description)) => (
            DisconnectReason::ServiceNotAvailable,
            description,
        ),
        _ => (DisconnectReason::ByApplication, "authentication failed"),
    }
}

/// The message with which a failed authentication ends.
pub fn disconnect_for(error: &Error) -> (r: Disconnect<'static>)
    ensures
        r.reason_code == farewell(*error).0,
        r.description@ == farewell(*error).1@,
{
    match error {
        Error::Auth(AuthError::TooManyAttempts) => Disconnect {
            reason_code: DisconnectReason::ByApplication,
            description: "too many authentication attempts",
        },
        Error::InvalidState(description) => Disconnect {
            reason_code: DisconnectReason::ByApplication,
            description,
        },
        Error::InvalidUsername => Disconnect {
            reason_code: DisconnectReason::IllegalUserName,
            description: "invalid username",
        },
        Error::Proto(ProtoError::ServiceNotAvailable(description)) => Disconnect {
            reason_code: DisconnectReason::ServiceNotAvailable,
            description,
        },
        _ => Disconnect {
            reason_code: DisconnectReason::ByApplication,
            description: "authentication failed",
        },
    }
}

/// The message with which an authentication ends that takes too long.
pub fn timed_out() -> (r: Disconnect<'static>)
    ensures
        r.reason_code == DisconnectReason::ByApplication,
        r.description@ == "authentication timed out"@,
{
    Disconnect {
        reason_code: DisconnectReason::ByApplication,
        description: "authentication timed out",
    }
}

/// Every authentication request takes an attempt away, so that a client has at most one less
/// than [`ATTEMPTS`].
pub proof fn attempts_run_out(
    cached: Option<CachedUserView>,
    attempts: u8,
    packet: IncomingPacket<'_>,
    session_id: Seq<u8>,
    store: Store<'_>,
    provider: Provider<'_>,
    write_before: WriteState,
    write_after: WriteState,
    r: Result<AuthenticationView, Error>,
)
    requires
        packet.message_type == MessageType::UserAuthRequest,
        authenticating(
            AuthenticationView::AwaitAuthRequest(cached, attempts),
            packet,
            session_id,
            store,
            provider,
            write_before,
            write_after,
            r,
        ),
    ensures
        attempts <= 1 ==> r == Err::<AuthenticationView, Error>(
            Error::Auth(AuthError::TooManyAttempts),
        ),
        r matches Ok(AuthenticationView::AwaitAuthRequest(_, left)) ==> left == attempts - 1,
{
    reveal(attempted);
}

/// A request carries a signature that verifies by a key that the user may log in with: by the one
/// that the request is for, with its algorithm.
pub open spec fn signature_verifies(
    keys: Seq<AuthorizedKeyView>,
    public_key: PublicKeyView,
    session_id: Seq<u8>,
    user_name: Seq<char>,
    service_name: ServiceNameView,
) -> bool {
    &&& public_key.signature matches Some(signature)
    &&& exists|i: int|
        {
            &&& 0 <= i < keys.len()
            &&& keys[i].algorithm == public_key.algorithm
            &&& keys[i].blob == public_key.key_blob
            &&& signature.algorithm == keys[i].algorithm
            &&& verifies(
                signature,
                #[trigger] keys[i],
                public_key.algorithm,
                public_key.key_blob,
                session_id,
                user_name,
                service_name,
            )
        }
}

/// No request is accepted without a signature that verifies by a key that the user may log in
/// with.
pub proof fn accepted_with_signature(
    keys: Seq<AuthorizedKeyView>,
    public_key: PublicKeyView,
    session_id: Seq<u8>,
    user_name: Seq<char>,
    service_name: ServiceNameView,
)
    requires
        verdict(keys, public_key, session_id, user_name, service_name) is Accept,
    ensures
        signature_verifies(keys, public_key, session_id, user_name, service_name),
{
    lemma_first_match(keys, public_key, 0);
    let i = first_match(keys, public_key, 0)->0;
    assert(0 <= i < keys.len() && keys[i].algorithm == public_key.algorithm);
}

/// The user from an earlier request is one that the user store gives for the name, with the keys.
pub open spec fn known_to_store(
    state: AuthenticationView,
    store: Store<'_>,
    provider: Provider<'_>,
) -> bool {
    state matches AuthenticationView::AwaitAuthRequest(Some(user), _) ==> {
        &&& store.0.spec_lookup(user.data.name, Some(user.data))
        &&& store.0.spec_keys(user.data, provider, user.keys)
    }
}

/// Whatever packet comes, the user from an earlier request is one that the user store has given.
pub proof fn cached_users_are_known(
    state: AuthenticationView,
    packet: IncomingPacket<'_>,
    session_id: Seq<u8>,
    store: Store<'_>,
    provider: Provider<'_>,
    write_before: WriteState,
    write_after: WriteState,
    r: Result<AuthenticationView, Error>,
)
    requires
        known_to_store(state, store, provider),
        authenticating(
            state,
            packet,
            session_id,
            store,
            provider,
            write_before,
            write_after,
            r,
        ),
    ensures
        r matches Ok(next) ==> known_to_store(next, store, provider),
{
    reveal(attempted);
}

/// A user is authenticated only by a request for the connection service under the user's name
/// that carries a signature over the session and that name, which verifies by a key that the user
/// may log in with. The user and the keys are those that the user store gives for the name.
pub proof fn authenticated_by_signature(
    state: AuthenticationView,
    packet: IncomingPacket<'_>,
    session_id: Seq<u8>,
    store: Store<'_>,
    provider: Provider<'_>,
    write_before: WriteState,
    write_after: WriteState,
    user: UserView,
)
    requires
        !(state is Complete),
        known_to_store(state, store, provider),
        authenticating(
            state,
            packet,
            session_id,
            store,
            provider,
            write_before,
            write_after,
            Ok(AuthenticationView::Complete(user)),
        ),
    ensures
        packet.message_type == MessageType::UserAuthRequest,
        UserAuthRequest::parse(packet.payload@) matches Ok(request) && {
            &&& ServiceName::spec_name(request.service_name) == "ssh-connection"@
            &&& request.user_name == user.name
            &&& request.method matches MethodView::PublicKey(public_key)
            &&& exists|known: CachedUserView|
                {
                    &&& store.0.spec_lookup(user.name, Some(known.data))
                    &&& store.0.spec_keys(known.data, provider, known.keys)
                    &&& user == UserView { command: user.command, ..known.data }
                    &&& #[trigger] signature_verifies(
                        known.keys,
                        public_key,
                        session_id,
                        user.name,
                        request.service_name,
                    )
                }
        },
{
    let r = Ok::<AuthenticationView, Error>(AuthenticationView::Complete(user));
    let request = UserAuthRequest::parse(packet.payload@)->Ok_0;
    let cached = state->AwaitAuthRequest_0;
    let left = (state->AwaitAuthRequest_1 - 1) as u8;
    let public_key = request.method->PublicKey_0;
    reveal(attempted);
    let known = if cached is Some && cached->0.data.name == request.user_name {
        cached->0
    } else {
        choose|known: CachedUserView|
            {
                &&& known.data.name == request.user_name
                &&& store.0.spec_lookup(request.user_name, Some(known.data))
                &&& store.0.spec_keys(known.data, provider, known.keys)
                &&& #[trigger] attempted(
                    known,
                    left,
                    public_key,
                    request.service_name,
                    session_id,
                    write_before,
                    write_after,
                    r,
                )
            }
    };
    accepted_with_signature(
        known.keys,
        public_key,
        session_id,
        known.data.name,
        request.service_name,
    );
    assert(user.name == known.data.name);
    assert(signature_verifies(
        known.keys,
        public_key,
        session_id,
        user.name,
        request.service_name,
    ));
}

proof fn lemma_first_match(keys: Seq<AuthorizedKeyView>, public_key: PublicKeyView, from: int)
    requires
        0 <= from,
    ensures
        first_match(keys, public_key, from) matches Some(i) ==> from <= i < keys.len()
            && keys[i].algorithm == public_key.algorithm && keys[i].blob == public_key.key_blob,
    decreases keys.len() - from,
{
    if from < keys.len() {
        lemma_first_match(keys, public_key, from + 1);
    }
}

} // verus!
