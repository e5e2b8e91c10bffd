//! Named algorithms, services and methods, and name-list encoding (RFC 4251 section 5).

use std::borrow::Cow;

use vstd::prelude::*;
use vstd::slice::slice_subrange;
use vstd::utf8::{decode_utf8, encode_utf8, valid_utf8};

use crate::crypto::KeyLengths;
use crate::error::ProtoError;
use crate::text::{from_utf8, same_text};
use crate::wire::{parse_string, put, put_string, string_round_trip, string_wire, text_round_trip};
use crate::wire::{text_wire, Decode, Decoded, Encode, Parsed};

verus! {

/// A type represented on the wire by a name.
///
/// Names are used in name lists and `string` fields as specified in
/// <https://www.rfc-editor.org/rfc/rfc4251#section-5>.
pub trait Named<'a>: Sized + View + Send + Sync {
    /// The value that `name` stands for.
    spec fn spec_typed(name: Seq<char>) -> Self::V;

    /// The wire name of a value.
    spec fn spec_name(value: Self::V) -> Seq<char>;

    /// The value that a name stands for has that name.
    proof fn name_of_typed(name: Seq<char>)
        ensures
            Self::spec_name(Self::spec_typed(name)) == name,
    ;

    /// Map `name` to a known value, or a catch-all unknown value.
    fn typed(name: &'a str) -> (r: Self)
        ensures
            r@ == Self::spec_typed(name@),
    ;

    /// The wire name for this value.
    fn name(&self) -> (r: &str)
        ensures
            r@ == Self::spec_name(self@),
    ;

    /// Whether two values are the same.
    fn same(&self, other: &Self) -> (r: bool)
        ensures
            r == (self@ == other@),
    ;
}

/// The text that `cow` holds.
pub open spec fn cow_view(cow: Cow<'_, str>) -> Seq<char> {
    match cow {
        Cow::Borrowed(text) => text@,
        Cow::Owned(text) => text@,
    }
}

/// The text that `cow` holds.
pub fn cow_text<'b>(cow: &'b Cow<'_, str>) -> (r: &'b str)
    ensures
        r@ == cow_view(*cow),
{
    match cow {
        Cow::Borrowed(text) => text,
        Cow::Owned(text) => text.as_str(),
    }
}

/// Authentication method names.
///
/// See <https://www.rfc-editor.org/rfc/rfc4252>.
#[derive(Debug)]
pub enum MethodName<'a> {
    /// `publickey`, as defined in <https://www.rfc-editor.org/rfc/rfc4252#section-7>.
    PublicKey,
    /// `password`, as defined in <https://www.rfc-editor.org/rfc/rfc4252#section-8>.
    Password,
    /// `hostbased`, as defined in <https://www.rfc-editor.org/rfc/rfc4252#section-9>.
    HostBased,
    /// `none`, as defined in <https://www.rfc-editor.org/rfc/rfc4252#section-5.2>.
    NoMethod,
    /// A method name not known to this implementation.
    Unknown(&'a str),
}

/// What a [`MethodName`] stands for.
pub enum MethodNameView {
    /// `publickey`
    PublicKey,
    /// `password`
    Password,
    /// `hostbased`
    HostBased,
    /// `none`
    NoMethod,
    /// A method name not known to this implementation.
    Unknown(Seq<char>),
}

impl View for MethodName<'_> {
    type V = MethodNameView;

    open spec fn view(&self) -> MethodNameView {
        match *self {
            MethodName::PublicKey => MethodNameView::PublicKey,
            MethodName::Password => MethodNameView::Password,
            MethodName::HostBased => MethodNameView::HostBased,
            MethodName::NoMethod => MethodNameView::NoMethod,
            MethodName::Unknown(name) => MethodNameView::Unknown(name@),
        }
    }
}

impl<'a> Named<'a> for MethodName<'a> {
    open spec fn spec_typed(name: Seq<char>) -> MethodNameView {
        if name == "publickey"@ {
            MethodNameView::PublicKey
        } else if name == "password"@ {
            MethodNameView::Password
        } else if name == "hostbased"@ {
            MethodNameView::HostBased
        } else if name == "none"@ {
            MethodNameView::NoMethod
        } else {
            MethodNameView::Unknown(name)
        }
    }

    open spec fn spec_name(value: MethodNameView) -> Seq<char> {
        match value {
            MethodNameView::PublicKey => "publickey"@,
            MethodNameView::Password => "password"@,
            MethodNameView::HostBased => "hostbased"@,
            MethodNameView::NoMethod => "none"@,
            MethodNameView::Unknown(name) => name,
        }
    }

    proof fn name_of_typed(name: Seq<char>) {
    }

    fn typed(name: &'a str) -> (r: Self) {
        if same_text(name, "publickey") {
            MethodName::PublicKey
        } else if same_text(name, "password") {
            MethodName::Password
        } else if same_text(name, "hostbased") {
            MethodName::HostBased
        } else if same_text(name, "none") {
            MethodName::NoMethod
        } else {
            MethodName::Unknown(name)
        }
    }

    fn name(&self) -> (r: &str) {
        match self {
            MethodName::PublicKey => "publickey",
            MethodName::Password => "password",
            MethodName::HostBased => "hostbased",
            MethodName::NoMethod => "none",
            MethodName::Unknown(name) => name,
        }
    }

    fn same(&self, other: &Self) -> (r: bool) {
        match (self, other) {
            (MethodName::PublicKey, MethodName::PublicKey) => true,
            (MethodName::Password, MethodName::Password) => true,
            (MethodName::HostBased, MethodName::HostBased) => true,
            (MethodName::NoMethod, MethodName::NoMethod) => true,
            (MethodName::Unknown(a), MethodName::Unknown(b)) => same_text(a, b),
            _ => false,
        }
    }
}

impl PartialEq for MethodName<'_> {
    fn eq(&self, other: &Self) -> (r: bool) {
        same_text(self.name(), other.name())
    }
}

impl vstd::std_specs::cmp::PartialEqSpecImpl for MethodName<'_> {
    open spec fn obeys_eq_spec() -> bool {
        true
    }

    open spec fn eq_spec(&self, other: &Self) -> bool {
        MethodName::spec_name(self@) == MethodName::spec_name(other@)
    }
}

/// Service names for `SSH_MSG_SERVICE_REQUEST`.
///
/// See <https://www.rfc-editor.org/rfc/rfc4253#section-10>.
#[derive(Debug)]
pub enum ServiceName<'a> {
    /// `ssh-userauth`, the user authentication protocol (RFC 4252).
    UserAuth,
    /// `ssh-connection`, the connection protocol (RFC 4254).
    Connection,
    /// A service name not known to this implementation.
    Unknown(&'a str),
}

/// What a [`ServiceName`] stands for.
pub enum ServiceNameView {
    /// `ssh-userauth`
    UserAuth,
    /// `ssh-connection`
    Connection,
    /// A service name not known to this implementation.
    Unknown(Seq<char>),
}

impl View for ServiceName<'_> {
    type V = ServiceNameView;

    open spec fn view(&self) -> ServiceNameView {
        match *self {
            ServiceName::UserAuth => ServiceNameView::UserAuth,
            ServiceName::Connection => ServiceNameView::Connection,
            ServiceName::Unknown(name) => ServiceNameView::Unknown(name@),
        }
    }
}

impl<'a> Named<'a> for ServiceName<'a> {
    open spec fn spec_typed(name: Seq<char>) -> ServiceNameView {
        if name == "ssh-userauth"@ {
            ServiceNameView::UserAuth
        } else if name == "ssh-connection"@ {
            ServiceNameView::Connection
        } else {
            ServiceNameView::Unknown(name)
        }
    }

    open spec fn spec_name(value: ServiceNameView) -> Seq<char> {
        match value {
            ServiceNameView::UserAuth => "ssh-userauth"@,
            ServiceNameView::Connection => "ssh-connection"@,
            ServiceNameView::Unknown(name) => name,
        }
    }

    proof fn name_of_typed(name: Seq<char>) {
    }

    fn typed(name: &'a str) -> (r: Self) {
        if same_text(name, "ssh-userauth") {
            ServiceName::UserAuth
        } else if same_text(name, "ssh-connection") {
            ServiceName::Connection
        } else {
            ServiceName::Unknown(name)
        }
    }

    fn name(&self) -> (r: &str) {
        match self {
            ServiceName::UserAuth => "ssh-userauth",
            ServiceName::Connection => "ssh-connection",
            ServiceName::Unknown(name) => name,
        }
    }

    fn same(&self, other: &Self) -> (r: bool) {
        match (self, other) {
            (ServiceName::UserAuth, ServiceName::UserAuth) => true,
            (ServiceName::Connection, ServiceName::Connection) => true,
            (ServiceName::Unknown(a), ServiceName::Unknown(b)) => same_text(a, b),
            _ => false,
        }
    }
}

impl PartialEq for ServiceName<'_> {
    fn eq(&self, other: &Self) -> (r: bool) {
        same_text(self.name(), other.name())
    }
}

impl vstd::std_specs::cmp::PartialEqSpecImpl for ServiceName<'_> {
    open spec fn obeys_eq_spec() -> bool {
        true
    }

    open spec fn eq_spec(&self, other: &Self) -> bool {
        ServiceName::spec_name(self@) == ServiceName::spec_name(other@)
    }
}

/// Extension names for `SSH_MSG_EXT_INFO`.
///
/// See <https://www.rfc-editor.org/rfc/rfc8308#section-3>.
#[derive(Debug)]
pub enum ExtensionName<'a> {
    /// `server-sig-algs`, the public key algorithms that the server accepts.
    ServerSigAlgs,
    /// An extension name not known to this implementation.
    Unknown(&'a str),
}

/// What a [`ExtensionName`] stands for.
pub enum ExtensionNameView {
    /// `server-sig-algs`
    ServerSigAlgs,
    /// An extension name not known to this implementation.
    Unknown(Seq<char>),
}

impl View for ExtensionName<'_> {
    type V = ExtensionNameView;

    open spec fn view(&self) -> ExtensionNameView {
        match *self {
            ExtensionName::ServerSigAlgs => ExtensionNameView::ServerSigAlgs,
            ExtensionName::Unknown(name) => ExtensionNameView::Unknown(name@),
        }
    }
}

impl<'a> Named<'a> for ExtensionName<'a> {
    open spec fn spec_typed(name: Seq<char>) -> ExtensionNameView {
        if name == "server-sig-algs"@ {
            ExtensionNameView::ServerSigAlgs
        } else {
            ExtensionNameView::Unknown(name)
        }
    }

    open spec fn spec_name(value: ExtensionNameView) -> Seq<char> {
        match value {
            ExtensionNameView::ServerSigAlgs => "server-sig-algs"@,
            ExtensionNameView::Unknown(name) => name,
        }
    }

    proof fn name_of_typed(name: Seq<char>) {
    }

    fn typed(name: &'a str) -> (r: Self) {
        if same_text(name, "server-sig-algs") {
            ExtensionName::ServerSigAlgs
        } else {
            ExtensionName::Unknown(name)
        }
    }

    fn name(&self) -> (r: &str) {
        match self {
            ExtensionName::ServerSigAlgs => "server-sig-algs",
            ExtensionName::Unknown(name) => name,
        }
    }

    fn same(&self, other: &Self) -> (r: bool) {
        match (self, other) {
            (ExtensionName::ServerSigAlgs, ExtensionName::ServerSigAlgs) => true,
            (ExtensionName::Unknown(a), ExtensionName::Unknown(b)) => same_text(a, b),
            _ => false,
        }
    }
}

/// Channel types for `SSH_MSG_CHANNEL_OPEN`.
///
/// See <https://www.rfc-editor.org/rfc/rfc4250#section-4.9.1>.
#[derive(Debug, PartialEq)]
pub enum ChannelType<'a> {
    /// `session`, as defined in <https://www.rfc-editor.org/rfc/rfc4254#section-6.1>.
    Session,
    /// A channel type not known to this implementation.
    Unknown(&'a str),
}

/// What a [`ChannelType`] stands for.
pub enum ChannelTypeView {
    /// `session`
    Session,
    /// A channel type not known to this implementation.
    Unknown(Seq<char>),
}

impl View for ChannelType<'_> {
    type V = ChannelTypeView;

    open spec fn view(&self) -> ChannelTypeView {
        match *self {
            ChannelType::Session => ChannelTypeView::Session,
            ChannelType::Unknown(name) => ChannelTypeView::Unknown(name@),
        }
    }
}

impl<'a> Named<'a> for ChannelType<'a> {
    open spec fn spec_typed(name: Seq<char>) -> ChannelTypeView {
        if name == "session"@ {
            ChannelTypeView::Session
        } else {
            ChannelTypeView::Unknown(name)
        }
    }

    open spec fn spec_name(value: ChannelTypeView) -> Seq<char> {
        match value {
            ChannelTypeView::Session => "session"@,
            ChannelTypeView::Unknown(name) => name,
        }
    }

    proof fn name_of_typed(name: Seq<char>) {
    }

    fn typed(name: &'a str) -> (r: Self) {
        if same_text(name, "session") {
            ChannelType::Session
        } else {
            ChannelType::Unknown(name)
        }
    }

    fn name(&self) -> (r: &str) {
        match self {
            ChannelType::Session => "session",
            ChannelType::Unknown(name) => name,
        }
    }

    fn same(&self, other: &Self) -> (r: bool) {
        match (self, other) {
            (ChannelType::Session, ChannelType::Session) => true,
            (ChannelType::Unknown(a), ChannelType::Unknown(b)) => same_text(a, b),
            _ => false,
        }
    }
}

/// Key exchange algorithm names.
///
/// See <https://www.rfc-editor.org/rfc/rfc4253#section-7>.
#[derive(Clone, Copy, Debug, Eq, PartialEq)]
pub enum KeyExchangeAlgorithm<'a> {
    /// `mlkem768x25519-sha256`: hybrid using ML-KEM-768 and X25519, as defined in
    /// <https://www.rfc-editor.org/rfc/rfc10042.html>.
    MlKem768X25519Sha256,
    /// `curve25519-sha256`: ECDH using X25519, as defined in
    /// <https://www.rfc-editor.org/rfc/rfc8731>.
    Curve25519Sha256,
    /// A key exchange algorithm not known to this implementation.
    Unknown(&'a str),
}

/// What a [`KeyExchangeAlgorithm`] stands for.
pub enum KeyExchangeAlgorithmView {
    /// `mlkem768x25519-sha256`
    MlKem768X25519Sha256,
    /// `curve25519-sha256`
    Curve25519Sha256,
    /// A key exchange algorithm not known to this implementation.
    Unknown(Seq<char>),
}

impl View for KeyExchangeAlgorithm<'_> {
    type V = KeyExchangeAlgorithmView;

    open spec fn view(&self) -> KeyExchangeAlgorithmView {
        match *self {
            KeyExchangeAlgorithm::MlKem768X25519Sha256 => KeyExchangeAlgorithmView::MlKem768X25519Sha256,
            KeyExchangeAlgorithm::Curve25519Sha256 => KeyExchangeAlgorithmView::Curve25519Sha256,
            KeyExchangeAlgorithm::Unknown(name) => KeyExchangeAlgorithmView::Unknown(name@),
        }
    }
}

impl KeyExchangeAlgorithm<'_> {
    /// Whether it's secure against attacks with a cryptographically relevant quantum computer.
    pub fn post_quantum_secure(&self) -> (r: bool)
        ensures
            r == (self@ == KeyExchangeAlgorithmView::MlKem768X25519Sha256),
    {
        match self {
            KeyExchangeAlgorithm::MlKem768X25519Sha256 => true,
            KeyExchangeAlgorithm::Curve25519Sha256 | KeyExchangeAlgorithm::Unknown(_) => false,
        }
    }
}

impl<'a> Named<'a> for KeyExchangeAlgorithm<'a> {
    open spec fn spec_typed(name: Seq<char>) -> KeyExchangeAlgorithmView {
        if name == "mlkem768x25519-sha256"@ {
            KeyExchangeAlgorithmView::MlKem768X25519Sha256
        } else if name == "curve25519-sha256"@ {
            KeyExchangeAlgorithmView::Curve25519Sha256
        } else {
            KeyExchangeAlgorithmView::Unknown(name)
        }
    }

    open spec fn spec_name(value: KeyExchangeAlgorithmView) -> Seq<char> {
        match value {
            KeyExchangeAlgorithmView::MlKem768X25519Sha256 => "mlkem768x25519-sha256"@,
            KeyExchangeAlgorithmView::Curve25519Sha256 => "curve25519-sha256"@,
            KeyExchangeAlgorithmView::Unknown(name) => name,
        }
    }

    proof fn name_of_typed(name: Seq<char>) {
    }

    fn typed(name: &'a str) -> (r: Self) {
        if same_text(name, "mlkem768x25519-sha256") {
            KeyExchangeAlgorithm::MlKem768X25519Sha256
        } else if same_text(name, "curve25519-sha256") {
            KeyExchangeAlgorithm::Curve25519Sha256
        } else {
            KeyExchangeAlgorithm::Unknown(name)
        }
    }

    fn name(&self) -> (r: &str) {
        match self {
            KeyExchangeAlgorithm::MlKem768X25519Sha256 => "mlkem768x25519-sha256",
            KeyExchangeAlgorithm::Curve25519Sha256 => "curve25519-sha256",
            KeyExchangeAlgorithm::Unknown(name) => name,
        }
    }

    fn same(&self, other: &Self) -> (r: bool) {
        match (self, other) {
            (KeyExchangeAlgorithm::MlKem768X25519Sha256, KeyExchangeAlgorithm::MlKem768X25519Sha256) => true,
            (KeyExchangeAlgorithm::Curve25519Sha256, KeyExchangeAlgorithm::Curve25519Sha256) => true,
            (KeyExchangeAlgorithm::Unknown(a), KeyExchangeAlgorithm::Unknown(b)) => same_text(a, b),
            _ => false,
        }
    }
}

/// Extension marker names sent in the `SSH_MSG_KEXINIT` key exchange name list.
#[derive(Clone, Copy, Debug, Eq, PartialEq)]
pub enum ExtensionId<'a> {
    /// `ext-info-c`, the client's extension information marker, as defined in
    /// <https://www.rfc-editor.org/rfc/rfc8308>.
    ExtInfoC,
    /// `kex-strict-c-v00@openssh.com`, the client's strict key exchange marker, as defined in
    /// <https://github.com/openssh/openssh-portable/blob/master/PROTOCOL>.
    StrictKexClient,
    /// `kex-strict-s-v00@openssh.com`, the server's strict key exchange marker, as defined in
    /// <https://github.com/openssh/openssh-portable/blob/master/PROTOCOL>.
    StrictKexServer,
    /// An extension marker not known to this implementation.
    Unknown(&'a str),
}

/// What a [`ExtensionId`] stands for.
pub enum ExtensionIdView {
    /// `ext-info-c`
    ExtInfoC,
    /// `kex-strict-c-v00@openssh.com`
    StrictKexClient,
    /// `kex-strict-s-v00@openssh.com`
    StrictKexServer,
    /// An extension marker not known to this implementation.
    Unknown(Seq<char>),
}

impl View for ExtensionId<'_> {
    type V = ExtensionIdView;

    open spec fn view(&self) -> ExtensionIdView {
        match *self {
            ExtensionId::ExtInfoC => ExtensionIdView::ExtInfoC,
            ExtensionId::StrictKexClient => ExtensionIdView::StrictKexClient,
            ExtensionId::StrictKexServer => ExtensionIdView::StrictKexServer,
            ExtensionId::Unknown(name) => ExtensionIdView::Unknown(name@),
        }
    }
}

impl<'a> Named<'a> for ExtensionId<'a> {
    open spec fn spec_typed(name: Seq<char>) -> ExtensionIdView {
        if name == "ext-info-c"@ {
            ExtensionIdView::ExtInfoC
        } else if name == "kex-strict-c-v00@openssh.com"@ {
            ExtensionIdView::StrictKexClient
        } else if name == "kex-strict-s-v00@openssh.com"@ {
            ExtensionIdView::StrictKexServer
        } else {
            ExtensionIdView::Unknown(name)
        }
    }

    open spec fn spec_name(value: ExtensionIdView) -> Seq<char> {
        match value {
            ExtensionIdView::ExtInfoC => "ext-info-c"@,
            ExtensionIdView::StrictKexClient => "kex-strict-c-v00@openssh.com"@,
            ExtensionIdView::StrictKexServer => "kex-strict-s-v00@openssh.com"@,
            ExtensionIdView::Unknown(name) => name,
        }
    }

    proof fn name_of_typed(name: Seq<char>) {
    }

    fn typed(name: &'a str) -> (r: Self) {
        if same_text(name, "ext-info-c") {
            ExtensionId::ExtInfoC
        } else if same_text(name, "kex-strict-c-v00@openssh.com") {
            ExtensionId::StrictKexClient
        } else if same_text(name, "kex-strict-s-v00@openssh.com") {
            ExtensionId::StrictKexServer
        } else {
            ExtensionId::Unknown(name)
        }
    }

    fn name(&self) -> (r: &str) {
        match self {
            ExtensionId::ExtInfoC => "ext-info-c",
            ExtensionId::StrictKexClient => "kex-strict-c-v00@openssh.com",
            ExtensionId::StrictKexServer => "kex-strict-s-v00@openssh.com",
            ExtensionId::Unknown(name) => name,
        }
    }

    fn same(&self, other: &Self) -> (r: bool) {
        match (self, other) {
            (ExtensionId::ExtInfoC, ExtensionId::ExtInfoC) => true,
            (ExtensionId::StrictKexClient, ExtensionId::StrictKexClient) => true,
            (ExtensionId::StrictKexServer, ExtensionId::StrictKexServer) => true,
            (ExtensionId::Unknown(a), ExtensionId::Unknown(b)) => same_text(a, b),
            _ => false,
        }
    }
}

/// Public key algorithm names.
///
/// See <https://www.rfc-editor.org/rfc/rfc4253#section-6.6>.
#[derive(Debug, Eq, PartialEq)]
pub enum PublicKeyAlgorithm<'a> {
    /// `ecdsa-sha2-nistp256`, as defined in <https://www.rfc-editor.org/rfc/rfc5656>.
    EcdsaSha2Nistp256,
    /// `ssh-ed25519`, as defined in <https://www.rfc-editor.org/rfc/rfc8709>.
    Ed25519,
    /// A public key algorithm not known to this implementation.
    Unknown(Cow<'a, str>),
}

/// What a [`PublicKeyAlgorithm`] stands for.
pub enum PublicKeyAlgorithmView {
    /// `ecdsa-sha2-nistp256`
    EcdsaSha2Nistp256,
    /// `ssh-ed25519`
    Ed25519,
    /// A public key algorithm not known to this implementation.
    Unknown(Seq<char>),
}

impl View for PublicKeyAlgorithm<'_> {
    type V = PublicKeyAlgorithmView;

    open spec fn view(&self) -> PublicKeyAlgorithmView {
        match *self {
            PublicKeyAlgorithm::EcdsaSha2Nistp256 => PublicKeyAlgorithmView::EcdsaSha2Nistp256,
            PublicKeyAlgorithm::Ed25519 => PublicKeyAlgorithmView::Ed25519,
            PublicKeyAlgorithm::Unknown(name) => PublicKeyAlgorithmView::Unknown(cow_view(name)),
        }
    }
}

impl Clone for PublicKeyAlgorithm<'_> {
    fn clone(&self) -> (r: Self)
        ensures
            r@ == self@,
    {
        match self {
            PublicKeyAlgorithm::EcdsaSha2Nistp256 => PublicKeyAlgorithm::EcdsaSha2Nistp256,
            PublicKeyAlgorithm::Ed25519 => PublicKeyAlgorithm::Ed25519,
            PublicKeyAlgorithm::Unknown(Cow::Borrowed(name)) => PublicKeyAlgorithm::Unknown(Cow::Borrowed(name)),
            PublicKeyAlgorithm::Unknown(Cow::Owned(name)) => PublicKeyAlgorithm::Unknown(Cow::Owned(name.clone())),
        }
    }
}

impl PublicKeyAlgorithm<'_> {
    /// Copy any borrowed data so the value can outlive the input buffer.
    pub fn to_owned(&self) -> (r: PublicKeyAlgorithm<'static>)
        ensures
            r@ == self@,
    {
        match self {
            PublicKeyAlgorithm::EcdsaSha2Nistp256 => PublicKeyAlgorithm::EcdsaSha2Nistp256,
            PublicKeyAlgorithm::Ed25519 => PublicKeyAlgorithm::Ed25519,
            PublicKeyAlgorithm::Unknown(name) => PublicKeyAlgorithm::Unknown(
                Cow::Owned(cow_text(name).to_owned()),
            ),
        }
    }
}

impl<'a> Named<'a> for PublicKeyAlgorithm<'a> {
    open spec fn spec_typed(name: Seq<char>) -> PublicKeyAlgorithmView {
        if name == "ecdsa-sha2-nistp256"@ {
            PublicKeyAlgorithmView::EcdsaSha2Nistp256
        } else if name == "ssh-ed25519"@ {
            PublicKeyAlgorithmView::Ed25519
        } else {
            PublicKeyAlgorithmView::Unknown(name)
        }
    }

    open spec fn spec_name(value: PublicKeyAlgorithmView) -> Seq<char> {
        match value {
            PublicKeyAlgorithmView::EcdsaSha2Nistp256 => "ecdsa-sha2-nistp256"@,
            PublicKeyAlgorithmView::Ed25519 => "ssh-ed25519"@,
            PublicKeyAlgorithmView::Unknown(name) => name,
        }
    }

    proof fn name_of_typed(name: Seq<char>) {
    }

    fn typed(name: &'a str) -> (r: Self) {
        if same_text(name, "ecdsa-sha2-nistp256") {
            PublicKeyAlgorithm::EcdsaSha2Nistp256
        } else if same_text(name, "ssh-ed25519") {
            PublicKeyAlgorithm::Ed25519
        } else {
            PublicKeyAlgorithm::Unknown(Cow::Borrowed(name))
        }
    }

    fn name(&self) -> (r: &str) {
        match self {
            PublicKeyAlgorithm::EcdsaSha2Nistp256 => "ecdsa-sha2-nistp256",
            PublicKeyAlgorithm::Ed25519 => "ssh-ed25519",
            PublicKeyAlgorithm::Unknown(name) => cow_text(name),
        }
    }

    fn same(&self, other: &Self) -> (r: bool) {
        match (self, other) {
            (PublicKeyAlgorithm::EcdsaSha2Nistp256, PublicKeyAlgorithm::EcdsaSha2Nistp256) => true,
            (PublicKeyAlgorithm::Ed25519, PublicKeyAlgorithm::Ed25519) => true,
            (PublicKeyAlgorithm::Unknown(a), PublicKeyAlgorithm::Unknown(b)) => same_text(cow_text(a), cow_text(b)),
            _ => false,
        }
    }
}

/// Bulk/symmetric encryption algorithm names.
///
/// See <https://www.rfc-editor.org/rfc/rfc4253#section-6.3>.
#[derive(Debug, Eq, PartialEq)]
pub enum EncryptionAlgorithm<'a> {
    /// `aes128-gcm@openssh.com`: 128-bit AES in Galois/Counter Mode, as defined in
    /// <https://www.rfc-editor.org/rfc/rfc5647>.
    Aes128Gcm,
    /// An encryption algorithm not known to this implementation.
    Unknown(Cow<'a, str>),
}

/// What a [`EncryptionAlgorithm`] stands for.
pub enum EncryptionAlgorithmView {
    /// `aes128-gcm@openssh.com`
    Aes128Gcm,
    /// An encryption algorithm not known to this implementation.
    Unknown(Seq<char>),
}

impl View for EncryptionAlgorithm<'_> {
    type V = EncryptionAlgorithmView;

    open spec fn view(&self) -> EncryptionAlgorithmView {
        match *self {
            EncryptionAlgorithm::Aes128Gcm => EncryptionAlgorithmView::Aes128Gcm,
            EncryptionAlgorithm::Unknown(name) => EncryptionAlgorithmView::Unknown(cow_view(name)),
        }
    }
}

impl Clone for EncryptionAlgorithm<'_> {
    fn clone(&self) -> (r: Self)
        ensures
            r@ == self@,
    {
        match self {
            EncryptionAlgorithm::Aes128Gcm => EncryptionAlgorithm::Aes128Gcm,
            EncryptionAlgorithm::Unknown(Cow::Borrowed(name)) => EncryptionAlgorithm::Unknown(Cow::Borrowed(name)),
            EncryptionAlgorithm::Unknown(Cow::Owned(name)) => EncryptionAlgorithm::Unknown(Cow::Owned(name.clone())),
        }
    }
}

impl EncryptionAlgorithm<'_> {
    /// Copy any borrowed data so the value can outlive the input buffer.
    pub fn to_owned(&self) -> (r: EncryptionAlgorithm<'static>)
        ensures
            r@ == self@,
    {
        match self {
            EncryptionAlgorithm::Aes128Gcm => EncryptionAlgorithm::Aes128Gcm,
            EncryptionAlgorithm::Unknown(name) => EncryptionAlgorithm::Unknown(
                Cow::Owned(cow_text(name).to_owned()),
            ),
        }
    }

    /// The key and IV lengths this algorithm requires, if known.
    pub fn lengths(&self) -> (r: Option<KeyLengths>)
        ensures
            r == self@.key_lengths(),
    {
        match self {
            EncryptionAlgorithm::Aes128Gcm => Some(KeyLengths { key_len: 16, iv_len: 12 }),
            EncryptionAlgorithm::Unknown(_) => None,
        }
    }
}

impl EncryptionAlgorithmView {
    /// The key and IV lengths this algorithm requires, if known.
    pub open spec fn key_lengths(self) -> Option<KeyLengths> {
        match self {
            EncryptionAlgorithmView::Aes128Gcm => Some(KeyLengths { key_len: 16, iv_len: 12 }),
            EncryptionAlgorithmView::Unknown(_) => None,
        }
    }
}

impl<'a> Named<'a> for EncryptionAlgorithm<'a> {
    open spec fn spec_typed(name: Seq<char>) -> EncryptionAlgorithmView {
        if name == "aes128-gcm@openssh.com"@ {
            EncryptionAlgorithmView::Aes128Gcm
        } else {
            EncryptionAlgorithmView::Unknown(name)
        }
    }

    open spec fn spec_name(value: EncryptionAlgorithmView) -> Seq<char> {
        match value {
            EncryptionAlgorithmView::Aes128Gcm => "aes128-gcm@openssh.com"@,
            EncryptionAlgorithmView::Unknown(name) => name,
        }
    }

    proof fn name_of_typed(name: Seq<char>) {
    }

    fn typed(name: &'a str) -> (r: Self) {
        if same_text(name, "aes128-gcm@openssh.com") {
            EncryptionAlgorithm::Aes128Gcm
        } else {
            EncryptionAlgorithm::Unknown(Cow::Borrowed(name))
        }
    }

    fn name(&self) -> (r: &str) {
        match self {
            EncryptionAlgorithm::Aes128Gcm => "aes128-gcm@openssh.com",
            EncryptionAlgorithm::Unknown(name) => cow_text(name),
        }
    }

    fn same(&self, other: &Self) -> (r: bool) {
        match (self, other) {
            (EncryptionAlgorithm::Aes128Gcm, EncryptionAlgorithm::Aes128Gcm) => true,
            (EncryptionAlgorithm::Unknown(a), EncryptionAlgorithm::Unknown(b)) => same_text(cow_text(a), cow_text(b)),
            _ => false,
        }
    }
}

/// MAC algorithm names.
///
/// See <https://www.rfc-editor.org/rfc/rfc4253#section-6.4>.
#[derive(Clone, Copy, Debug, Eq, PartialEq)]
pub enum MacAlgorithm<'a> {
    /// `hmac-sha2-256`, as defined in <https://www.rfc-editor.org/rfc/rfc6668#section-2>.
    HmacSha2256,
    /// `none`, for AEAD ciphers that need no separate MAC.
    NoMac,
    /// A MAC algorithm not known to this implementation.
    Unknown(&'a str),
}

/// What a [`MacAlgorithm`] stands for.
pub enum MacAlgorithmView {
    /// `hmac-sha2-256`
    HmacSha2256,
    /// `none`
    NoMac,
    /// A MAC algorithm not known to this implementation.
    Unknown(Seq<char>),
}

impl View for MacAlgorithm<'_> {
    type V = MacAlgorithmView;

    open spec fn view(&self) -> MacAlgorithmView {
        match *self {
            MacAlgorithm::HmacSha2256 => MacAlgorithmView::HmacSha2256,
            MacAlgorithm::NoMac => MacAlgorithmView::NoMac,
            MacAlgorithm::Unknown(name) => MacAlgorithmView::Unknown(name@),
        }
    }
}

impl<'a> Named<'a> for MacAlgorithm<'a> {
    open spec fn spec_typed(name: Seq<char>) -> MacAlgorithmView {
        if name == "hmac-sha2-256"@ {
            MacAlgorithmView::HmacSha2256
        } else if name == "none"@ {
            MacAlgorithmView::NoMac
        } else {
            MacAlgorithmView::Unknown(name)
        }
    }

    open spec fn spec_name(value: MacAlgorithmView) -> Seq<char> {
        match value {
            MacAlgorithmView::HmacSha2256 => "hmac-sha2-256"@,
            MacAlgorithmView::NoMac => "none"@,
            MacAlgorithmView::Unknown(name) => name,
        }
    }

    proof fn name_of_typed(name: Seq<char>) {
    }

    fn typed(name: &'a str) -> (r: Self) {
        if same_text(name, "hmac-sha2-256") {
            MacAlgorithm::HmacSha2256
        } else if same_text(name, "none") {
            MacAlgorithm::NoMac
        } else {
            MacAlgorithm::Unknown(name)
        }
    }

    fn name(&self) -> (r: &str) {
        match self {
            MacAlgorithm::HmacSha2256 => "hmac-sha2-256",
            MacAlgorithm::NoMac => "none",
            MacAlgorithm::Unknown(name) => name,
        }
    }

    fn same(&self, other: &Self) -> (r: bool) {
        match (self, other) {
            (MacAlgorithm::HmacSha2256, MacAlgorithm::HmacSha2256) => true,
            (MacAlgorithm::NoMac, MacAlgorithm::NoMac) => true,
            (MacAlgorithm::Unknown(a), MacAlgorithm::Unknown(b)) => same_text(a, b),
            _ => false,
        }
    }
}

/// Compression algorithm names.
///
/// See <https://www.rfc-editor.org/rfc/rfc4253#section-6.2>.
#[derive(Clone, Copy, Debug, Eq, PartialEq)]
pub enum CompressionAlgorithm<'a> {
    /// `none`, no compression.
    NoCompression,
    /// A compression algorithm not known to this implementation.
    Unknown(&'a str),
}

/// What a [`CompressionAlgorithm`] stands for.
pub enum CompressionAlgorithmView {
    /// `none`
    NoCompression,
    /// A compression algorithm not known to this implementation.
    Unknown(Seq<char>),
}

impl View for CompressionAlgorithm<'_> {
    type V = CompressionAlgorithmView;

    open spec fn view(&self) -> CompressionAlgorithmView {
        match *self {
            CompressionAlgorithm::NoCompression => CompressionAlgorithmView::NoCompression,
            CompressionAlgorithm::Unknown(name) => CompressionAlgorithmView::Unknown(name@),
        }
    }
}

impl<'a> Named<'a> for CompressionAlgorithm<'a> {
    open spec fn spec_typed(name: Seq<char>) -> CompressionAlgorithmView {
        if name == "none"@ {
            CompressionAlgorithmView::NoCompression
        } else {
            CompressionAlgorithmView::Unknown(name)
        }
    }

    open spec fn spec_name(value: CompressionAlgorithmView) -> Seq<char> {
        match value {
            CompressionAlgorithmView::NoCompression => "none"@,
            CompressionAlgorithmView::Unknown(name) => name,
        }
    }

    proof fn name_of_typed(name: Seq<char>) {
    }

    fn typed(name: &'a str) -> (r: Self) {
        if same_text(name, "none") {
            CompressionAlgorithm::NoCompression
        } else {
            CompressionAlgorithm::Unknown(name)
        }
    }

    fn name(&self) -> (r: &str) {
        match self {
            CompressionAlgorithm::NoCompression => "none",
            CompressionAlgorithm::Unknown(name) => name,
        }
    }

    fn same(&self, other: &Self) -> (r: bool) {
        match (self, other) {
            (CompressionAlgorithm::NoCompression, CompressionAlgorithm::NoCompression) => true,
            (CompressionAlgorithm::Unknown(a), CompressionAlgorithm::Unknown(b)) => same_text(a, b),
            _ => false,
        }
    }
}

/// Language tags.
///
/// See <https://www.rfc-editor.org/rfc/rfc4253#section-7.1>.
#[derive(Clone, Copy, Debug, Eq, PartialEq)]
pub enum Language<'a> {
    /// A language tag; none has a meaning to this implementation.
    Unknown(&'a str),
}

/// What a [`Language`] stands for.
pub enum LanguageView {
    /// A language tag; none has a meaning to this implementation.
    Unknown(Seq<char>),
}

impl View for Language<'_> {
    type V = LanguageView;

    open spec fn view(&self) -> LanguageView {
        match *self {
            Language::Unknown(name) => LanguageView::Unknown(name@),
        }
    }
}

impl<'a> Named<'a> for Language<'a> {
    open spec fn spec_typed(name: Seq<char>) -> LanguageView {
        LanguageView::Unknown(name)
    }

    open spec fn spec_name(value: LanguageView) -> Seq<char> {
        match value {
            LanguageView::Unknown(name) => name,
        }
    }

    proof fn name_of_typed(name: Seq<char>) {
    }

    fn typed(name: &'a str) -> (r: Self) {
        Language::Unknown(name)
    }

    fn name(&self) -> (r: &str) {
        match self {
            Language::Unknown(name) => name,
        }
    }

    fn same(&self, other: &Self) -> (r: bool) {
        match (self, other) {
            (Language::Unknown(a), Language::Unknown(b)) => same_text(a, b),
        }
    }
}

/// A key exchange algorithm, or an extension marker listed among them.
#[derive(Clone, Copy, Debug, Eq, PartialEq)]
pub enum KeyExchangeAlgorithmOrExtensionId<'a> {
    /// A key exchange algorithm, known or not.
    KeyExchange(KeyExchangeAlgorithm<'a>),
    /// A known extension marker.
    Extension(ExtensionId<'a>),
}

/// What a [`KeyExchangeAlgorithmOrExtensionId`] stands for.
pub enum KeyExchangeAlgorithmOrExtensionIdView {
    /// A key exchange algorithm, known or not.
    KeyExchange(KeyExchangeAlgorithmView),
    /// A known extension marker.
    Extension(ExtensionIdView),
}

impl View for KeyExchangeAlgorithmOrExtensionId<'_> {
    type V = KeyExchangeAlgorithmOrExtensionIdView;

    open spec fn view(&self) -> KeyExchangeAlgorithmOrExtensionIdView {
        match *self {
            KeyExchangeAlgorithmOrExtensionId::KeyExchange(key_exchange) =>
                KeyExchangeAlgorithmOrExtensionIdView::KeyExchange(key_exchange@),
            KeyExchangeAlgorithmOrExtensionId::Extension(extension) =>
                KeyExchangeAlgorithmOrExtensionIdView::Extension(extension@),
        }
    }
}

impl<'a> Named<'a> for KeyExchangeAlgorithmOrExtensionId<'a> {
    open spec fn spec_typed(name: Seq<char>) -> KeyExchangeAlgorithmOrExtensionIdView {
        match (KeyExchangeAlgorithm::spec_typed(name), ExtensionId::spec_typed(name)) {
            (KeyExchangeAlgorithmView::Unknown(_), ExtensionIdView::Unknown(_)) =>
                KeyExchangeAlgorithmOrExtensionIdView::KeyExchange(
                KeyExchangeAlgorithmView::Unknown(name),
            ),
            (KeyExchangeAlgorithmView::Unknown(_), extension) =>
                KeyExchangeAlgorithmOrExtensionIdView::Extension(extension),
            (key_exchange, _) => KeyExchangeAlgorithmOrExtensionIdView::KeyExchange(key_exchange),
        }
    }

    open spec fn spec_name(value: KeyExchangeAlgorithmOrExtensionIdView) -> Seq<char> {
        match value {
            KeyExchangeAlgorithmOrExtensionIdView::KeyExchange(key_exchange) =>
                KeyExchangeAlgorithm::spec_name(key_exchange),
            KeyExchangeAlgorithmOrExtensionIdView::Extension(extension) => ExtensionId::spec_name(
                extension,
            ),
        }
    }

    proof fn name_of_typed(name: Seq<char>) {
    }

    fn typed(name: &'a str) -> (r: Self) {
        match KeyExchangeAlgorithm::typed(name) {
            KeyExchangeAlgorithm::Unknown(_) => {},
            key_exchange => return KeyExchangeAlgorithmOrExtensionId::KeyExchange(key_exchange),
        }

        match ExtensionId::typed(name) {
            ExtensionId::Unknown(_) => KeyExchangeAlgorithmOrExtensionId::KeyExchange(
                KeyExchangeAlgorithm::Unknown(name),
            ),
            extension => KeyExchangeAlgorithmOrExtensionId::Extension(extension),
        }
    }

    fn name(&self) -> (r: &str) {
        match self {
            KeyExchangeAlgorithmOrExtensionId::KeyExchange(key_exchange) => key_exchange.name(),
            KeyExchangeAlgorithmOrExtensionId::Extension(extension) => extension.name(),
        }
    }

    fn same(&self, other: &Self) -> (r: bool) {
        match (self, other) {
            (
                KeyExchangeAlgorithmOrExtensionId::KeyExchange(a),
                KeyExchangeAlgorithmOrExtensionId::KeyExchange(b),
            ) => a.same(b),
            (
                KeyExchangeAlgorithmOrExtensionId::Extension(a),
                KeyExchangeAlgorithmOrExtensionId::Extension(b),
            ) => a.same(b),
            _ => false,
        }
    }
}

/// What decoding a name gives.
pub open spec fn parse_name<'a, T: Named<'a>>(bytes: Seq<u8>) -> Parsed<T::V> {
    match parse_string(bytes) {
        Err(e) => Err(e),
        Ok((name, rest)) => if valid_utf8(name) {
            Ok((T::spec_typed(decode_utf8(name)), rest))
        } else {
            Err(ProtoError::InvalidPacket("invalid UTF-8 in named value"))
        },
    }
}

/// The `string` with the name of a value.
pub open spec fn name_wire<'a, T: Named<'a>>(value: T::V) -> Seq<u8> {
    text_wire(T::spec_name(value))
}

impl<'a, T: Named<'a>> Decode<'a> for T {
    type Model = T::V;

    open spec fn model(&self) -> T::V {
        self@
    }

    open spec fn parse(bytes: Seq<u8>) -> Parsed<T::V> {
        parse_name::<T>(bytes)
    }

    fn decode(bytes: &'a [u8]) -> (r: Result<Decoded<'a, Self>, ProtoError>) {
        let Decoded { value, next } = <&[u8]>::decode(bytes)?;
        let Some(name) = from_utf8(value) else {
            return Err(ProtoError::InvalidPacket("invalid UTF-8 in named value"));
        };

        Ok(Decoded { value: T::typed(name), next })
    }
}

impl<'a, T: Named<'a>> Encode for T {
    open spec fn wire(&self) -> Seq<u8> {
        name_wire::<T>(self@)
    }

    fn encode(&self, buf: &mut Vec<u8>) {
        put_string(buf, self.name());
    }
}

/// A name that fits its length field is read back as it was written, whatever follows it: what
/// is read has the same name.
pub proof fn name_round_trip<'a, T: Named<'a>>(value: T::V, rest: Seq<u8>)
    requires
        encode_utf8(T::spec_name(value)).len() <= u32::MAX,
    ensures
        parse_name::<T>(name_wire::<T>(value) + rest) == Ok::<(T::V, Seq<u8>), ProtoError>(
            (T::spec_typed(T::spec_name(value)), rest),
        ),
        T::spec_name(T::spec_typed(T::spec_name(value))) == T::spec_name(value),
{
    text_round_trip(T::spec_name(value), rest);
    T::name_of_typed(T::spec_name(value));
}

/// What was read of a name and what is left make up the input.
pub proof fn lemma_parse_name_len<'a, T: Named<'a>>(bytes: Seq<u8>)
    ensures
        parse_name::<T>(bytes) matches Ok((value, rest)) ==> name_wire::<T>(value).len()
            + rest.len() == bytes.len(),
{
    crate::wire::lemma_parse_string_len(bytes);
    if let Ok((value, rest)) = parse_name::<T>(bytes) {
        let name = parse_string(bytes)->Ok_0.0;
        T::name_of_typed(decode_utf8(name));
        vstd::utf8::decode_utf8_encode_utf8(name);
        crate::wire::lemma_string_len(name);
    }
}

/// The parts of `list` between commas, where the part that starts at `start` holds no comma
/// before `i`.
pub open spec fn between_commas(list: Seq<u8>, start: int, i: int) -> Seq<Seq<u8>>
    decreases list.len() - i,
{
    if i >= list.len() {
        seq![list.skip(start)]
    } else if list[i] == 44 {
        seq![list.subrange(start, i)] + between_commas(list, i + 1, i + 1)
    } else {
        between_commas(list, start, i + 1)
    }
}

/// The names in the contents of a name list.
pub open spec fn names_in(list: Seq<u8>) -> Seq<Seq<u8>> {
    if list.len() == 0 {
        Seq::empty()
    } else {
        between_commas(list, 0, 0)
    }
}

/// The names with commas between them.
pub open spec fn with_commas(names: Seq<Seq<u8>>) -> Seq<u8>
    decreases names.len(),
{
    if names.len() == 0 {
        Seq::empty()
    } else if names.len() == 1 {
        names[0]
    } else {
        with_commas(names.drop_last()) + seq![44u8] + names.last()
    }
}

/// A name list as it was received.
pub struct IncomingNameList<T>(pub Vec<T>);

/// What a sequence of values stands for.
pub open spec fn views<T: View>(values: Seq<T>) -> Seq<T::V> {
    values.map_values(|value: T| value@)
}

/// The values that the encoded names stand for.
pub open spec fn typed_names<'a, T: Named<'a>>(names: Seq<Seq<u8>>) -> Seq<T::V> {
    names.map_values(|name: Seq<u8>| T::spec_typed(decode_utf8(name)))
}

/// The encoded names of values.
pub open spec fn encoded_names<'a, T: Named<'a>>(values: Seq<T::V>) -> Seq<Seq<u8>> {
    values.map_values(|value: T::V| encode_utf8(T::spec_name(value)))
}

/// What decoding a name list gives.
#[verifier::opaque]
pub open spec fn parse_names<'a, T: Named<'a>>(bytes: Seq<u8>) -> Parsed<Seq<T::V>> {
    match parse_string(bytes) {
        Err(e) => Err(e),
        Ok((list, rest)) => if forall|i: int|
            0 <= i < names_in(list).len() ==> valid_utf8(#[trigger] names_in(list)[i]) {
            Ok((typed_names::<T>(names_in(list)), rest))
        } else {
            Err(ProtoError::InvalidPacket("invalid name"))
        },
    }
}

/// A name list with the names of values.
#[verifier::opaque]
pub open spec fn names_wire<'a, T: Named<'a>>(values: Seq<T::V>) -> Seq<u8> {
    string_wire(with_commas(encoded_names::<T>(values)))
}

impl<'a, T: Named<'a>> Decode<'a> for IncomingNameList<T> {
    type Model = Seq<T::V>;

    open spec fn model(&self) -> Seq<T::V> {
        views(self.0@)
    }

    open spec fn parse(bytes: Seq<u8>) -> Parsed<Seq<T::V>> {
        parse_names::<T>(bytes)
    }

    fn decode(bytes: &'a [u8]) -> (r: Result<Decoded<'a, Self>, ProtoError>) {
        proof {
            reveal(parse_names);
        }
        let Decoded { value: list, next } = <&[u8]>::decode(bytes)?;

        let mut value: Vec<T> = Vec::new();
        if list.len() == 0 {
            assert(views(value@) =~= typed_names::<T>(names_in(list@)));
            return Ok(Decoded { value: IncomingNameList(value), next });
        }
        let ghost mut done: Seq<Seq<u8>> = Seq::empty();
        let mut start: usize = 0;
        let mut i: usize = 0;
        assert(done + between_commas(list@, 0, 0) =~= names_in(list@));
        while i < list.len()
            invariant
                list@.len() > 0,
                start <= i <= list@.len(),
                names_in(list@) == done + between_commas(list@, start as int, i as int),
                forall|j: int| 0 <= j < done.len() ==> valid_utf8(#[trigger] done[j]),
                views(value@) == typed_names::<T>(done),
                parse_string(bytes@) == Ok::<(Seq<u8>, Seq<u8>), ProtoError>((list@, next@)),
            decreases list@.len() - i,
        {
            if list[i] == 44 {
                let part = slice_subrange(list, start, i);
                let ghost rest = between_commas(list@, i + 1, i + 1);
                assert(done + (seq![part@] + rest) =~= done.push(part@) + rest);
                assert(names_in(list@)[done.len() as int] == part@);
                let Some(name) = from_utf8(part) else {
                    proof {
                        reveal(parse_names);
                    }
                    return Err(ProtoError::InvalidPacket("invalid name"));
                };
                let ghost before = value@;
                value.push(T::typed(name));
                proof {
                    lemma_push_name(before, value@.last(), done, part@);
                    done = done.push(part@);
                }
                start = i + 1;
            }
            i += 1;
        }
        let part = slice_subrange(list, start, list.len());
        assert(part@ =~= list@.skip(start as int));
        assert(names_in(list@) == done + seq![part@]);
        assert(names_in(list@)[done.len() as int] == part@);
        let Some(name) = from_utf8(part) else {
            return Err(ProtoError::InvalidPacket("invalid name"));
        };
        let ghost before = value@;
        value.push(T::typed(name));
        proof {
            lemma_push_name(before, value@.last(), done, part@);
            assert(done.push(part@) =~= done + seq![part@]);
        }
        Ok(Decoded { value: IncomingNameList(value), next })
    }
}

proof fn lemma_push_name<'a, T: Named<'a>>(
    values: Seq<T>,
    value: T,
    names: Seq<Seq<u8>>,
    name: Seq<u8>,
)
    requires
        views(values) == typed_names::<T>(names),
        value@ == T::spec_typed(decode_utf8(name)),
    ensures
        views(values.push(value)) == typed_names::<T>(names.push(name)),
{
    assert(views(values.push(value)) =~= views(values).push(value@));
    assert(typed_names::<T>(names.push(name)) =~= typed_names::<T>(names).push(value@));
}

/// A name list to be sent.
#[derive(Debug)]
pub struct OutgoingNameList<'a, T>(pub &'a [T]);

impl<'a, T: Named<'a>> Encode for OutgoingNameList<'_, T> {
    open spec fn wire(&self) -> Seq<u8> {
        names_wire::<T>(views(self.0@))
    }

    fn encode(&self, buf: &mut Vec<u8>) {
        proof {
            reveal(names_wire);
        }
        let names = self.0;
        let mut list: Vec<u8> = Vec::new();
        let ghost all = encoded_names::<T>(views(names@));
        let mut i: usize = 0;
        while i < names.len()
            invariant
                i <= names@.len(),
                all == encoded_names::<T>(views(names@)),
                list@ == with_commas(all.take(i as int)),
            decreases names@.len() - i,
        {
            if i > 0 {
                list.push(44);
            }
            put(&mut list, names[i].name().as_bytes());
            assert(all.take(i + 1).drop_last() =~= all.take(i as int));
            assert(list@ =~= with_commas(all.take(i + 1)));
            i += 1;
        }
        assert(all.take(i as int) =~= all);
        list.as_slice().encode(buf);
    }
}

proof fn lemma_between_commas(name: Seq<u8>, before: Seq<u8>, after: Seq<u8>, i: int)
    requires
        !name.contains(44),
        before.len() <= i <= before.len() + name.len(),
        after.len() > 0 ==> after[0] == 44,
    ensures
        between_commas(before + name + after, before.len() as int, i) == if after.len() == 0 {
            seq![name]
        } else {
            seq![name] + between_commas(
                before + name + after,
                before.len() as int + name.len() + 1,
                before.len() as int + name.len() + 1,
            )
        },
    decreases before.len() + name.len() - i,
{
    let all = before + name + after;
    if i < before.len() + name.len() {
        assert(all[i] == name[i - before.len()]);
        lemma_between_commas(name, before, after, i + 1);
    } else if after.len() == 0 {
        assert(all.skip(before.len() as int) =~= name);
    } else {
        assert(all[i] == 44);
        assert(all.subrange(before.len() as int, i) =~= name);
    }
}

/// The names before `n`, each with a comma behind it.
spec fn ended(names: Seq<Seq<u8>>, n: int) -> Seq<u8>
    decreases n,
{
    if n <= 0 {
        Seq::empty()
    } else {
        ended(names, n - 1) + names[n - 1] + seq![44u8]
    }
}

proof fn lemma_ended(names: Seq<Seq<u8>>)
    requires
        names.len() > 0,
    ensures
        with_commas(names) == ended(names, names.len() - 1) + names.last(),
    decreases names.len(),
{
    if names.len() == 1 {
        assert(ended(names, 0) + names.last() =~= names[0]);
    } else {
        let front = names.drop_last();
        lemma_ended(front);
        lemma_ended_same(front, names, names.len() - 2);
        let n = names.len() - 2;
        assert(with_commas(names) =~= ended(names, n) + names[n] + seq![44u8] + names.last());
    }
}

proof fn lemma_ended_same(a: Seq<Seq<u8>>, b: Seq<Seq<u8>>, n: int)
    requires
        0 <= n <= a.len(),
        n <= b.len(),
        forall|i: int| 0 <= i < n ==> a[i] == b[i],
    ensures
        ended(a, n) == ended(b, n),
    decreases n,
{
    if n > 0 {
        lemma_ended_same(a, b, n - 1);
    }
}

proof fn lemma_names_in(names: Seq<Seq<u8>>, n: int)
    requires
        names.len() > 0,
        0 <= n < names.len(),
        forall|i: int| 0 <= i < names.len() ==> !(#[trigger] names[i]).contains(44),
    ensures
        ended(names, n).len() <= with_commas(names).len(),
        with_commas(names).take(ended(names, n).len() as int) == ended(names, n),
        between_commas(
            with_commas(names),
            ended(names, n).len() as int,
            ended(names, n).len() as int,
        ) == names.skip(n),
    decreases names.len() - n,
{
    let all = with_commas(names);
    let before = ended(names, n);
    lemma_ended(names);
    if n == names.len() - 1 {
        assert(before + names[n] + Seq::<u8>::empty() =~= all);
        assert(all.take(before.len() as int) =~= before);
        lemma_between_commas(names[n], before, Seq::empty(), before.len() as int);
        assert(names.skip(n) =~= seq![names[n]]);
    } else {
        lemma_names_in(names, n + 1);
        let next = ended(names, n + 1);
        let after = seq![44u8] + all.skip(next.len() as int);
        assert(all =~= next + all.skip(next.len() as int));
        assert(all =~= before + names[n] + after);
        assert(all.take(before.len() as int) =~= before);
        lemma_between_commas(names[n], before, after, before.len() as int);
        assert(names.skip(n) =~= seq![names[n]] + names.skip(n + 1));
    }
}

/// A name list is read back name by name, whatever follows it.
///
/// No name may hold a comma, which would split it, and a list of one empty name is read back as
/// the empty list.
pub proof fn name_list_round_trip<'a, T: Named<'a>>(values: Seq<T::V>, rest: Seq<u8>)
    requires
        with_commas(encoded_names::<T>(values)).len() <= u32::MAX,
        forall|i: int|
            0 <= i < values.len() ==> !(#[trigger] T::spec_name(values[i])).contains(','),
        !(values.len() == 1 && T::spec_name(values[0]).len() == 0),
    ensures
        parse_names::<T>(names_wire::<T>(values) + rest) == Ok::<(Seq<T::V>, Seq<u8>), ProtoError>(
            (values.map_values(|value: T::V| T::spec_typed(T::spec_name(value))), rest),
        ),
{
    reveal(parse_names);
    reveal(names_wire);
    let names = encoded_names::<T>(values);
    let list = with_commas(names);
    string_round_trip(list, rest);
    assert forall|i: int| 0 <= i < names.len() implies !(#[trigger] names[i]).contains(44)
        && valid_utf8(names[i]) && decode_utf8(names[i]) == T::spec_name(values[i]) by {
        let name = T::spec_name(values[i]);
        lemma_no_comma(name);
        vstd::utf8::encode_utf8_valid_utf8(name);
        vstd::utf8::encode_utf8_decode_utf8(name);
    }
    if names.len() > 0 {
        lemma_names_in(names, 0);
        assert(names.skip(0) =~= names);
        if list.len() == 0 {
            lemma_ended(names);
            if names.len() > 1 {
                let n = names.len() - 1;
                assert(ended(names, n).len() > 0);
            }
            assert(names.len() == 1 && names[0].len() == 0);
            lemma_encoded_empty(T::spec_name(values[0]));
        }
        assert(names_in(list) == names);
    } else {
        assert(list =~= Seq::empty());
        assert(names_in(list) =~= names);
    }
    assert(typed_names::<T>(names) =~= values.map_values(
        |value: T::V| T::spec_typed(T::spec_name(value)),
    ));
}

proof fn lemma_encoded_empty(text: Seq<char>)
    requires
        encode_utf8(text).len() == 0,
    ensures
        text.len() == 0,
{
    vstd::utf8::encode_utf8_decode_utf8(text);
    assert(encode_utf8(text) =~= Seq::empty());
}

/// A comma is encoded as one byte, and no other character's encoding holds that byte.
proof fn lemma_no_comma(text: Seq<char>)
    requires
        !text.contains(','),
    ensures
        !encode_utf8(text).contains(44),
    decreases text.len(),
{
    if text.len() > 0 {
        let first = text[0];
        let rest = text.drop_first();
        assert(text.contains(first));
        assert forall|c: char| rest.contains(c) implies text.contains(c) by {
            let i = choose|i: int| 0 <= i < rest.len() && rest[i] == c;
            assert(text[i + 1] == c);
        }
        lemma_no_comma(rest);
        lemma_scalar_no_comma(first);
        let a = vstd::utf8::encode_scalar(first as u32);
        let b = encode_utf8(rest);
        assert(encode_utf8(text) == a + b);
        assert forall|i: int| 0 <= i < (a + b).len() implies (a + b)[i] != 44 by {
            if i < a.len() {
                assert(a.contains(a[i]));
            } else {
                assert(b.contains(b[i - a.len()]));
            }
        }
    }
}

proof fn lemma_scalar_no_comma(c: char)
    requires
        c != ',',
    ensures
        !vstd::utf8::encode_scalar(c as u32).contains(44),
{
    let s = c as u32;
    vstd::utf8::char_is_scalar(c);
    assert(s != 44);
    if s < 0x80 {
        assert((s & 0x7F) as u8 == s) by (bit_vector)
            requires
                s < 0x80,
        ;
    }
    assert(0x80u8 | ((s & 0x3F) as u8) >= 0x80) by (bit_vector);
    assert(0x80u8 | (((s >> 6) & 0x3F) as u8) >= 0x80) by (bit_vector);
    assert(0x80u8 | (((s >> 12) & 0x3F) as u8) >= 0x80) by (bit_vector);
    assert(0xC0u8 | (((s >> 6) & 0x1F) as u8) >= 0x80) by (bit_vector);
    assert(0xE0u8 | (((s >> 12) & 0x0F) as u8) >= 0x80) by (bit_vector);
    assert(0xF0u8 | (((s >> 18) & 0x07) as u8) >= 0x80) by (bit_vector);
}

} // verus!
