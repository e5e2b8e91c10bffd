//! User authentication protocol messages (RFC 4252).

use std::borrow::Cow;

use vstd::prelude::*;
use vstd::utf8::{decode_utf8, encode_utf8, valid_utf8};

use crate::error::ProtoError;
use crate::key_exchange::{cow_bytes, cow_bytes_view, mpint, mpint_wire, signature_blob, stripped};
use crate::named::{name_round_trip, name_wire, names_wire, parse_name, views, MethodName};
use crate::named::{MethodNameView, Named, OutgoingNameList, PublicKeyAlgorithm};
use crate::named::{PublicKeyAlgorithmView, ServiceName, ServiceNameView};
use crate::packet::{type_wire, unexpected, IncomingPacket, MessageType};
use crate::text::from_utf8;
use crate::wire::{bool_wire, parse_bool, parse_string, put_string, string_round_trip};
use crate::wire::{string_wire, text_wire, Decode, Decoded, Encode, Parsed};

verus! {

/// A signature over the [`SignatureData`] in a `publickey` authentication request.
///
/// See <https://www.rfc-editor.org/rfc/rfc4252#section-7>.
#[derive(Debug)]
pub struct Signature<'a> {
    /// The public key algorithm used to produce the signature.
    pub algorithm: PublicKeyAlgorithm<'a>,
    /// The raw signature bytes.
    pub signature_blob: &'a [u8],
}

/// What a [`Signature`] holds.
pub struct SignatureView {
    /// The public key algorithm used to produce the signature.
    pub algorithm: PublicKeyAlgorithmView,
    /// The raw signature bytes.
    pub signature_blob: Seq<u8>,
}

impl View for Signature<'_> {
    type V = SignatureView;

    open spec fn view(&self) -> SignatureView {
        SignatureView { algorithm: self.algorithm@, signature_blob: self.signature_blob@ }
    }
}

/// What decoding a signature gives.
pub open spec fn parse_signature(input: Seq<u8>) -> Parsed<SignatureView> {
    match parse_string(input) {
        Err(e) => Err(e),
        Ok((data, next)) => if next.len() != 0 {
            Err(ProtoError::InvalidPacket("extra data in signature data"))
        } else {
            match parse_name::<PublicKeyAlgorithm>(data) {
                Err(e) => Err(e),
                Ok((algorithm, next)) => match parse_string(next) {
                    Err(e) => Err(e),
                    Ok((blob, next)) => if next.len() != 0 {
                        Err(ProtoError::InvalidPacket("extra data in signature blob"))
                    } else {
                        Ok((SignatureView { algorithm, signature_blob: blob }, next))
                    },
                },
            }
        },
    }
}

impl<'a> Decode<'a> for Signature<'a> {
    type Model = SignatureView;

    open spec fn model(&self) -> SignatureView {
        self@
    }

    open spec fn parse(bytes: Seq<u8>) -> Parsed<SignatureView> {
        parse_signature(bytes)
    }

    fn decode(input: &'a [u8]) -> (r: Result<Decoded<'a, Self>, ProtoError>) {
        let Decoded { value: input, next } = <&[u8]>::decode(input)?;
        if next.len() != 0 {
            return Err(ProtoError::InvalidPacket("extra data in signature data"));
        }
        let Decoded { value: algorithm, next } = PublicKeyAlgorithm::decode(input)?;

        let Decoded { value: signature_blob, next } = <&[u8]>::decode(next)?;

        if next.len() != 0 {
            return Err(ProtoError::InvalidPacket("extra data in signature blob"));
        }
        Ok(Decoded { value: Signature { algorithm, signature_blob }, next })
    }
}

/// The digits of the value that an mpint holds: the padding byte is left out, where there is one.
pub open spec fn mpint_digits(mpint: Seq<u8>) -> Seq<u8> {
    if mpint.len() > 1 && mpint[0] == 0 {
        mpint.skip(1)
    } else {
        mpint
    }
}

/// `len` zero bytes.
pub open spec fn zeros(len: int) -> Seq<u8> {
    Seq::new(len as nat, |i: int| 0u8)
}

/// The value that an mpint holds in `len` bytes, if it fits.
pub open spec fn fixed(mpint: Seq<u8>, len: int) -> Option<Seq<u8>> {
    let digits = mpint_digits(mpint);
    if digits.len() > len {
        None
    } else {
        Some(zeros(len - digits.len()) + digits)
    }
}

/// Convert an SSH mpint to a fixed-width big-endian representation.
///
/// The digits are written to the end of `out`; what lies before them stays.
pub fn mpint_to_fixed(mpint: &[u8], out: &mut [u8]) -> (r: Option<()>)
    ensures
        r is Some == (mpint_digits(mpint@).len() <= old(out)@.len()),
        final(out)@ == if r is Some {
            old(out)@.take(old(out)@.len() - mpint_digits(mpint@).len()) + mpint_digits(mpint@)
        } else {
            old(out)@
        },
{
    let skipped: usize = if mpint.len() > 1 && mpint[0] == 0 {
        1
    } else {
        0
    };
    let data = vstd::slice::slice_subrange(mpint, skipped, mpint.len());
    assert(data@ =~= mpint_digits(mpint@));

    if data.len() > out.len() {
        return None;
    }
    let offset: usize = out.len() - data.len();
    let mut i: usize = 0;
    while i < data.len()
        invariant
            i <= data@.len(),
            out@.len() == old(out)@.len(),
            offset == old(out)@.len() - data@.len(),
            out@ =~= old(out)@.take(offset as int) + data@.take(i as int) + old(out)@.skip(
                offset + i,
            ),
            offset + data@.len() <= usize::MAX,
        decreases data@.len() - i,
    {
        out[offset + i] = data[i];
        i += 1;
    }
    assert(out@ =~= old(out)@.take(offset as int) + data@);
    Some(())
}

/// A value of fixed width is read back from its mpint.
pub proof fn mpint_round_trip(value: Seq<u8>)
    ensures
        fixed(mpint(value), value.len() as int) == Some(value),
{
    lemma_stripped(value);
    let digits = stripped(value);
    let n = value.len() - digits.len();
    assert(value =~= zeros(n) + digits);
    if digits.len() > 0 && digits[0] >= 0x80 {
        assert((seq![0u8] + digits).skip(1) =~= digits);
    }
}

proof fn lemma_stripped(value: Seq<u8>)
    ensures
        stripped(value).len() <= value.len(),
        value == zeros(value.len() - stripped(value).len()) + stripped(value),
        stripped(value).len() > 0 ==> stripped(value)[0] != 0,
    decreases value.len(),
{
    if value.len() > 0 && value[0] == 0 {
        let rest = value.skip(1);
        lemma_stripped(rest);
        assert(value =~= seq![0u8] + rest);
        assert(zeros(value.len() - stripped(value).len()) =~= seq![0u8] + zeros(
            rest.len() - stripped(rest).len(),
        ));
        assert(value =~= zeros(value.len() - stripped(value).len()) + stripped(value));
    } else {
        assert(value =~= zeros(0) + value);
    }
}

/// Encoded signature for public key authentication.
///
/// Constructed by [`Signature::encode()`].
pub struct EncodedSignature(Vec<u8>);

impl View for EncodedSignature {
    type V = Seq<u8>;

    closed spec fn view(&self) -> Seq<u8> {
        self.0@
    }
}

impl EncodedSignature {
    /// The bytes of the signature.
    pub fn as_bytes(&self) -> (r: &[u8])
        ensures
            r@ == self@,
    {
        self.0.as_slice()
    }
}

impl SignatureView {
    /// The signature in the form in which it is verified.
    pub open spec fn encoded(self) -> Result<Seq<u8>, ProtoError> {
        match self.algorithm {
            PublicKeyAlgorithmView::EcdsaSha2Nistp256 => match parse_string(self.signature_blob) {
                Err(e) => Err(e),
                Ok((r, rest)) => match parse_string(rest) {
                    Err(e) => Err(e),
                    Ok((s, next)) => if next.len() != 0 {
                        Err(
                            ProtoError::InvalidPacket("extra data after ECDSA signature components"),
                        )
                    } else {
                        match (fixed(r, 32), fixed(s, 32)) {
                            (None, _) => Err(
                                ProtoError::InvalidPacket("failure to decode r in ECDSA signature"),
                            ),
                            (_, None) => Err(
                                ProtoError::InvalidPacket("failure to decode s in ECDSA signature"),
                            ),
                            (Some(r), Some(s)) => Ok(r + s),
                        }
                    },
                },
            },
            PublicKeyAlgorithmView::Ed25519 => Ok(self.signature_blob),
            PublicKeyAlgorithmView::Unknown(_) => Err(
                ProtoError::InvalidPacket("unsupported public key algorithm for verification"),
            ),
        }
    }
}

impl Signature<'_> {
    /// Encode the signature for verification.
    pub fn encode(self) -> (r: Result<EncodedSignature, ProtoError>)
        ensures
            self@.encoded() == match r {
                Ok(signature) => Ok::<Seq<u8>, ProtoError>(signature@),
                Err(e) => Err::<Seq<u8>, ProtoError>(e),
            },
    {
        Ok(
            EncodedSignature(
                match &self.algorithm {
                    PublicKeyAlgorithm::EcdsaSha2Nistp256 => {
                        let Decoded { value: r, next: rest } = <&[u8]>::decode(self.signature_blob)?;

                        let Decoded { value: s, next } = <&[u8]>::decode(rest)?;
                        if next.len() != 0 {
                            return Err(
                                ProtoError::InvalidPacket(
                                    "extra data after ECDSA signature components",
                                ),
                            );
                        }
                        let mut fixed: Vec<u8> = vec![0; 64];
                        let (r_out, s_out) = fixed.as_mut_slice().split_at_mut(32);
                        assert(r_out@ =~= zeros(32));
                        assert(s_out@ =~= zeros(32));
                        if mpint_to_fixed(r, r_out).is_none() {
                            return Err(
                                ProtoError::InvalidPacket("failure to decode r in ECDSA signature"),
                            );
                        }
                        if mpint_to_fixed(s, s_out).is_none() {
                            return Err(
                                ProtoError::InvalidPacket("failure to decode s in ECDSA signature"),
                            );
                        }
                        proof {
                            let r_len = mpint_digits(r@).len();
                            let s_len = mpint_digits(s@).len();
                            assert(zeros(32).take(32 - r_len) =~= zeros(32 - r_len));
                            assert(zeros(32).take(32 - s_len) =~= zeros(32 - s_len));
                        }
                        fixed
                    },
                    PublicKeyAlgorithm::Ed25519 => crate::crypto::copied(self.signature_blob),
                    _ => {
                        return Err(
                            ProtoError::InvalidPacket(
                                "unsupported public key algorithm for verification",
                            ),
                        );
                    },
                },
            ),
        )
    }
}

/// A signature that one side tags and sends is the one that the other side verifies. An ECDSA
/// signature has two halves of 32 bytes, and any other fits its length field.
pub proof fn signature_round_trip(algorithm: PublicKeyAlgorithmView, signature: Seq<u8>)
    requires
        !(algorithm is Unknown),
        algorithm is EcdsaSha2Nistp256 ==> signature.len() == 64,
        signature_blob(algorithm, signature).len() <= u32::MAX,
    ensures
        match parse_signature(string_wire(signature_blob(algorithm, signature))) {
            Ok((view, rest)) => view.encoded() == Ok::<Seq<u8>, ProtoError>(signature),
            Err(_) => false,
        },
{
    let half = signature.len() as int / 2;
    let r = signature.take(half);
    let s = signature.skip(half);
    let body = if algorithm is EcdsaSha2Nistp256 {
        mpint_wire(r) + mpint_wire(s)
    } else {
        signature
    };
    lemma_known_algorithm(algorithm);
    lemma_tagged(algorithm, body);
    if algorithm is EcdsaSha2Nistp256 {
        lemma_halves(r, s);
        assert(r + s =~= signature);
    }
}

/// The name of a known algorithm stands for it.
proof fn lemma_known_algorithm(algorithm: PublicKeyAlgorithmView)
    requires
        !(algorithm is Unknown),
    ensures
        encode_utf8(PublicKeyAlgorithm::spec_name(algorithm)).len() <= 19,
        PublicKeyAlgorithm::spec_typed(PublicKeyAlgorithm::spec_name(algorithm)) == algorithm,
{
    reveal_strlit("ecdsa-sha2-nistp256");
    reveal_strlit("ssh-ed25519");
    vstd::utf8::is_ascii_chars_encode_utf8("ecdsa-sha2-nistp256"@);
    vstd::utf8::is_ascii_chars_encode_utf8("ssh-ed25519"@);
    assert("ecdsa-sha2-nistp256"@.len() != "ssh-ed25519"@.len());
}

proof fn lemma_tagged(algorithm: PublicKeyAlgorithmView, body: Seq<u8>)
    requires
        encode_utf8(PublicKeyAlgorithm::spec_name(algorithm)).len() <= 19,
        PublicKeyAlgorithm::spec_typed(PublicKeyAlgorithm::spec_name(algorithm)) == algorithm,
        (name_wire::<PublicKeyAlgorithm>(algorithm) + string_wire(body)).len() <= u32::MAX,
    ensures
        parse_signature(
            string_wire(name_wire::<PublicKeyAlgorithm>(algorithm) + string_wire(body)),
        ) matches Ok((view, rest)) && view == (SignatureView { algorithm, signature_blob: body }),
{
    let blob = name_wire::<PublicKeyAlgorithm>(algorithm) + string_wire(body);
    string_round_trip(blob, Seq::empty());
    assert(string_wire(blob) + Seq::<u8>::empty() =~= string_wire(blob));
    name_round_trip::<PublicKeyAlgorithm>(algorithm, string_wire(body));
    crate::wire::lemma_string_len(body);
    string_round_trip(body, Seq::empty());
    assert(string_wire(body) + Seq::<u8>::empty() =~= string_wire(body));
}

proof fn lemma_halves(r: Seq<u8>, s: Seq<u8>)
    requires
        r.len() == 32,
        s.len() == 32,
    ensures
        (SignatureView {
            algorithm: PublicKeyAlgorithmView::EcdsaSha2Nistp256,
            signature_blob: mpint_wire(r) + mpint_wire(s),
        }).encoded() == Ok::<Seq<u8>, ProtoError>(r + s),
{
    lemma_stripped(r);
    lemma_stripped(s);
    string_round_trip(mpint(r), mpint_wire(s));
    string_round_trip(mpint(s), Seq::empty());
    assert(mpint_wire(s) + Seq::<u8>::empty() =~= mpint_wire(s));
    mpint_round_trip(r);
    mpint_round_trip(s);
}

/// Method-specific data for `publickey` authentication.
///
/// See <https://www.rfc-editor.org/rfc/rfc4252#section-7>.
#[derive(Debug)]
pub struct PublicKey<'a> {
    /// The public key algorithm name.
    pub algorithm: PublicKeyAlgorithm<'a>,
    /// The public key blob, encoded per its algorithm.
    pub key_blob: &'a [u8],
    /// The signature proving possession of the private key, if present.
    pub signature: Option<Signature<'a>>,
}

/// What a [`PublicKey`] holds.
pub struct PublicKeyView {
    /// The public key algorithm name.
    pub algorithm: PublicKeyAlgorithmView,
    /// The public key blob, encoded per its algorithm.
    pub key_blob: Seq<u8>,
    /// The signature proving possession of the private key, if present.
    pub signature: Option<SignatureView>,
}

impl View for PublicKey<'_> {
    type V = PublicKeyView;

    open spec fn view(&self) -> PublicKeyView {
        PublicKeyView {
            algorithm: self.algorithm@,
            key_blob: self.key_blob@,
            signature: match self.signature {
                Some(signature) => Some(signature@),
                None => None,
            },
        }
    }
}

/// What decoding the data of the `publickey` method gives.
pub open spec fn parse_public_key(input: Seq<u8>) -> Parsed<PublicKeyView> {
    match parse_bool(input) {
        Err(e) => Err(e),
        Ok((has_signature, next)) => match parse_name::<PublicKeyAlgorithm>(next) {
            Err(e) => Err(e),
            Ok((algorithm, next)) => match parse_string(next) {
                Err(e) => Err(e),
                Ok((key_blob, next)) => if !has_signature {
                    if next.len() != 0 {
                        Err(
                            ProtoError::InvalidPacket(
                                "trailing bytes in public key auth without signature",
                            ),
                        )
                    } else {
                        Ok((PublicKeyView { algorithm, key_blob, signature: None }, next))
                    }
                } else {
                    match parse_signature(next) {
                        Err(e) => Err(e),
                        Ok((signature, next)) => if next.len() != 0 {
                            Err(
                                ProtoError::InvalidPacket(
                                    "trailing bytes in public key auth with signature",
                                ),
                            )
                        } else {
                            Ok(
                                (
                                    PublicKeyView { algorithm, key_blob, signature: Some(signature) },
                                    next,
                                ),
                            )
                        },
                    }
                },
            },
        },
    }
}

impl<'a> Decode<'a> for PublicKey<'a> {
    type Model = PublicKeyView;

    open spec fn model(&self) -> PublicKeyView {
        self@
    }

    open spec fn parse(bytes: Seq<u8>) -> Parsed<PublicKeyView> {
        parse_public_key(bytes)
    }

    fn decode(input: &'a [u8]) -> (r: Result<Decoded<'a, Self>, ProtoError>) {
        let Decoded { value: has_signature, next } = bool::decode(input)?;

        let Decoded { value: algorithm, next } = PublicKeyAlgorithm::decode(next)?;

        let Decoded { value: key_blob, next } = <&[u8]>::decode(next)?;

        let (signature, next) = match (has_signature, next.len() == 0) {
            (false, true) => (None, next),
            (false, false) => {
                return Err(
                    ProtoError::InvalidPacket(
                        "trailing bytes in public key auth without signature",
                    ),
                );
            },
            (true, _) => {
                let Decoded { value: signature, next } = Signature::decode(next)?;

                if next.len() != 0 {
                    return Err(
                        ProtoError::InvalidPacket(
                            "trailing bytes in public key auth with signature",
                        ),
                    );
                }
                (Some(signature), next)
            },
        };

        Ok(Decoded { value: PublicKey { algorithm, key_blob, signature }, next })
    }
}

/// Authentication method data from a [`UserAuthRequest`].
#[derive(Debug)]
pub enum Method<'a> {
    /// The `publickey` method, as defined in <https://www.rfc-editor.org/rfc/rfc4252#section-7>.
    PublicKey(PublicKey<'a>),
    /// The `none` method, as defined in <https://www.rfc-editor.org/rfc/rfc4252#section-5.2>.
    NoMethod,
}

/// What a [`Method`] holds.
pub enum MethodView {
    /// The `publickey` method.
    PublicKey(PublicKeyView),
    /// The `none` method.
    NoMethod,
}

impl View for Method<'_> {
    type V = MethodView;

    open spec fn view(&self) -> MethodView {
        match *self {
            Method::PublicKey(public_key) => MethodView::PublicKey(public_key@),
            Method::NoMethod => MethodView::NoMethod,
        }
    }
}

/// The `SSH_MSG_USERAUTH_REQUEST` message.
///
/// Sent by the client to start or continue authentication.
///
/// See <https://www.rfc-editor.org/rfc/rfc4252#section-5>.
#[derive(Debug)]
pub struct UserAuthRequest<'a> {
    /// The user name to authenticate as.
    pub user_name: &'a str,
    /// The service to start after authentication succeeds.
    pub service_name: ServiceName<'a>,
    /// The authentication method and its method-specific data.
    pub method: Method<'a>,
}

/// What a [`UserAuthRequest`] asks for.
pub struct UserAuthRequestView {
    /// The user name to authenticate as.
    pub user_name: Seq<char>,
    /// The service to start after authentication succeeds.
    pub service_name: ServiceNameView,
    /// The authentication method and its method-specific data.
    pub method: MethodView,
}

impl View for UserAuthRequest<'_> {
    type V = UserAuthRequestView;

    open spec fn view(&self) -> UserAuthRequestView {
        UserAuthRequestView {
            user_name: self.user_name@,
            service_name: self.service_name@,
            method: self.method@,
        }
    }
}

impl UserAuthRequest<'_> {
    /// The method with the given name and data.
    pub open spec fn parse_method(name: MethodNameView, data: Seq<u8>) -> Result<
        MethodView,
        ProtoError,
    > {
        match name {
            MethodNameView::PublicKey => match parse_public_key(data) {
                Err(e) => Err(e),
                Ok((public_key, next)) => if next.len() != 0 {
                    Err(ProtoError::InvalidPacket("trailing bytes in public key auth request"))
                } else {
                    Ok(MethodView::PublicKey(public_key))
                },
            },
            MethodNameView::NoMethod => if data.len() != 0 {
                Err(ProtoError::InvalidPacket("unexpected data after none auth method"))
            } else {
                Ok(MethodView::NoMethod)
            },
            _ => Err(ProtoError::InvalidPacket("unsupported authentication method")),
        }
    }

    /// What the payload of an authentication request says.
    pub open spec fn parse(payload: Seq<u8>) -> Result<UserAuthRequestView, ProtoError> {
        match parse_string(payload) {
            Err(e) => Err(e),
            Ok((user_name, next)) => if !valid_utf8(user_name) {
                Err(ProtoError::InvalidPacket("invalid UTF-8 in user name"))
            } else {
                match parse_name::<ServiceName>(next) {
                    Err(e) => Err(e),
                    Ok((service_name, next)) => match parse_name::<MethodName>(next) {
                        Err(e) => Err(e),
                        Ok((method_name, next)) => match UserAuthRequest::parse_method(
                            method_name,
                            next,
                        ) {
                            Err(e) => Err(e),
                            Ok(method) => Ok(
                                UserAuthRequestView {
                                    user_name: decode_utf8(user_name),
                                    service_name,
                                    method,
                                },
                            ),
                        },
                    },
                }
            },
        }
    }
}

impl<'a> TryFrom<IncomingPacket<'a>> for UserAuthRequest<'a> {
    type Error = ProtoError;

    fn try_from(packet: IncomingPacket<'a>) -> (r: Result<Self, ProtoError>)
        ensures
            if packet.message_type == MessageType::UserAuthRequest {
                UserAuthRequest::parse(packet.payload@) == match r {
                    Ok(m) => Ok::<UserAuthRequestView, ProtoError>(m@),
                    Err(e) => Err::<UserAuthRequestView, ProtoError>(e),
                }
            } else {
                unexpected(packet, seq![MessageType::UserAuthRequest], r)
            },
    {
        packet.expect(&[MessageType::UserAuthRequest])?;

        let Decoded { value: user_name, next } = <&[u8]>::decode(packet.payload)?;
        let Some(user_name) = from_utf8(user_name) else {
            return Err(ProtoError::InvalidPacket("invalid UTF-8 in user name"));
        };

        let Decoded { value: service_name, next } = ServiceName::decode(next)?;

        let Decoded { value: method_name, next } = MethodName::decode(next)?;

        let method = match method_name {
            MethodName::PublicKey => {
                let Decoded { value: public_key, next } = PublicKey::decode(next)?;

                if next.len() != 0 {
                    return Err(
                        ProtoError::InvalidPacket("trailing bytes in public key auth request"),
                    );
                }
                Method::PublicKey(public_key)
            },
            MethodName::NoMethod => {
                if next.len() != 0 {
                    return Err(
                        ProtoError::InvalidPacket("unexpected data after none auth method"),
                    );
                }
                Method::NoMethod
            },
            _ => {
                return Err(ProtoError::InvalidPacket("unsupported authentication method"));
            },
        };

        Ok(UserAuthRequest { user_name, service_name, method })
    }
}

impl<'a> vstd::std_specs::convert::TryFromSpecImpl<IncomingPacket<'a>> for UserAuthRequest<'a> {
    open spec fn obeys_try_from_spec() -> bool {
        false
    }

    open spec fn try_from_spec(packet: IncomingPacket<'a>) -> Result<Self, ProtoError> {
        arbitrary()
    }
}

/// The `SSH_MSG_USERAUTH_FAILURE` message.
///
/// See <https://www.rfc-editor.org/rfc/rfc4252#section-5.1>.
#[derive(Debug)]
pub struct UserAuthFailure<'a> {
    /// Authentication methods that may productively continue the exchange.
    pub can_continue: &'a [MethodName<'a>],
    /// Whether the rejected request was itself successful.
    pub partial_success: bool,
}

/// The bytes of a [`UserAuthFailure`].
pub open spec fn failure_wire(can_continue: Seq<MethodNameView>, partial_success: bool) -> Seq<u8> {
    type_wire(MessageType::UserAuthFailure) + names_wire::<MethodName>(can_continue) + bool_wire(
        partial_success,
    )
}

impl Encode for UserAuthFailure<'_> {
    open spec fn wire(&self) -> Seq<u8> {
        failure_wire(views(self.can_continue@), self.partial_success)
    }

    fn encode(&self, buf: &mut Vec<u8>) {
        let UserAuthFailure { can_continue, partial_success } = self;

        MessageType::UserAuthFailure.encode(buf);
        OutgoingNameList(can_continue).encode(buf);
        partial_success.encode(buf);
        assert(buf@ =~= old(buf)@ + self.wire());
    }
}

/// The `SSH_MSG_USERAUTH_PK_OK` message.
///
/// Confirms that the given public key would be acceptable for authentication.
///
/// See <https://www.rfc-editor.org/rfc/rfc4252#section-7>.
#[derive(Debug)]
pub struct UserAuthPkOk<'a> {
    /// The public key algorithm name from the request.
    pub algorithm: PublicKeyAlgorithm<'a>,
    /// The public key blob from the request.
    pub key_blob: Cow<'a, [u8]>,
}

/// The bytes of a [`UserAuthPkOk`].
pub open spec fn pk_ok_wire(algorithm: PublicKeyAlgorithmView, key_blob: Seq<u8>) -> Seq<u8> {
    type_wire(MessageType::UserAuthPkOk) + name_wire::<PublicKeyAlgorithm>(algorithm)
        + string_wire(key_blob)
}

impl Encode for UserAuthPkOk<'_> {
    open spec fn wire(&self) -> Seq<u8> {
        pk_ok_wire(self.algorithm@, cow_bytes_view(self.key_blob))
    }

    fn encode(&self, buf: &mut Vec<u8>) {
        let UserAuthPkOk { algorithm, key_blob } = self;

        MessageType::UserAuthPkOk.encode(buf);
        algorithm.encode(buf);
        cow_bytes(key_blob).encode(buf);
        assert(buf@ =~= old(buf)@ + self.wire());
    }
}

/// The data signed by the client for `publickey` authentication.
///
/// See <https://www.rfc-editor.org/rfc/rfc4252#section-7>.
pub struct SignatureData<'a> {
    /// The session identifier from the initial key exchange.
    pub session_id: &'a [u8],
    /// The user name from the authentication request.
    pub user_name: &'a str,
    /// The service name from the authentication request.
    pub service_name: ServiceName<'a>,
    /// The public key algorithm name.
    pub algorithm: PublicKeyAlgorithm<'a>,
    /// The public key blob.
    pub public_key: &'a [u8],
}

/// Encoded signature input for public key authentication.
///
/// Constructed by [`SignatureData::encode()`].
pub struct SignatureInput(Vec<u8>);

impl View for SignatureInput {
    type V = Seq<u8>;

    closed spec fn view(&self) -> Seq<u8> {
        self.0@
    }
}

impl SignatureInput {
    /// The bytes that are signed.
    pub fn as_bytes(&self) -> (r: &[u8])
        ensures
            r@ == self@,
    {
        self.0.as_slice()
    }
}

/// The data that the client signs for public key authentication (RFC 4252 Section 7).
pub open spec fn signed_data(
    session_id: Seq<u8>,
    user_name: Seq<char>,
    service_name: ServiceNameView,
    algorithm: PublicKeyAlgorithmView,
    public_key: Seq<u8>,
) -> Seq<u8> {
    string_wire(session_id) + type_wire(MessageType::UserAuthRequest) + text_wire(user_name)
        + name_wire::<ServiceName>(service_name) + name_wire::<MethodName>(
        MethodNameView::PublicKey,
    ) + bool_wire(true) + name_wire::<PublicKeyAlgorithm>(algorithm) + string_wire(public_key)
}

impl<'a> SignatureData<'a> {
    /// Build the data that the client signs for public key authentication (RFC 4252 Section 7).
    pub fn encode(&self) -> (r: SignatureInput)
        ensures
            r@ == signed_data(
                self.session_id@,
                self.user_name@,
                self.service_name@,
                self.algorithm@,
                self.public_key@,
            ),
    {
        let mut buf: Vec<u8> = Vec::new();
        self.session_id.encode(&mut buf);
        MessageType::UserAuthRequest.encode(&mut buf);
        put_string(&mut buf, self.user_name);
        self.service_name.encode(&mut buf);
        MethodName::PublicKey.encode(&mut buf);
        true.encode(&mut buf);
        self.algorithm.encode(&mut buf);
        self.public_key.encode(&mut buf);
        assert(buf@ =~= signed_data(
            self.session_id@,
            self.user_name@,
            self.service_name@,
            self.algorithm@,
            self.public_key@,
        ));
        SignatureInput(buf)
    }
}

/// The `SSH_MSG_SERVICE_ACCEPT` message.
///
/// See <https://www.rfc-editor.org/rfc/rfc4253#section-10>.
#[derive(Debug)]
pub struct ServiceAccept<'a> {
    /// The service name from the accepted request.
    pub service_name: ServiceName<'a>,
}

impl Encode for ServiceAccept<'_> {
    open spec fn wire(&self) -> Seq<u8> {
        type_wire(MessageType::ServiceAccept) + name_wire::<ServiceName>(self.service_name@)
    }

    fn encode(&self, buf: &mut Vec<u8>) {
        let ServiceAccept { service_name } = self;
        MessageType::ServiceAccept.encode(buf);
        service_name.encode(buf);
        assert(buf@ =~= old(buf)@ + self.wire());
    }
}

/// The `SSH_MSG_SERVICE_REQUEST` message.
///
/// See <https://www.rfc-editor.org/rfc/rfc4253#section-10>.
#[derive(Debug)]
pub struct ServiceRequest<'a> {
    /// The name of the service to start.
    pub service_name: ServiceName<'a>,
}

impl ServiceRequest<'_> {
    /// The service that the payload of a service request names.
    pub open spec fn parse(payload: Seq<u8>) -> Result<ServiceNameView, ProtoError> {
        match parse_name::<ServiceName>(payload) {
            Err(e) => Err(e),
            Ok((service_name, next)) => if next.len() != 0 {
                Err(ProtoError::InvalidPacket("extra data in service request"))
            } else {
                Ok(service_name)
            },
        }
    }
}

impl<'a> TryFrom<IncomingPacket<'a>> for ServiceRequest<'a> {
    type Error = ProtoError;

    fn try_from(packet: IncomingPacket<'a>) -> (r: Result<Self, ProtoError>)
        ensures
            if packet.message_type == MessageType::ServiceRequest {
                ServiceRequest::parse(packet.payload@) == match r {
                    Ok(m) => Ok::<ServiceNameView, ProtoError>(m.service_name@),
                    Err(e) => Err::<ServiceNameView, ProtoError>(e),
                }
            } else {
                unexpected(packet, seq![MessageType::ServiceRequest], r)
            },
    {
        packet.expect(&[MessageType::ServiceRequest])?;

        let Decoded { value: service_name, next } = ServiceName::decode(packet.payload)?;
        if next.len() != 0 {
            return Err(ProtoError::InvalidPacket("extra data in service request"));
        }
        Ok(ServiceRequest { service_name })
    }
}

impl<'a> vstd::std_specs::convert::TryFromSpecImpl<IncomingPacket<'a>> for ServiceRequest<'a> {
    open spec fn obeys_try_from_spec() -> bool {
        false
    }

    open spec fn try_from_spec(packet: IncomingPacket<'a>) -> Result<Self, ProtoError> {
        arbitrary()
    }
}

} // verus!
