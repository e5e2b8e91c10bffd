//! The messages of the authentication protocol (<https://www.rfc-editor.org/rfc/rfc4252>).

use vstd::prelude::*;
use vstd::utf8::{encode_utf8, valid_utf8};

use crate::auth::{failure_wire, fixed, parse_public_key, parse_signature, pk_ok_wire, signed_data};
use crate::auth::{MethodView, PublicKeyView, ServiceAccept, ServiceRequest, SignatureView};
use crate::auth::UserAuthRequest;
use crate::error::ProtoError;
use crate::laws::encoding::{boolean_layout, lemma_leading_zeros, number};
use crate::named::{MethodName, MethodNameView, Named, PublicKeyAlgorithm, PublicKeyAlgorithmView};
use crate::named::{ServiceName, ServiceNameView};
use crate::wire::{string_round_trip, string_wire, text_round_trip, text_wire, Encode};

verus! {

/// The names of the authentication methods, as they are written and read.
pub proof fn method_names(value: MethodNameView, name: Seq<char>)
    ensures
        MethodName::spec_name(value) == match value {
            MethodNameView::PublicKey => "publickey"@,
            MethodNameView::Password => "password"@,
            MethodNameView::HostBased => "hostbased"@,
            MethodNameView::NoMethod => "none"@,
            MethodNameView::Unknown(other) => other,
        },
        MethodName::spec_typed("publickey"@) is PublicKey,
        MethodName::spec_typed("password"@) is Password,
        MethodName::spec_typed("hostbased"@) is HostBased,
        MethodName::spec_typed("none"@) is NoMethod,
        name != "publickey"@ && name != "password"@ && name != "hostbased"@ && name != "none"@
            ==> MethodName::spec_typed(name) == MethodNameView::Unknown(name),
{
    reveal_strlit("publickey");
    reveal_strlit("password");
    reveal_strlit("hostbased");
    reveal_strlit("none");
    assert("publickey"@.len() == 9 && "hostbased"@.len() == 9 && "publickey"@[0] == 'p'
        && "hostbased"@[0] == 'h');
    assert("password"@.len() == 8 && "none"@.len() == 4);
}

/// The names of the services, as they are written and read.
pub proof fn service_names(value: ServiceNameView, name: Seq<char>)
    ensures
        ServiceName::spec_name(value) == match value {
            ServiceNameView::UserAuth => "ssh-userauth"@,
            ServiceNameView::Connection => "ssh-connection"@,
            ServiceNameView::Unknown(other) => other,
        },
        ServiceName::spec_typed("ssh-userauth"@) is UserAuth,
        ServiceName::spec_typed("ssh-connection"@) is Connection,
        name != "ssh-userauth"@ && name != "ssh-connection"@ ==> ServiceName::spec_typed(name)
            == ServiceNameView::Unknown(name),
{
    reveal_strlit("ssh-userauth");
    reveal_strlit("ssh-connection");
    assert("ssh-userauth"@.len() == 12 && "ssh-connection"@.len() == 14);
}

/// The names of the public key algorithms, as they are written and read.
pub proof fn public_key_names(value: PublicKeyAlgorithmView, name: Seq<char>)
    ensures
        PublicKeyAlgorithm::spec_name(value) == match value {
            PublicKeyAlgorithmView::EcdsaSha2Nistp256 => "ecdsa-sha2-nistp256"@,
            PublicKeyAlgorithmView::Ed25519 => "ssh-ed25519"@,
            PublicKeyAlgorithmView::Unknown(other) => other,
        },
        PublicKeyAlgorithm::spec_typed("ecdsa-sha2-nistp256"@) is EcdsaSha2Nistp256,
        PublicKeyAlgorithm::spec_typed("ssh-ed25519"@) is Ed25519,
        name != "ecdsa-sha2-nistp256"@ && name != "ssh-ed25519"@ ==> PublicKeyAlgorithm::spec_typed(
            name,
        ) == PublicKeyAlgorithmView::Unknown(name),
{
    reveal_strlit("ecdsa-sha2-nistp256");
    reveal_strlit("ssh-ed25519");
    assert("ecdsa-sha2-nistp256"@.len() == 19 && "ssh-ed25519"@.len() == 11);
}

/// A request for a service holds the name of the service and nothing else; the answer repeats it
/// (<https://www.rfc-editor.org/rfc/rfc4253#section-10>).
pub proof fn service_layout(name: Seq<char>, rest: Seq<u8>, accept: ServiceAccept<'_>)
    requires
        encode_utf8(name).len() <= u32::MAX,
    ensures
        ServiceRequest::parse(text_wire(name) + rest) is Err <==> rest.len() > 0,
        rest.len() == 0 ==> ServiceRequest::parse(text_wire(name) + rest) == Ok::<
            ServiceNameView,
            ProtoError,
        >(ServiceName::spec_typed(name)),
        accept.wire() == seq![6u8] + text_wire(ServiceName::spec_name(accept.service_name@)),
{
    text_round_trip(name, rest);
}

/// A signature: the name of its algorithm and the signature itself, and nothing else, all of it in
/// one `string` (<https://www.rfc-editor.org/rfc/rfc4253#section-6.6>).
pub proof fn signature_layout(name: Seq<char>, blob: Seq<u8>, inner: Seq<u8>, outer: Seq<u8>)
    requires
        (text_wire(name) + (string_wire(blob) + inner)).len() <= u32::MAX,
    ensures
        ({
            let data = text_wire(name) + (string_wire(blob) + inner);
            let signature = parse_signature(string_wire(data) + outer);
            &&& signature is Err <==> inner.len() > 0 || outer.len() > 0
            &&& signature matches Ok((signature, rest)) ==> {
                &&& signature == (SignatureView {
                    algorithm: PublicKeyAlgorithm::spec_typed(name),
                    signature_blob: blob,
                })
                &&& rest.len() == 0
            }
        }),
{
    let data = text_wire(name) + (string_wire(blob) + inner);
    crate::wire::lemma_string_len(encode_utf8(name));
    crate::wire::lemma_string_len(blob);
    string_round_trip(data, outer);
    text_round_trip(name, string_wire(blob) + inner);
    string_round_trip(blob, inner);
}

/// The data of the `publickey` method: whether there is a signature, the name of the algorithm, the
/// key, and the signature, and nothing else
/// (<https://www.rfc-editor.org/rfc/rfc4252#section-7>).
pub proof fn public_key_layout(has_signature: u8, name: Seq<char>, key: Seq<u8>, rest: Seq<u8>)
    requires
        encode_utf8(name).len() <= u32::MAX,
        key.len() <= u32::MAX,
    ensures
        ({
            let data = seq![has_signature] + (text_wire(name) + (string_wire(key) + rest));
            let algorithm = PublicKeyAlgorithm::spec_typed(name);
            &&& has_signature == 0 && rest.len() == 0 ==> parse_public_key(data) == Ok::<
                (PublicKeyView, Seq<u8>),
                ProtoError,
            >((PublicKeyView { algorithm, key_blob: key, signature: None }, Seq::empty()))
            &&& has_signature == 0 && rest.len() > 0 ==> parse_public_key(data) is Err
            &&& has_signature != 0 ==> match parse_signature(rest) {
                Ok((signature, _)) => parse_public_key(data) == Ok::<
                    (PublicKeyView, Seq<u8>),
                    ProtoError,
                >(
                    (
                        PublicKeyView { algorithm, key_blob: key, signature: Some(signature) },
                        Seq::empty(),
                    ),
                ),
                Err(_) => parse_public_key(data) is Err,
            }
        }),
{
    boolean_layout(true, has_signature, text_wire(name) + (string_wire(key) + rest));
    text_round_trip(name, string_wire(key) + rest);
    string_round_trip(key, rest);
    assert(rest.len() == 0 ==> rest =~= Seq::empty());
    if let Ok((_, next)) = parse_signature(rest) {
        assert(next =~= Seq::empty());
    }
}

/// A request for authentication: the name of the user, the service, the method, and the data of
/// the method. The `none` method has no data; others than it and `publickey` are not known
/// (<https://www.rfc-editor.org/rfc/rfc4252#section-5>).
pub proof fn auth_request_layout(
    user_name: Seq<char>,
    service: Seq<char>,
    method: Seq<char>,
    data: Seq<u8>,
)
    requires
        encode_utf8(user_name).len() <= u32::MAX,
        encode_utf8(service).len() <= u32::MAX,
        encode_utf8(method).len() <= u32::MAX,
    ensures
        ({
            let request = UserAuthRequest::parse(
                text_wire(user_name) + (text_wire(service) + (text_wire(method) + data)),
            );
            &&& request matches Ok(request) ==> request.user_name == user_name
                && request.service_name == ServiceName::spec_typed(service)
            &&& method == "publickey"@ ==> match parse_public_key(data) {
                Ok((public_key, _)) => request is Ok && request->Ok_0.method
                    == MethodView::PublicKey(public_key),
                Err(_) => request is Err,
            }
            &&& method == "none"@ ==> {
                &&& request is Ok <==> data.len() == 0
                &&& request is Ok ==> request->Ok_0.method is NoMethod
            }
            &&& method != "publickey"@ && method != "none"@ ==> request is Err
        }),
{
    text_round_trip(user_name, text_wire(service) + (text_wire(method) + data));
    text_round_trip(service, text_wire(method) + data);
    text_round_trip(method, data);
    method_names(MethodNameView::NoMethod, method);
    if let Ok((_, next)) = parse_public_key(data) {
        assert(next.len() == 0);
    }
}

/// A user name that is not text is refused.
pub proof fn user_names_are_text(user_name: Seq<u8>, rest: Seq<u8>)
    requires
        user_name.len() <= u32::MAX,
        !valid_utf8(user_name),
    ensures
        UserAuthRequest::parse(string_wire(user_name) + rest) is Err,
{
    string_round_trip(user_name, rest);
}

/// What a client signs: the session, and then its request as it was sent, but for the signature
/// (<https://www.rfc-editor.org/rfc/rfc4252#section-7>).
pub proof fn signed_data_layout(
    session_id: Seq<u8>,
    user_name: Seq<char>,
    service: ServiceNameView,
    algorithm: PublicKeyAlgorithmView,
    key: Seq<u8>,
)
    ensures
        signed_data(session_id, user_name, service, algorithm, key) == string_wire(session_id)
            + (seq![50u8] + (text_wire(user_name) + (text_wire(ServiceName::spec_name(service)) + (
        text_wire("publickey"@) + (seq![1u8] + (text_wire(PublicKeyAlgorithm::spec_name(algorithm))
            + string_wire(key))))))),
{
    let (a, b, c) = (string_wire(session_id), seq![50u8], text_wire(user_name));
    let (d, e) = (text_wire(ServiceName::spec_name(service)), text_wire("publickey"@));
    let (f, g) = (seq![1u8], text_wire(PublicKeyAlgorithm::spec_name(algorithm)));
    let h = string_wire(key);
    assert(signed_data(session_id, user_name, service, algorithm, key) == a + b + c + d + e + f + g
        + h);
    assert(a + b + c + d + e + f + g + h =~= a + (b + (c + (d + (e + (f + (g + h)))))));
}

/// The answers to a request for authentication
/// (<https://www.rfc-editor.org/rfc/rfc4252#section-5.1>): a refusal, with the names of the methods
/// that can go on, and the word that a key would do, which repeats the algorithm and the key.
pub proof fn auth_reply_layout(
    can_continue: MethodNameView,
    partial_success: bool,
    algorithm: PublicKeyAlgorithmView,
    key: Seq<u8>,
)
    ensures
        failure_wire(seq![can_continue], partial_success) == seq![51u8] + text_wire(
            MethodName::spec_name(can_continue),
        ) + seq![if partial_success { 1u8 } else { 0u8 }],
        pk_ok_wire(algorithm, key) == seq![60u8] + text_wire(
            PublicKeyAlgorithm::spec_name(algorithm),
        ) + string_wire(key),
{
    reveal(crate::named::names_wire);
    let names = crate::named::encoded_names::<MethodName>(seq![can_continue]);
    assert(names.len() == 1 && names[0] == encode_utf8(MethodName::spec_name(can_continue)));
}

/// A number is put into as many bytes as are asked for: it stays the same number. It fails only
/// where the number has more digits than that.
pub proof fn fixed_keeps_the_number(mpint: Seq<u8>, len: int)
    requires
        len >= 0,
    ensures
        match fixed(mpint, len) {
            Some(bytes) => bytes.len() == len && number(bytes) == number(mpint),
            None => mpint.len() > len && (len > 0 && mpint[0] == 0 ==> mpint.len() > len + 1),
        },
{
    let digits = crate::auth::mpint_digits(mpint);
    if digits.len() <= len {
        lemma_leading_zeros(digits, (len - digits.len()) as nat);
        assert(crate::auth::zeros(len - digits.len()) =~= Seq::new(
            (len - digits.len()) as nat,
            |i: int| 0u8,
        ));
        if mpint.len() > 1 && mpint[0] == 0 {
            lemma_leading_zeros(digits, 1);
            assert(Seq::new(1, |i: int| 0u8) + digits =~= mpint);
        }
    }
}

/// An ECDSA signature is verified as the two numbers that it holds, each in 32 bytes, the first one
/// first (<https://www.rfc-editor.org/rfc/rfc5656#section-3.1.2>). An Ed25519 signature is
/// verified as it is, and one of another algorithm never.
pub proof fn signatures_are_numbers(r: Seq<u8>, s: Seq<u8>, rest: Seq<u8>)
    requires
        r.len() <= 33,
        s.len() <= 33,
        r.len() == 33 ==> r[0] == 0,
        s.len() == 33 ==> s[0] == 0,
    ensures
        ({
            let signature = SignatureView {
                algorithm: PublicKeyAlgorithmView::EcdsaSha2Nistp256,
                signature_blob: string_wire(r) + (string_wire(s) + rest),
            };
            &&& signature.encoded() is Err <==> rest.len() > 0
            &&& signature.encoded() matches Ok(bytes) ==> {
                &&& bytes.len() == 64
                &&& number(bytes.take(32)) == number(r)
                &&& number(bytes.skip(32)) == number(s)
            }
        }),
{
    string_round_trip(r, string_wire(s) + rest);
    string_round_trip(s, rest);
    fixed_keeps_the_number(r, 32);
    fixed_keeps_the_number(s, 32);
    let (a, b) = (fixed(r, 32)->Some_0, fixed(s, 32)->Some_0);
    assert((a + b).take(32) =~= a);
    assert((a + b).skip(32) =~= b);
}

/// A signature that is not an ECDSA signature.
pub proof fn other_signatures(signature: SignatureView)
    requires
        !(signature.algorithm is EcdsaSha2Nistp256),
    ensures
        signature.encoded() is Ok <==> signature.algorithm is Ed25519,
        signature.encoded() matches Ok(bytes) ==> bytes == signature.signature_blob,
{
}

} // verus!
