//! Traits abstracting over cryptographic primitives and key derivation.
//!
//! The contracts of the traits are stated over spec functions, and an implementation defines them
//! to say what it does. Their default bodies are there for implementations in plain Rust, which
//! cannot define spec functions and which Verus does not read.
//!
//! - A spec function that says whether an outcome is possible has `true` for its default body:
//!   any outcome is, and an implementation that keeps it promises nothing.
//! - A spec function that gives a result, such as [`HashAlgorithm::spec_digest()`], has for its
//!   default body one value that is the same whatever the arguments. An implementation that keeps
//!   it does not meet the contract by its words. What is proved of the library then holds of it
//!   only as far as its results are a function of the arguments all the same, which nothing
//!   checks.

use std::sync::Arc;

use vstd::prelude::*;

use crate::error::CryptoError;
use crate::named::{views, EncryptionAlgorithm, EncryptionAlgorithmView, KeyExchangeAlgorithm};
use crate::named::{KeyExchangeAlgorithmView, MacAlgorithm, MacAlgorithmView, PublicKeyAlgorithm};
use crate::named::PublicKeyAlgorithmView;
use crate::wire::{put, string_wire, Encode};

verus! {

/// `Zeroize::zeroize` of the `zeroize` crate on a `Vec<u8>`: the bytes are overwritten with
/// zeros and the vector is left empty. That the memory is overwritten is not stated, as it is
/// out of sight of the vector's contents.
#[verifier::external_body]
pub(crate) fn zeroize(bytes: &mut Vec<u8>)
    ensures
        final(bytes)@ == Seq::<u8>::empty(),
    opens_invariants none
    no_unwind
{
    zeroize::Zeroize::zeroize(bytes)
}

/// The lengths of the keys and initialization vectors of an encryption algorithm.
#[derive(Clone, Copy, Debug, PartialEq, Eq, Structural)]
pub struct KeyLengths {
    /// The length of a key, in bytes.
    pub key_len: usize,
    /// The length of an initialization vector, in bytes.
    pub iv_len: usize,
}

/// A source of random bytes.
pub trait SecureRandom: Send + Sync {
    /// Whether asking for `len` random bytes can give these bytes, or fail like this.
    open spec fn spec_fill(&self, len: nat, outcome: Result<Seq<u8>, CryptoError>) -> bool {
        true
    }

    /// Overwrite `bytes` with random bytes.
    fn fill(&self, bytes: &mut [u8]) -> (r: Result<(), CryptoError>)
        ensures
            final(bytes)@.len() == old(bytes)@.len(),
            self.spec_fill(
                old(bytes)@.len(),
                match r {
                    Ok(_) => Ok(final(bytes)@),
                    Err(e) => Err(e),
                },
            ),
    ;
}

/// The source of random bytes of a provider.
#[derive(Clone, Copy)]
pub struct RandomSource(pub &'static dyn SecureRandom);

/// A hash function.
pub trait HashAlgorithm: Send + Sync {
    /// The digest of `data`.
    open spec fn spec_digest(&self, data: Seq<u8>) -> Seq<u8> {
        arbitrary()
    }

    /// Compute the digest of `data`.
    fn digest(&self, data: &[u8]) -> (r: Vec<u8>)
        ensures
            r@ == self.spec_digest(data@),
            r@.len() > 0,
    ;
}

/// A hash function of a provider.
pub struct HashFunction(pub Arc<Box<dyn HashAlgorithm>>);

impl Clone for HashFunction {
    fn clone(&self) -> (r: Self)
        ensures
            r == *self,
    {
        HashFunction(self.0.clone())
    }
}

/// The keys and state for decrypting incoming packets.
pub trait OpeningKey: Send + Sync {
    /// The bytes of the packet length that the first four bytes of a packet stand for.
    open spec fn spec_packet_length(&self, sequence_number: u32, length: Seq<u8>) -> Seq<u8> {
        arbitrary()
    }

    /// The length of the tag behind each packet.
    open spec fn spec_tag_len(&self) -> usize {
        arbitrary()
    }

    /// The packet with its contents decrypted, its first four bytes left alone.
    open spec fn spec_open(&self, sequence_number: u32, packet: Seq<u8>, tag: Seq<u8>) -> Result<
        Seq<u8>,
        CryptoError,
    > {
        arbitrary()
    }

    /// The number of packets opened so far with the current keys.
    open spec fn spec_counter(&self) -> u64 {
        arbitrary()
    }

    /// Decrypt the packet length field.
    fn decrypt_packet_length(&self, sequence_number: u32, length: [u8; 4]) -> (r: [u8; 4])
        ensures
            r@ == self.spec_packet_length(sequence_number, length@),
    ;

    /// The length of the tag behind each packet.
    fn tag_len(&self) -> (r: usize)
        ensures
            r == self.spec_tag_len(),
    ;

    /// Verify the tag and decrypt a packet in place.
    ///
    /// The packet length field at the start of `packet` is authenticated but stays as it is.
    fn open_in_place(&mut self, sequence_number: u32, packet: &mut [u8], tag: &[u8]) -> (r: Result<
        (),
        CryptoError,
    >)
        ensures
            final(self).spec_tag_len() == old(self).spec_tag_len(),
            final(packet)@.len() == old(packet)@.len(),
            match r {
                Ok(_) => old(self).spec_open(sequence_number, old(packet)@, tag@) == Ok::<
                    Seq<u8>,
                    CryptoError,
                >(final(packet)@),
                Err(e) => old(self).spec_open(sequence_number, old(packet)@, tag@) == Err::<
                    Seq<u8>,
                    CryptoError,
                >(e),
            },
    ;

    /// The number of packets opened so far with the current keys.
    fn counter(&self) -> (r: u64)
        ensures
            r == self.spec_counter(),
    ;
}

/// The keys of a provider for decrypting incoming packets.
pub struct Opener(pub Box<dyn OpeningKey>);

/// The keys and state for encrypting outgoing packets.
pub trait SealingKey: Send + Sync {
    /// The block size of the cipher.
    open spec fn spec_block_len(&self) -> usize {
        arbitrary()
    }

    /// The length of the tag behind each packet.
    open spec fn spec_tag_len(&self) -> usize {
        arbitrary()
    }

    /// The packet with its contents encrypted, and its tag.
    open spec fn spec_seal(&self, sequence_number: u32, packet: Seq<u8>) -> Result<
        (Seq<u8>, Seq<u8>),
        CryptoError,
    > {
        arbitrary()
    }

    /// The number of packets sealed so far with the current keys.
    open spec fn spec_counter(&self) -> u64 {
        arbitrary()
    }

    /// The block size of the cipher.
    fn block_len(&self) -> (r: usize)
        ensures
            r == self.spec_block_len(),
    ;

    /// The length of the tag behind each packet.
    fn tag_len(&self) -> (r: usize)
        ensures
            r == self.spec_tag_len(),
    ;

    /// Encrypt a packet in place and write its tag.
    fn seal_in_place(&mut self, sequence_number: u32, packet: &mut [u8], tag: &mut [u8]) -> (r:
        Result<(), CryptoError>)
        requires
            old(tag)@.len() == old(self).spec_tag_len(),
        ensures
            final(self).spec_block_len() == old(self).spec_block_len(),
            final(self).spec_tag_len() == old(self).spec_tag_len(),
            final(packet)@.len() == old(packet)@.len(),
            final(tag)@.len() == old(tag)@.len(),
            match r {
                Ok(_) => old(self).spec_seal(sequence_number, old(packet)@) == Ok::<
                    (Seq<u8>, Seq<u8>),
                    CryptoError,
                >((final(packet)@, final(tag)@)),
                Err(e) => old(self).spec_seal(sequence_number, old(packet)@) == Err::<
                    (Seq<u8>, Seq<u8>),
                    CryptoError,
                >(e),
            },
    ;

    /// The number of packets sealed so far with the current keys.
    fn counter(&self) -> (r: u64)
        ensures
            r == self.spec_counter(),
    ;
}

/// The keys of a provider for encrypting outgoing packets.
pub struct Sealer(pub Box<dyn SealingKey>);

/// A public key that signatures can be checked against.
pub trait VerifyingKey: Send + Sync {
    /// What checking `signature` over `message` gives.
    open spec fn spec_verify(&self, message: Seq<u8>, signature: Seq<u8>) -> Result<(), CryptoError> {
        arbitrary()
    }

    /// Check `signature` over `message`.
    fn verify(&self, message: &[u8], signature: &[u8]) -> (r: Result<(), CryptoError>)
        ensures
            r == self.spec_verify(message@, signature@),
    ;
}

/// A public key of a provider.
pub struct Verifier(pub Arc<Box<dyn VerifyingKey>>);

impl Clone for Verifier {
    fn clone(&self) -> (r: Self)
        ensures
            r == *self,
    {
        Verifier(self.0.clone())
    }
}

/// A private key that can sign messages.
pub trait SigningKey: Send + Sync {
    /// The algorithm of the key.
    open spec fn spec_algorithm(&self) -> PublicKeyAlgorithmView {
        arbitrary()
    }

    /// The public part of the key.
    open spec fn spec_public_key(&self) -> Seq<u8> {
        arbitrary()
    }

    /// Whether signing `message` can give `signature`.
    open spec fn spec_signs(&self, message: Seq<u8>, signature: Seq<u8>) -> bool {
        true
    }

    /// The algorithm of the key.
    fn algorithm(&self) -> (r: PublicKeyAlgorithm<'static>)
        ensures
            r@ == self.spec_algorithm(),
    ;

    /// The public part of the key.
    fn public_key(&self) -> (r: &[u8])
        ensures
            r@ == self.spec_public_key(),
    ;

    /// Sign `message`. Signing may draw on randomness, so a message can have many signatures.
    fn sign(&self, message: &[u8]) -> (r: Vec<u8>)
        ensures
            self.spec_signs(message@, r@),
    ;
}

/// A private key of a provider.
pub struct Signer(pub Arc<Box<dyn SigningKey>>);

impl Clone for Signer {
    fn clone(&self) -> (r: Self)
        ensures
            r == *self,
    {
        Signer(self.0.clone())
    }
}

/// The result of a completed key exchange.
pub struct CompletedKeyExchange {
    /// The public value to be sent to the peer.
    pub public_key: Vec<u8>,
    /// The secret shared with the peer.
    pub shared_secret: SharedSecret,
}

/// A key exchange for which an ephemeral key has been made.
pub trait ActiveKeyExchange: Send + Sync {
    /// Whether completing the key exchange with the peer's public value can give our public value
    /// and the shared secret, or fail like this.
    open spec fn spec_complete(
        &self,
        peer_public_key: Seq<u8>,
        outcome: Result<(Seq<u8>, Seq<u8>), CryptoError>,
    ) -> bool {
        true
    }

    /// Complete the key exchange with the peer's public value.
    fn complete(&self, peer_public_key: &[u8]) -> (r: Result<CompletedKeyExchange, CryptoError>)
        ensures
            self.spec_complete(
                peer_public_key@,
                match r {
                    Ok(completed) => Ok((completed.public_key@, completed.shared_secret@)),
                    Err(e) => Err(e),
                },
            ),
    ;
}

/// An ephemeral key of a provider.
pub struct EphemeralKey(pub Box<dyn ActiveKeyExchange>);

/// A key exchange method.
pub trait KeyExchangeMethod: Send + Sync {
    /// Whether asking for an ephemeral key can give this one, or fail like this.
    open spec fn spec_start(&self, outcome: Result<EphemeralKey, CryptoError>) -> bool {
        true
    }

    /// Make an ephemeral key, which is random.
    fn start(&self) -> (r: Result<EphemeralKey, CryptoError>)
        ensures
            self.spec_start(r),
    ;
}

/// A key exchange method of a provider.
pub struct KeyAgreement(pub Box<dyn KeyExchangeMethod>);

/// The algorithms that a provider implements, in order of preference.
pub struct SupportedAlgorithms {
    /// Key exchange algorithms.
    pub key_exchange: &'static [KeyExchangeAlgorithm<'static>],
    /// Encryption algorithms.
    pub encryption: &'static [EncryptionAlgorithm<'static>],
    /// MAC algorithms.
    pub mac: &'static [MacAlgorithm<'static>],
    /// Public key algorithms.
    pub public_key: &'static [PublicKeyAlgorithm<'static>],
}

/// What [`SupportedAlgorithms`] lists.
pub struct SupportedAlgorithmsView {
    /// Key exchange algorithms.
    pub key_exchange: Seq<KeyExchangeAlgorithmView>,
    /// Encryption algorithms.
    pub encryption: Seq<EncryptionAlgorithmView>,
    /// MAC algorithms.
    pub mac: Seq<MacAlgorithmView>,
    /// Public key algorithms.
    pub public_key: Seq<PublicKeyAlgorithmView>,
}

impl View for SupportedAlgorithms {
    type V = SupportedAlgorithmsView;

    open spec fn view(&self) -> SupportedAlgorithmsView {
        SupportedAlgorithmsView {
            key_exchange: views(self.key_exchange@),
            encryption: views(self.encryption@),
            mac: views(self.mac@),
            public_key: views(self.public_key@),
        }
    }
}

/// An implementation of the cryptographic primitives.
pub trait CryptoProvider: Send + Sync {
    /// The source of random bytes.
    open spec fn spec_secure_random(&self) -> RandomSource {
        arbitrary()
    }

    /// The algorithms that the provider implements.
    open spec fn spec_supported_algorithms(&self) -> SupportedAlgorithmsView {
        arbitrary()
    }

    /// The hash function of a key exchange algorithm.
    open spec fn spec_hash(&self, algorithm: KeyExchangeAlgorithmView) -> Result<
        HashFunction,
        CryptoError,
    > {
        arbitrary()
    }

    /// The method of a key exchange algorithm.
    open spec fn spec_key_exchange(&self, algorithm: KeyExchangeAlgorithmView) -> Result<
        KeyAgreement,
        CryptoError,
    > {
        arbitrary()
    }

    /// The keys for decrypting packets, after `counter` packets have been opened with them.
    open spec fn spec_opening_key(&self, counter: u64, source: KeySourceSideView) -> Result<
        Opener,
        CryptoError,
    > {
        arbitrary()
    }

    /// The keys for encrypting packets, after `counter` packets have been sealed with them.
    open spec fn spec_sealing_key(&self, counter: u64, source: KeySourceSideView) -> Result<
        Sealer,
        CryptoError,
    > {
        arbitrary()
    }

    /// The verifying key with the given public value.
    open spec fn spec_verifying_key(
        &self,
        public_key: Seq<u8>,
        algorithm: PublicKeyAlgorithmView,
    ) -> Result<Verifier, CryptoError> {
        arbitrary()
    }

    /// The signing key with the given encoded private value.
    open spec fn spec_signing_key(&self, pkcs8: Seq<u8>) -> Result<Signer, CryptoError> {
        arbitrary()
    }

    /// The source of random bytes.
    fn secure_random(&self) -> (r: RandomSource)
        ensures
            r == self.spec_secure_random(),
    ;

    /// The algorithms that the provider implements.
    fn supported_algorithms(&self) -> (r: &'static SupportedAlgorithms)
        ensures
            r@ == self.spec_supported_algorithms(),
    ;

    /// The hash function of a key exchange algorithm.
    fn hash(&self, algorithm: &KeyExchangeAlgorithm<'_>) -> (r: Result<
        HashFunction,
        CryptoError,
    >)
        ensures
            r == self.spec_hash(algorithm@),
    ;

    /// The method of a key exchange algorithm.
    fn key_exchange(&self, algorithm: &KeyExchangeAlgorithm<'_>) -> (r: Result<
        KeyAgreement,
        CryptoError,
    >)
        ensures
            r == self.spec_key_exchange(algorithm@),
    ;

    /// The keys for decrypting packets, after `counter` packets have been opened with them.
    fn opening_key(&self, counter: u64, source: &KeySourceSide) -> (r: Result<
        Opener,
        CryptoError,
    >)
        ensures
            r == self.spec_opening_key(counter, source@),
            r matches Ok(key) ==> key.0.spec_counter() == counter,
    ;

    /// The keys for encrypting packets, after `counter` packets have been sealed with them.
    fn sealing_key(&self, counter: u64, source: &KeySourceSide) -> (r: Result<
        Sealer,
        CryptoError,
    >)
        ensures
            r == self.spec_sealing_key(counter, source@),
            r matches Ok(key) ==> key.0.spec_counter() == counter,
    ;

    /// The verifying key with the given public value.
    fn verifying_key(&self, public_key: &[u8], algorithm: &PublicKeyAlgorithm<'_>) -> (r: Result<
        Verifier,
        CryptoError,
    >)
        ensures
            r == self.spec_verifying_key(public_key@, algorithm@),
    ;

    /// The signing key with the given private value, encoded as in PKCS #8.
    fn signing_key(&self, pkcs8: &[u8]) -> (r: Result<Signer, CryptoError>)
        ensures
            r == self.spec_signing_key(pkcs8@),
    ;

    /// Make a new signing key, which is random, and its private value, encoded as in PKCS #8.
    fn generate_signing_key(&self, algorithm: &PublicKeyAlgorithm<'_>) -> Result<
        (Signer, Vec<u8>),
        CryptoError,
    >;
}

/// A provider of the cryptographic primitives.
#[derive(Clone, Copy)]
pub struct Provider<'a>(pub &'a dyn CryptoProvider);

/// A hash value.
#[derive(Debug)]
pub struct Digest {
    bytes: Vec<u8>,
}

impl View for Digest {
    type V = Seq<u8>;

    closed spec fn view(&self) -> Seq<u8> {
        self.bytes@
    }
}

impl Digest {
    /// A hash value with the given bytes.
    pub fn new(bytes: &[u8]) -> (r: Self)
        ensures
            r@ == bytes@,
    {
        Digest { bytes: copied(bytes) }
    }

    /// The bytes of the hash value.
    pub fn as_bytes(&self) -> (r: &[u8])
        ensures
            r@ == self@,
    {
        self.bytes.as_slice()
    }
}

impl Clone for Digest {
    fn clone(&self) -> (r: Self)
        ensures
            r@ == self@,
    {
        Digest::new(self.as_bytes())
    }
}

/// A copy of `bytes`.
pub fn copied(bytes: &[u8]) -> (r: Vec<u8>)
    ensures
        r@ == bytes@,
{
    let mut out: Vec<u8> = Vec::new();
    put(&mut out, bytes);
    assert(out@ =~= bytes@);
    out
}

/// A secret shared with the peer.
pub struct SharedSecret {
    bytes: Vec<u8>,
}

impl View for SharedSecret {
    type V = Seq<u8>;

    closed spec fn view(&self) -> Seq<u8> {
        self.bytes@
    }
}

impl SharedSecret {
    /// A shared secret with the given bytes.
    pub fn new(bytes: Vec<u8>) -> (r: Self)
        ensures
            r@ == bytes@,
    {
        SharedSecret { bytes }
    }

    /// The bytes of the secret.
    pub fn secret_bytes(&self) -> (r: &[u8])
        ensures
            r@ == self@,
    {
        self.bytes.as_slice()
    }
}

impl Drop for SharedSecret {
    fn drop(&mut self)
        opens_invariants none
        no_unwind
    {
        zeroize(&mut self.bytes);
    }
}

/// The data that goes into the exchange hash, until its hash function is known.
pub struct HandshakeBuffer {
    bytes: Vec<u8>,
}

impl View for HandshakeBuffer {
    type V = Seq<u8>;

    closed spec fn view(&self) -> Seq<u8> {
        self.bytes@
    }
}

impl Default for HandshakeBuffer {
    fn default() -> (r: Self)
        ensures
            r@ == Seq::<u8>::empty(),
    {
        HandshakeBuffer { bytes: Vec::new() }
    }
}

impl HandshakeBuffer {
    /// Add `bytes`.
    pub fn update(&mut self, bytes: &[u8])
        ensures
            final(self)@ == old(self)@ + bytes@,
    {
        put(&mut self.bytes, bytes);
    }

    /// Add `bytes` behind their length.
    pub fn prefixed(&mut self, bytes: &[u8])
        ensures
            final(self)@ == old(self)@ + string_wire(bytes@),
    {
        bytes.encode(&mut self.bytes);
    }

    /// Go on with the hash function.
    pub fn hash(self, hash: HashFunction) -> (r: HandshakeHash)
        ensures
            r@ == self@,
            r.algorithm() == hash,
    {
        HandshakeHash { hash, bytes: self.bytes }
    }
}

/// An exchange hash in progress.
pub struct HandshakeHash {
    hash: HashFunction,
    bytes: Vec<u8>,
}

impl View for HandshakeHash {
    type V = Seq<u8>;

    closed spec fn view(&self) -> Seq<u8> {
        self.bytes@
    }
}

impl HandshakeHash {
    /// The hash function.
    pub closed spec fn algorithm(&self) -> HashFunction {
        self.hash
    }

    /// Add `bytes`.
    pub fn update(&mut self, bytes: &[u8])
        ensures
            final(self)@ == old(self)@ + bytes@,
            final(self).algorithm() == old(self).algorithm(),
    {
        put(&mut self.bytes, bytes);
    }

    /// Add `bytes` behind their length.
    pub fn prefixed(&mut self, bytes: &[u8])
        ensures
            final(self)@ == old(self)@ + string_wire(bytes@),
            final(self).algorithm() == old(self).algorithm(),
    {
        bytes.encode(&mut self.bytes);
    }

    /// The hash of all that was added.
    pub fn finish(self) -> (r: Digest)
        ensures
            r@ == self.algorithm().0.spec_digest(self@),
    {
        Digest { bytes: self.hash.0.digest(self.bytes.as_slice()) }
    }
}

/// What the keys of a connection are derived from.
///
/// See <https://www.rfc-editor.org/rfc/rfc4253#section-7.2>.
pub struct KeyDerivation {
    /// The hash function of the key exchange.
    pub hash: HashFunction,
    /// The shared secret, encoded as it goes into hashes.
    pub shared_secret: SharedSecret,
    /// The exchange hash.
    pub exchange_hash: Digest,
    /// The session identifier: the exchange hash of the first key exchange.
    pub session_id: Digest,
}

/// At least `len` bytes of key material of which `material` is the start: more is made by
/// hashing the secrets together with what there is so far.
pub open spec fn extended(
    hash: HashFunction,
    secrets: Seq<u8>,
    material: Seq<u8>,
    len: nat,
) -> Seq<u8>
    decreases
            if material.len() < len {
                len - material.len()
            } else {
                0
            },
{
    let more = hash.0.spec_digest(secrets + material);
    if material.len() >= len || more.len() == 0 {
        material
    } else {
        extended(hash, secrets, material + more, len)
    }
}

/// What the keys of a connection are derived from.
pub struct KeyDerivationView {
    /// The hash function of the key exchange.
    pub hash: HashFunction,
    /// The shared secret, encoded as it goes into hashes.
    pub shared_secret: Seq<u8>,
    /// The exchange hash.
    pub exchange_hash: Seq<u8>,
    /// The session identifier: the exchange hash of the first key exchange.
    pub session_id: Seq<u8>,
}

impl View for KeyDerivation {
    type V = KeyDerivationView;

    open spec fn view(&self) -> KeyDerivationView {
        KeyDerivationView {
            hash: self.hash,
            shared_secret: self.shared_secret@,
            exchange_hash: self.exchange_hash@,
            session_id: self.session_id@,
        }
    }
}

impl KeyDerivationView {
    /// The secrets that go into every hash.
    pub open spec fn secrets(self) -> Seq<u8> {
        self.shared_secret + self.exchange_hash
    }

    /// The key material for the purpose that `letter` stands for.
    pub open spec fn key(self, letter: u8, len: nat) -> Seq<u8> {
        let first = self.hash.0.spec_digest(self.secrets() + seq![letter] + self.session_id);
        extended(self.hash, self.secrets(), first, len).take(len as int)
    }
}

impl KeyDerivation {
    /// Derive `len` bytes of key material for the purpose that `letter` stands for.
    pub fn key(&self, letter: u8, len: usize) -> (r: Vec<u8>)
        ensures
            r@ == self@.key(letter, len as nat),
            r@.len() == len,
    {
        let mut input: Vec<u8> = Vec::new();
        put(&mut input, self.shared_secret.secret_bytes());
        put(&mut input, self.exchange_hash.as_bytes());
        assert(input@ =~= self@.secrets());
        let mut first: Vec<u8> = copied(input.as_slice());
        first.push(letter);
        put(&mut first, self.session_id.as_bytes());
        assert(first@ =~= self@.secrets() + seq![letter] + self.session_id@);
        let mut material = self.hash.0.digest(first.as_slice());
        while material.len() < len
            invariant
                input@ == self@.secrets(),
                extended(
                    self.hash,
                    self@.secrets(),
                    self.hash.0.spec_digest(self@.secrets() + seq![letter] + self.session_id@),
                    len as nat,
                ) == extended(self.hash, self@.secrets(), material@, len as nat),
            decreases
                    if material@.len() < len {
                        len - material@.len()
                    } else {
                        0
                    },
        {
            let mut next: Vec<u8> = copied(input.as_slice());
            put(&mut next, material.as_slice());
            let more = self.hash.0.digest(next.as_slice());
            put(&mut material, more.as_slice());
        }
        material.truncate(len);
        assert(material@ =~= self@.key(letter, len as nat));
        material
    }
}

/// The key material for one direction of a connection.
#[derive(Debug)]
pub struct KeySourceSide {
    /// The encryption algorithm.
    pub algorithm: EncryptionAlgorithm<'static>,
    /// The initial value of the initialization vector.
    pub initial_iv: Vec<u8>,
    /// The encryption key.
    pub encryption_key: Vec<u8>,
}

/// What a [`KeySourceSide`] holds.
pub struct KeySourceSideView {
    /// The encryption algorithm.
    pub algorithm: EncryptionAlgorithmView,
    /// The initial value of the initialization vector.
    pub initial_iv: Seq<u8>,
    /// The encryption key.
    pub encryption_key: Seq<u8>,
}

impl View for KeySourceSide {
    type V = KeySourceSideView;

    open spec fn view(&self) -> KeySourceSideView {
        KeySourceSideView {
            algorithm: self.algorithm@,
            initial_iv: self.initial_iv@,
            encryption_key: self.encryption_key@,
        }
    }
}

impl KeySourceSide {
    /// The key material that the derivation gives for a direction of the connection.
    pub open spec fn derived(
        &self,
        derivation: KeyDerivationView,
        algorithm: EncryptionAlgorithmView,
        iv_letter: u8,
        key_letter: u8,
    ) -> bool {
        match algorithm.key_lengths() {
            Some(lengths) => {
                &&& self.algorithm@ == algorithm
                &&& self.initial_iv@.len() == lengths.iv_len
                &&& self.encryption_key@.len() == lengths.key_len
                &&& self.initial_iv@ == derivation.key(iv_letter, lengths.iv_len as nat)
                &&& self.encryption_key@ == derivation.key(key_letter, lengths.key_len as nat)
            },
            None => false,
        }
    }

    fn derive(
        derivation: &KeyDerivation,
        algorithm: EncryptionAlgorithm<'static>,
        iv_letter: u8,
        key_letter: u8,
    ) -> (r: Result<Self, CryptoError>)
        ensures
            match r {
                Ok(side) => side.derived(derivation@, algorithm@, iv_letter, key_letter),
                Err(e) => algorithm@.key_lengths() is None && e == CryptoError::UnknownAlgorithm,
            },
    {
        let Some(KeyLengths { key_len, iv_len }) = algorithm.lengths() else {
            return Err(CryptoError::UnknownAlgorithm);
        };

        let initial_iv = derivation.key(iv_letter, iv_len);
        let encryption_key = derivation.key(key_letter, key_len);
        Ok(KeySourceSide { algorithm, initial_iv, encryption_key })
    }

    /// The key material for packets from the client to the server.
    pub fn client_to_server(
        derivation: &KeyDerivation,
        algorithm: EncryptionAlgorithm<'static>,
    ) -> (r: Result<Self, CryptoError>)
        ensures
            match r {
                Ok(side) => side.derived(derivation@, algorithm@, 65, 67),
                Err(e) => algorithm@.key_lengths() is None && e == CryptoError::UnknownAlgorithm,
            },
    {
        KeySourceSide::derive(derivation, algorithm, 65, 67)
    }

    /// The key material for packets from the server to the client.
    pub fn server_to_client(
        derivation: &KeyDerivation,
        algorithm: EncryptionAlgorithm<'static>,
    ) -> (r: Result<Self, CryptoError>)
        ensures
            match r {
                Ok(side) => side.derived(derivation@, algorithm@, 66, 68),
                Err(e) => algorithm@.key_lengths() is None && e == CryptoError::UnknownAlgorithm,
            },
    {
        KeySourceSide::derive(derivation, algorithm, 66, 68)
    }
}

} // verus!
