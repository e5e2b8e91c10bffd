//! The keys that identify a server.

use vstd::prelude::*;

use crate::crypto::{Provider, Signer};
use crate::error::{CryptoError, ProtoError};
use crate::named::{views, Named, PublicKeyAlgorithm, PublicKeyAlgorithmView};
use crate::text::{same_text, strip_prefix, without_prefix};
use crate::wire::{parse_string, string_round_trip, string_wire, Decode, Decoded, Encode};

verus! {

/// A host key and its private value.
pub struct HostKey {
    /// The private value, encoded as in PKCS #8.
    pub pkcs8: Vec<u8>,
    /// The key.
    pub key: Signer,
}

/// The host keys of a server.
pub struct HostKeys {
    /// The keys, in order of preference.
    pub keys: Vec<HostKey>,
}

/// The algorithms of host keys.
pub open spec fn host_key_algorithms(keys: Seq<HostKey>) -> Seq<PublicKeyAlgorithmView> {
    keys.map_values(|key: HostKey| key.key.0.spec_algorithm())
}

/// The first of the private values that cannot be used, and why.
pub open spec fn unusable(provider: Provider<'_>, private: Seq<Vec<u8>>, i: int) -> Option<
    ProtoError,
>
    decreases private.len() - i,
{
    if i >= private.len() {
        None
    } else {
        match provider.0.spec_signing_key(private[i]@) {
            Err(e) => Some(ProtoError::Crypto(e)),
            Ok(key) => if key.0.spec_algorithm() is Unknown {
                Some(ProtoError::InvalidHostKey("unsupported host key algorithm"))
            } else {
                unusable(provider, private, i + 1)
            },
        }
    }
}

/// Whether the name is that of a file with a private host key: `ssh_host_`, what it is for, and
/// `_key`.
pub fn is_host_key_file(name: &str) -> (r: bool)
    ensures
        r == ({
            &&& without_prefix(name@, "ssh_host_"@) is Some
            &&& name@.skip(name@.len() - 4) == "_key"@
        }),
{
    proof {
        reveal_strlit("ssh_host_");
    }
    if strip_prefix(name, "ssh_host_").is_none() {
        return false;
    }
    let len: usize = name.unicode_len();
    let end = name.substring_char(len - 4, len);
    assert(end@ =~= name@.skip(len - 4));
    same_text(end, "_key")
}

impl HostKeys {
    /// All algorithms are known, so that every key can be used for signing.
    pub open spec fn wf(&self) -> bool {
        forall|i: int|
            0 <= i < self.keys@.len() ==> !((#[trigger] self.keys@[i]).key.0.spec_algorithm() is Unknown)
    }

    /// Host keys with the given private values, encoded as in PKCS #8.
    pub fn new(private: Vec<Vec<u8>>, provider: Provider<'_>) -> (r: Result<Self, ProtoError>)
        ensures
            match r {
                Ok(host_keys) => {
                    &&& host_keys.wf()
                    &&& private@.len() > 0
                    &&& unusable(provider, private@, 0) is None
                    &&& host_keys.keys@.len() == private@.len()
                    &&& forall|i: int|
                        0 <= i < private@.len() ==> {
                            &&& (#[trigger] host_keys.keys@[i]).pkcs8@ == private@[i]@
                            &&& provider.0.spec_signing_key(private@[i]@) == Ok::<Signer, CryptoError>(
                                host_keys.keys@[i].key,
                            )
                        }
                },
                Err(e) => if private@.len() == 0 {
                    e == ProtoError::NoHostKeys
                } else {
                    unusable(provider, private@, 0) == Some(e)
                },
            },
    {
        if private.len() == 0 {
            return Err(ProtoError::NoHostKeys);
        }
        let mut keys: Vec<HostKey> = Vec::new();
        let mut i: usize = 0;
        while i < private.len()
            invariant
                private@.len() > 0,
                i <= private@.len(),
                keys@.len() == i,
                unusable(provider, private@, 0) == unusable(provider, private@, i as int),
                forall|j: int|
                    0 <= j < i ==> {
                        &&& (#[trigger] keys@[j]).pkcs8@ == private@[j]@
                        &&& !(keys@[j].key.0.spec_algorithm() is Unknown)
                        &&& provider.0.spec_signing_key(private@[j]@) == Ok::<Signer, CryptoError>(
                            keys@[j].key,
                        )
                    },
            decreases private@.len() - i,
        {
            let pkcs8 = crate::crypto::copied(private[i].as_slice());
            let key = match provider.0.signing_key(pkcs8.as_slice()) {
                Ok(key) => key,
                Err(e) => return Err(ProtoError::Crypto(e)),
            };
            if let PublicKeyAlgorithm::Unknown(_) = key.0.algorithm() {
                return Err(ProtoError::InvalidHostKey("unsupported host key algorithm"));
            }
            keys.push(HostKey { pkcs8, key });
            i += 1;
        }
        Ok(HostKeys { keys })
    }

    /// The algorithms of the keys.
    pub fn algorithms(&self) -> (r: Vec<PublicKeyAlgorithm<'static>>)
        ensures
            views(r@) == host_key_algorithms(self.keys@),
    {
        let mut out: Vec<PublicKeyAlgorithm<'static>> = Vec::new();
        let mut i: usize = 0;
        while i < self.keys.len()
            invariant
                i <= self.keys@.len(),
                out@.len() == i,
                forall|j: int|
                    0 <= j < i ==> (#[trigger] out@[j])@ == self.keys@[j].key.0.spec_algorithm(),
            decreases self.keys@.len() - i,
        {
            out.push(self.keys[i].key.0.algorithm());
            i += 1;
        }
        assert(views(out@) =~= host_key_algorithms(self.keys@));
        out
    }

    /// The first key with the given algorithm.
    pub open spec fn first_with(&self, algorithm: PublicKeyAlgorithmView, i: int) -> Option<int>
        decreases self.keys@.len() - i,
    {
        if i >= self.keys@.len() {
            None
        } else if self.keys@[i].key.0.spec_algorithm() == algorithm {
            Some(i)
        } else {
            self.first_with(algorithm, i + 1)
        }
    }

    /// The first key with the given algorithm.
    pub fn key(&self, algorithm: &PublicKeyAlgorithm<'_>) -> (r: Result<
        ServerHostKey<'_>,
        CryptoError,
    >)
        ensures
            match r {
                Ok(key) => match self.first_with(algorithm@, 0) {
                    Some(i) => {
                        &&& 0 <= i < self.keys@.len()
                        &&& key.pkcs8@ == self.keys@[i].pkcs8@
                        &&& *key.key == self.keys@[i].key
                        &&& key.key.0.spec_algorithm() == algorithm@
                    },
                    None => false,
                },
                Err(e) => self.first_with(algorithm@, 0) is None && e
                    == CryptoError::UnknownAlgorithm,
            },
    {
        let mut i: usize = 0;
        while i < self.keys.len()
            invariant
                i <= self.keys@.len(),
                self.first_with(algorithm@, 0) == self.first_with(algorithm@, i as int),
            decreases self.keys@.len() - i,
        {
            let found = self.keys[i].key.0.algorithm();
            if found.same(algorithm) {
                let host_key = &self.keys[i];
                return Ok(ServerHostKey { pkcs8: host_key.pkcs8.as_slice(), key: &host_key.key });
            }
            i += 1;
        }
        Err(CryptoError::UnknownAlgorithm)
    }
}

/// A host key in the process that accepted the connection.
pub struct ServerHostKey<'a> {
    /// The private value, encoded as in PKCS #8.
    pub pkcs8: &'a [u8],
    /// The key.
    pub key: &'a Signer,
}

impl Encode for ServerHostKey<'_> {
    open spec fn wire(&self) -> Seq<u8> {
        string_wire(self.pkcs8@)
    }

    fn encode(&self, buf: &mut Vec<u8>) {
        self.pkcs8.encode(buf);
    }
}

/// A host key in the process that runs the session.
pub struct SessionHostKey(pub Signer);

impl SessionHostKey {
    /// What decoding a host key gives.
    pub open spec fn parse(bytes: Seq<u8>, provider: Provider<'_>) -> Result<
        (Signer, Seq<u8>),
        ProtoError,
    > {
        match parse_string(bytes) {
            Err(e) => Err(e),
            Ok((pkcs8, rest)) => match provider.0.spec_signing_key(pkcs8) {
                Err(e) => Err(ProtoError::Crypto(e)),
                Ok(key) => Ok((key, rest)),
            },
        }
    }

    /// Decode a host key from the start of `bytes`.
    pub fn decode<'a>(bytes: &'a [u8], provider: Provider<'_>) -> (r: Result<
        Decoded<'a, Self>,
        ProtoError,
    >)
        ensures
            SessionHostKey::parse(bytes@, provider) == match r {
                Ok(d) => Ok::<(Signer, Seq<u8>), ProtoError>((d.value.0, d.next@)),
                Err(e) => Err::<(Signer, Seq<u8>), ProtoError>(e),
            },
    {
        let Decoded { value: pkcs8, next } = <&[u8]>::decode(bytes)?;
        match provider.0.signing_key(pkcs8) {
            Ok(key) => Ok(Decoded { value: SessionHostKey(key), next }),
            Err(e) => Err(ProtoError::Crypto(e)),
        }
    }

    /// The host key that the accepting process holds, for use in the session.
    pub fn from_server(host_key: ServerHostKey<'_>, provider: Provider<'_>) -> (r: Result<
        Self,
        CryptoError,
    >)
        ensures
            provider.0.spec_signing_key(host_key.pkcs8@) == match r {
                Ok(key) => Ok::<Signer, CryptoError>(key.0),
                Err(e) => Err::<Signer, CryptoError>(e),
            },
    {
        match provider.0.signing_key(host_key.pkcs8) {
            Ok(key) => Ok(SessionHostKey(key)),
            Err(e) => Err(e),
        }
    }

    /// The algorithm of the key.
    pub fn algorithm(&self) -> (r: PublicKeyAlgorithm<'static>)
        ensures
            r@ == self.0.0.spec_algorithm(),
    {
        self.0.0.algorithm()
    }
}

/// A host key that the provider made from its private value is the same key in the session.
pub proof fn host_key_round_trip(
    host_key: ServerHostKey<'_>,
    provider: Provider<'_>,
    rest: Seq<u8>,
)
    requires
        host_key.pkcs8@.len() <= u32::MAX,
        provider.0.spec_signing_key(host_key.pkcs8@) == Ok::<Signer, CryptoError>(*host_key.key),
    ensures
        SessionHostKey::parse(string_wire(host_key.pkcs8@) + rest, provider) == Ok::<
            (Signer, Seq<u8>),
            ProtoError,
        >((*host_key.key, rest)),
{
    string_round_trip(host_key.pkcs8@, rest);
}

} // verus!
