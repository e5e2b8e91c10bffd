//! The configuration of a server.

use vstd::prelude::*;

use crate::named::{Named, PublicKeyAlgorithm};

verus! {

/// Additional configuration for the SSH server.
#[non_exhaustive]
#[derive(Debug)]
pub struct Config {
    /// Whether to spawn a child process for each authenticated session.
    pub spawn: bool,
}

impl Default for Config {
    fn default() -> (r: Self)
        ensures
            r.spawn,
    {
        Config { spawn: true }
    }
}

/// The algorithm with the given name, for which a host key is to be made.
pub fn host_key_type(name: &str) -> (r: Result<PublicKeyAlgorithm<'static>, String>)
    ensures
        match r {
            Ok(algorithm) => algorithm@ == PublicKeyAlgorithm::spec_typed(name@) && !(
            algorithm@ is Unknown),
            Err(message) => PublicKeyAlgorithm::spec_typed(name@) is Unknown && message@
                == "unsupported host key type `"@ + name@ + "`"@,
        },
{
    match PublicKeyAlgorithm::typed(name) {
        PublicKeyAlgorithm::Unknown(_) => {
            let mut message = "unsupported host key type `".to_owned();
            message.append(name);
            message.append("`");
            Err(message)
        },
        algorithm => Ok(algorithm.to_owned()),
    }
}

} // verus!
