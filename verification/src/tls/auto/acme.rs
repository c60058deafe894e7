//! The Let's Encrypt side of automatic TLS.
use vstd::prelude::*;

verus! {

/// The Let's Encrypt environment.
pub enum Environment {
    /// The staging environment, for tests; its certificates are not valid.
    Staging,
    /// The production environment, which issues valid certificates.
    Production,
}

impl Environment {
    /// The URL of the environment's ACME directory.
    pub fn url(&self) -> (res: String)
        ensures
            res@ == match self {
                Environment::Staging => "https://acme-staging-v02.api.letsencrypt.org/directory"@,
                Environment::Production => "https://acme-v02.api.letsencrypt.org/directory"@,
            },
    {
        match self {
            Environment::Staging => "https://acme-staging-v02.api.letsencrypt.org/directory".to_owned(),
            Environment::Production => "https://acme-v02.api.letsencrypt.org/directory".to_owned(),
        }
    }
}

/// A pending ACME challenge: its token and the key that answers it.
pub struct PendingTLS {
    token: String,
    key: String,
}

impl PendingTLS {
    /// The token of the challenge.
    pub closed spec fn spec_token(&self) -> Seq<char> {
        self.token@
    }

    /// The key that answers the challenge.
    pub closed spec fn spec_key(&self) -> Seq<char> {
        self.key@
    }

    /// Creates a pending challenge.
    pub fn new(key: String, token: String) -> (res: Self)
        ensures
            res.spec_key() == key@,
            res.spec_token() == token@,
    {
        Self { token, key }
    }

    /// The token, the id of the challenge.
    pub fn token(&self) -> (res: &str)
        ensures
            res@ == self.spec_token(),
    {
        self.token.as_str()
    }

    /// The key that answers the challenge.
    pub fn key(&self) -> (res: &str)
        ensures
            res@ == self.spec_key(),
    {
        self.key.as_str()
    }
}

} // verus!
