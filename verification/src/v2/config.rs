//! Configuration builder for a [`Client`](crate::v2::Client).

use vstd::prelude::*;

use crate::errors::Error;
use crate::mediatypes::MediaTypes;
use crate::v2::Client;

verus! {

/// Accumulates client settings; `build` consumes it to yield a
/// [`Client`].
#[derive(Debug, Clone)]
pub struct Config {
    pub index: String,
    pub insecure_registry: bool,
    pub user_agent: Option<String>,
    pub username: Option<String>,
    pub password: Option<String>,
    pub accepted_types: Option<Vec<(MediaTypes, Option<u8>)>>,
}

/// Quality values are tenths, from `0` (that is `q=0.0`) to `10`
/// (that is `q=1.0`).
pub open spec fn spec_accepted_wf(types: Seq<(MediaTypes, Option<u8>)>) -> bool {
    forall|i: int|
        0 <= i < types.len() ==> match (#[trigger] types[i]).1 {
            Some(q) => q <= 10,
            None => true,
        }
}

/// The media types requested for manifests when the caller does not
/// override them: schema 2 at `q=0.5`, then signed schema 1 at `q=0.4`.
pub open spec fn spec_default_accepted() -> Seq<(MediaTypes, Option<u8>)> {
    seq![
        (MediaTypes::ManifestV2S2, Some(5u8)),
        (MediaTypes::ManifestV2S1Signed, Some(4u8)),
    ]
}

impl Config {
    /// Initialize a `Config` with default values: Docker Hub registry,
    /// secure transport, the library's user-agent, no credentials.
    pub fn default() -> (r: Config)
        ensures
            r.index@ == "registry-1.docker.io"@,
            !r.insecure_registry,
            r.user_agent matches Some(ua) && ua@ == "camallo-dkregistry/0.0"@,
            r.username is None,
            r.password is None,
            r.accepted_types is None,
    {
        Config {
            index: String::from_str("registry-1.docker.io"),
            insecure_registry: false,
            user_agent: Some(crate::default_user_agent()),
            username: None,
            password: None,
            accepted_types: None,
        }
    }

    /// Set registry service to use (vhost or IP).
    pub fn registry(self, reg: &str) -> (r: Self)
        ensures
            r.index@ == reg@,
            r.insecure_registry == self.insecure_registry,
            r.user_agent == self.user_agent,
            r.username == self.username,
            r.password == self.password,
            r.accepted_types == self.accepted_types,
    {
        Config { index: String::from_str(reg), ..self }
    }

    /// Whether to use an insecure HTTP connection to the registry.
    pub fn insecure_registry(self, insecure: bool) -> (r: Self)
        ensures
            r.insecure_registry == insecure,
            r.index == self.index,
            r.user_agent == self.user_agent,
            r.username == self.username,
            r.password == self.password,
            r.accepted_types == self.accepted_types,
    {
        Config { insecure_registry: insecure, ..self }
    }

    /// Set the user-agent to be used for registry authentication.
    pub fn user_agent(self, user_agent: Option<String>) -> (r: Self)
        ensures
            r.user_agent == user_agent,
            r.index == self.index,
            r.insecure_registry == self.insecure_registry,
            r.username == self.username,
            r.password == self.password,
            r.accepted_types == self.accepted_types,
    {
        Config { user_agent, ..self }
    }

    /// Set the username to be used for registry authentication.
    pub fn username(self, user: Option<String>) -> (r: Self)
        ensures
            r.username == user,
            r.index == self.index,
            r.insecure_registry == self.insecure_registry,
            r.user_agent == self.user_agent,
            r.password == self.password,
            r.accepted_types == self.accepted_types,
    {
        Config { username: user, ..self }
    }

    /// Set the password to be used for registry authentication.
    pub fn password(self, password: Option<String>) -> (r: Self)
        ensures
            r.password == password,
            r.index == self.index,
            r.insecure_registry == self.insecure_registry,
            r.user_agent == self.user_agent,
            r.username == self.username,
            r.accepted_types == self.accepted_types,
    {
        Config { password, ..self }
    }

    /// Override the accepted media types used for manifest requests.
    pub fn accepted_types(self, accepted_types: Option<Vec<(MediaTypes, Option<u8>)>>) -> (r:
        Self)
        requires
            accepted_types matches Some(ts) ==> spec_accepted_wf(ts@),
        ensures
            r.accepted_types == accepted_types,
            r.index == self.index,
            r.insecure_registry == self.insecure_registry,
            r.user_agent == self.user_agent,
            r.username == self.username,
            r.password == self.password,
    {
        Config { accepted_types, ..self }
    }

    /// The registry host this configuration points at.
    pub fn index(&self) -> (r: &String)
        ensures
            r == &self.index,
    {
        &self.index
    }

    /// Return a [`Client`] for the configured registry.
    ///
    /// The base URL uses `https://` unless an insecure registry was
    /// requested; a credentials pair is kept only when at least one of
    /// username and password was set, the missing half defaulting to
    /// the empty string.
    pub fn build(self) -> (r: Result<Client, Error>)
        ensures
            r is Ok,
            r matches Ok(c) ==> {
                &&& c.base_url@ == (if self.insecure_registry {
                    "http://"@
                } else {
                    "https://"@
                }) + self.index@
                &&& (self.username is None && self.password is None) ==> c.credentials is None
                &&& (self.username is Some || self.password is Some) ==> {
                    &&& c.credentials matches Some(cr)
                    &&& cr.0@ == (match self.username {
                        Some(u) => u@,
                        None => Seq::<char>::empty(),
                    })
                    &&& cr.1@ == (match self.password {
                        Some(p) => p@,
                        None => Seq::<char>::empty(),
                    })
                }
                &&& c.user_agent == self.user_agent
                &&& c.token is None
                &&& c.accepted_types@ == (match self.accepted_types {
                    Some(ts) => ts@,
                    None => spec_default_accepted(),
                })
            },
    {
        let scheme = if self.insecure_registry {
            "http://"
        } else {
            "https://"
        };
        let mut base = String::from_str(scheme);
        base.append(self.index.as_str());
        let credentials = match (self.username, self.password) {
            (None, None) => None,
            (Some(u), None) => Some((u, String::new())),
            (None, Some(p)) => Some((String::new(), p)),
            (Some(u), Some(p)) => Some((u, p)),
        };
        let accepted_types = match self.accepted_types {
            Some(ts) => ts,
            None => {
                let mut ts: Vec<(MediaTypes, Option<u8>)> = Vec::new();
                ts.push((MediaTypes::ManifestV2S2, Some(5)));
                ts.push((MediaTypes::ManifestV2S1Signed, Some(4)));
                proof {
                    assert(ts@ =~= spec_default_accepted());
                }
                ts
            },
        };
        Ok(
            Client {
                base_url: base,
                credentials,
                user_agent: self.user_agent,
                token: None,
                accepted_types,
            },
        )
    }
}

} // verus!
