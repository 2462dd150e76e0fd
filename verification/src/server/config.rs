//! Server configuration.
use vstd::prelude::*;

verus! {

/// The server's configuration.
#[derive(Debug, Clone)]
pub struct Config {
    pub database_url: Option<String>,
    pub openai_api_key: Option<String>,
    pub listen_addr: String,
    pub futureauth_api_url: String,
    pub futureauth_secret_key: Option<String>,
}

/// The address the server listens on: `LISTEN_ADDR` if set, else all
/// interfaces on `PORT`, whose default is 3000.
pub open spec fn listen_addr_of(listen_addr: Option<Seq<char>>, port: Option<Seq<char>>) -> Seq<char> {
    match listen_addr {
        Some(a) => a,
        None => "0.0.0.0:"@ + match port {
            Some(p) => p,
            None => "3000"@,
        },
    }
}

/// A given `LISTEN_ADDR` is the listen address as it stands, whatever `PORT`
/// is; without it the server listens on all interfaces (`0.0.0.0`) on the
/// given port, or on port 3000.
pub proof fn law_listen_addr(addr: Seq<char>, port: Option<Seq<char>>, p: Seq<char>)
    ensures
        listen_addr_of(Some(addr), port) == addr,
        listen_addr_of(None, Some(p)) == "0.0.0.0:"@ + p,
        listen_addr_of(None, None) == "0.0.0.0:3000"@,
{
    reveal_strlit("0.0.0.0:");
    reveal_strlit("3000");
    reveal_strlit("0.0.0.0:3000");
    assert("0.0.0.0:"@ + "3000"@ =~= "0.0.0.0:3000"@);
}

/// The FutureAuth service used when none is configured.
pub open spec fn default_futureauth_url() -> Seq<char> {
    "https://future-auth.com"@
}

impl Config {
    /// The configuration the environment selects, from the values of
    /// `DATABASE_URL`, `OPENAI_API_KEY`, `LISTEN_ADDR`, `PORT`,
    /// `FUTUREAUTH_API_URL` and `FUTUREAUTH_SECRET_KEY`. An empty OpenAI key
    /// counts as none.
    pub fn from_env_values(
        database_url: Option<String>,
        openai_api_key: Option<String>,
        listen_addr: Option<String>,
        port: Option<String>,
        futureauth_api_url: Option<String>,
        futureauth_secret_key: Option<String>,
    ) -> (c: Config)
        ensures
            c.database_url == database_url,
            c.openai_api_key == match openai_api_key {
                Some(k) => if k@.len() == 0 {
                    None
                } else {
                    Some(k)
                },
                None => None,
            },
            c.listen_addr@ == listen_addr_of(listen_addr.deep_view(), port.deep_view()),
            c.futureauth_api_url@ == match futureauth_api_url {
                Some(u) => u@,
                None => default_futureauth_url(),
            },
            c.futureauth_secret_key == futureauth_secret_key,
    {
        let openai = match openai_api_key {
            Some(k) => if k.as_str().is_empty() {
                None
            } else {
                Some(k)
            },
            None => None,
        };
        let addr = match listen_addr {
            Some(a) => a,
            None => {
                let mut a = String::from_str("0.0.0.0:");
                match &port {
                    Some(p) => a.append(p.as_str()),
                    None => a.append("3000"),
                }
                a
            },
        };
        let fa_url = match futureauth_api_url {
            Some(u) => u,
            None => String::from_str("https://future-auth.com"),
        };
        Config {
            database_url,
            openai_api_key: openai,
            listen_addr: addr,
            futureauth_api_url: fa_url,
            futureauth_secret_key,
        }
    }

    pub fn has_db(&self) -> (r: bool)
        ensures
            r == self.database_url is Some,
    {
        self.database_url.is_some()
    }

    pub fn has_auth(&self) -> (r: bool)
        ensures
            r == (self.database_url is Some && self.futureauth_secret_key is Some),
    {
        self.database_url.is_some() && self.futureauth_secret_key.is_some()
    }

    pub fn has_eval(&self) -> (r: bool)
        ensures
            r == self.openai_api_key is Some,
    {
        self.openai_api_key.is_some()
    }
}

} // verus!
