//! The C99 provider: the only credentialed source.  Its credential is looked
//! up at invocation time, and its JSON payload carries an optional list of
//! items each holding one subdomain.

use vstd::prelude::*;
use vstd::string::StringExecFns;
use reqwest::Client;
use crate::client::default_client;
use crate::error::SubError;
use crate::strings::str_views;

verus! {

/// The credential this source needs.
pub struct Creds {
    pub key: String,
}

impl Creds {
    /// Resolves the credential from the value an external lookup produced; a
    /// missing value is a recoverable failure naming the unset key.
    pub fn read_creds(lookup: Option<String>) -> (r: Result<Creds, SubError>)
        ensures
            match r {
                Ok(c) => lookup matches Some(k) && c.key == k,
                Err(e) => lookup is None && (e matches SubError::UnsetKeys(v) && str_views(v@)
                    == seq!["C99_KEY"@]),
            },
    {
        match lookup {
            Some(key) => Ok(Creds { key }),
            None => {
                let mut keys: Vec<String> = Vec::new();
                keys.push(String::from_str("C99_KEY"));
                proof {
                    assert(str_views(keys@) =~= seq!["C99_KEY"@]);
                }
                Err(SubError::UnsetKeys(keys))
            },
        }
    }
}

/// One entry of the provider's payload.
pub struct C99Item {
    pub subdomain: String,
}

/// The provider's payload: a nullable list of items.
pub struct C99Result {
    pub subdomains: Option<Vec<C99Item>>,
}

impl C99Result {
    /// The names the payload carries, in order; a null container carries
    /// none.
    pub open spec fn spec_subdomains(self) -> Seq<Seq<char>> {
        match self.subdomains {
            Some(items) => items@.map_values(|it: C99Item| it.subdomain@),
            None => Seq::empty(),
        }
    }

    /// Normalizes the payload into a flat list of names.
    pub fn subdomains(&self) -> (r: Vec<String>)
        ensures
            str_views(r@) == self.spec_subdomains(),
    {
        let mut out: Vec<String> = Vec::new();
        match &self.subdomains {
            Some(items) => {
                let ghost all = items@.map_values(|it: C99Item| it.subdomain@);
                let mut i: usize = 0;
                proof {
                    assert(str_views(out@) =~= all.take(0));
                }
                while i < items.len()
                    invariant
                        all == items@.map_values(|it: C99Item| it.subdomain@),
                        0 <= i <= items@.len(),
                        str_views(out@) == all.take(i as int),
                    decreases items@.len() - i,
                {
                    let ghost prev = str_views(out@);
                    out.push(items[i].subdomain.clone());
                    proof {
                        assert(str_views(out@) =~= prev.push(all[i as int]));
                        assert(all.take(i + 1) =~= all.take(i as int).push(all[i as int]));
                    }
                    i = i + 1;
                }
                proof {
                    assert(all.take(items@.len() as int) =~= all);
                }
            },
            None => {
                proof {
                    assert(str_views(out@) =~= Seq::<Seq<char>>::empty());
                }
            },
        }
        out
    }
}

/// Queries C99's subdomain-finder endpoint.
pub struct C99 {
    client: Client,
}

impl C99 {
    /// An adapter over the shared client handle.
    pub fn new(client: Client) -> Self {
        Self { client }
    }

    /// The query URL for one host under the given credential.
    pub fn build_url(&self, host: &str, api_key: &str) -> (r: String)
        ensures
            r@ == "https://api.c99.nl/subdomainfinder?key="@ + api_key@ + "&domain="@ + host@
                + "&json"@,
    {
        let s = String::from_str("https://api.c99.nl/subdomainfinder?key=");
        let s = s.concat(api_key);
        let s = s.concat("&domain=");
        let s = s.concat(host);
        s.concat("&json")
    }

    /// The decision after one fetch: only a successful response whose payload
    /// carries at least one name yields a batch; anything else is the "no
    /// usable data" failure, indistinguishable from a provider being down.
    pub fn evaluate_response(status_success: bool, resp: Option<C99Result>) -> (r: Result<
        Vec<String>,
        SubError,
    >)
        ensures
            match r {
                Ok(batch) => {
                    &&& status_success
                    &&& resp matches Some(p) && p.spec_subdomains().len() > 0 && str_views(batch@)
                        == p.spec_subdomains()
                },
                Err(e) => {
                    &&& !status_success || resp is None || (resp matches Some(p)
                        && p.spec_subdomains().len() == 0)
                    &&& e matches SubError::SourceError(n) && n@ == "C99"@
                },
            },
    {
        if status_success {
            if let Some(parsed) = resp {
                let subdomains = parsed.subdomains();
                if subdomains.len() > 0 {
                    proof {
                        assert(str_views(subdomains@).len() == subdomains@.len());
                    }
                    return Ok(subdomains);
                }
                proof {
                    assert(str_views(subdomains@).len() == subdomains@.len());
                }
            }
        }
        Err(SubError::SourceError(String::from_str("C99")))
    }
}

impl Default for C99 {
    /// An adapter over a freshly built default client.
    fn default() -> Self {
        Self { client: default_client() }
    }
}

} // verus!
