//! The ThreatCrowd provider: its JSON payload carries a nullable list of
//! subdomain names.

use vstd::prelude::*;
use vstd::string::StringExecFns;
use reqwest::Client;
use crate::client::default_client;
use crate::error::SubError;
use crate::strings::{clone_strings, str_views};

verus! {

/// The provider's payload: a nullable list of names.
pub struct ThreatCrowdResult {
    pub subdomains: Option<Vec<String>>,
}

impl ThreatCrowdResult {
    /// The names the payload carries, in order; a null container carries
    /// none.
    pub open spec fn spec_subdomains(self) -> Seq<Seq<char>> {
        match self.subdomains {
            Some(names) => str_views(names@),
            None => Seq::empty(),
        }
    }

    /// Normalizes the payload into a flat list of names.
    pub fn subdomains(&self) -> (r: Vec<String>)
        ensures
            str_views(r@) == self.spec_subdomains(),
    {
        match &self.subdomains {
            Some(names) => clone_strings(names),
            None => {
                let out: Vec<String> = Vec::new();
                proof {
                    assert(str_views(out@) =~= Seq::<Seq<char>>::empty());
                }
                out
            },
        }
    }
}

/// Queries ThreatCrowd's domain-report endpoint.
pub struct ThreatCrowd {
    client: Client,
}

impl ThreatCrowd {
    /// An adapter over the shared client handle.
    pub fn new(client: Client) -> Self {
        Self { client }
    }

    /// The query URL for one host.
    pub fn build_url(&self, host: &str) -> (r: String)
        ensures
            r@ == "https://www.threatcrowd.org/searchApi/v2/domain/report/?domain="@ + host@,
    {
        let base = String::from_str("https://www.threatcrowd.org/searchApi/v2/domain/report/?domain=");
        base.concat(host)
    }

    /// The decision after one fetch: a payload with at least one name yields
    /// a batch; an empty or null one is the "no usable data" failure.
    pub fn evaluate_response(resp: ThreatCrowdResult) -> (r: Result<Vec<String>, SubError>)
        ensures
            match r {
                Ok(batch) => resp.spec_subdomains().len() > 0 && str_views(batch@)
                    == resp.spec_subdomains(),
                Err(e) => resp.spec_subdomains().len() == 0 && (e
                    matches SubError::SourceError(n) && n@ == "ThreatCrowd"@),
            },
    {
        let subdomains = resp.subdomains();
        proof {
            assert(str_views(subdomains@).len() == subdomains@.len());
        }
        if subdomains.len() > 0 {
            Ok(subdomains)
        } else {
            Err(SubError::SourceError(String::from_str("ThreatCrowd")))
        }
    }
}

impl Default for ThreatCrowd {
    /// An adapter over a freshly built default client.
    fn default() -> Self {
        Self { client: default_client() }
    }
}

} // verus!
