//! The ThreatMiner provider: its JSON payload is a nullable container whose
//! `results` list already holds plain subdomain names.

use vstd::prelude::*;
use vstd::string::StringExecFns;
use reqwest::Client;
use crate::client::default_client;
use crate::error::SubError;
use crate::strings::{clone_strings, str_views};

verus! {

/// The provider's payload.
pub struct ThreatminerResult {
    pub results: Vec<String>,
}

impl ThreatminerResult {
    /// The names the payload carries, in order.
    pub open spec fn spec_subdomains(self) -> Seq<Seq<char>> {
        str_views(self.results@)
    }

    /// Normalizes the payload into a flat list of names.
    pub fn subdomains(&self) -> (r: Vec<String>)
        ensures
            str_views(r@) == self.spec_subdomains(),
    {
        clone_strings(&self.results)
    }
}

/// Queries ThreatMiner's domain endpoint.
pub struct ThreatMiner {
    client: Client,
}

impl ThreatMiner {
    /// An adapter over the shared client handle.
    pub fn new(client: Client) -> Self {
        Self { client }
    }

    /// The query URL for one host.
    pub fn build_url(&self, host: &str) -> (r: String)
        ensures
            r@ == "https://api.threatminer.org/v2/domain.php?q="@ + host@ + "&api=True&rt=5"@,
    {
        let base = String::from_str("https://api.threatminer.org/v2/domain.php?q=");
        let s = base.concat(host);
        s.concat("&api=True&rt=5")
    }

    /// The decision after one fetch: a non-null payload with at least one
    /// name yields a batch; a null or empty one is the "no usable data"
    /// failure.
    pub fn evaluate_response(resp: Option<ThreatminerResult>) -> (r: Result<Vec<String>, SubError>)
        ensures
            match r {
                Ok(batch) => {
                    &&& resp matches Some(p) && p.spec_subdomains().len() > 0 && str_views(batch@)
                        == p.spec_subdomains()
                },
                Err(e) => {
                    &&& resp is None || (resp matches Some(p) && p.spec_subdomains().len() == 0)
                    &&& e matches SubError::SourceError(n) && n@ == "ThreatMiner"@
                },
            },
    {
        if let Some(data) = resp {
            let subdomains = data.subdomains();
            proof {
                assert(str_views(subdomains@).len() == subdomains@.len());
            }
            if subdomains.len() > 0 {
                return Ok(subdomains);
            }
        }
        Err(SubError::SourceError(String::from_str("ThreatMiner")))
    }
}

impl Default for ThreatMiner {
    /// An adapter over a freshly built default client.
    fn default() -> Self {
        Self { client: default_client() }
    }
}

} // verus!
