//! The HackerTarget provider: its payload is CSV-like lines of
//! `hostname,address`, normalized by taking the first field of every line.

use vstd::prelude::*;
use vstd::string::{StrSliceExecFns, StringExecFns};
use reqwest::Client;
use crate::client::default_client;
use crate::error::SubError;
use crate::strings::{str_eq, str_views};

verus! {

/// The body this provider returns when a query has no usable data.
pub open spec fn spec_api_error() -> Seq<char> {
    "error check your search parameter"@
}

/// The characters of `s` before its first occurrence of `sep` (all of `s`
/// when `sep` does not occur).
pub open spec fn take_until(s: Seq<char>, sep: char) -> Seq<char>
    decreases s.len(),
{
    if s.len() == 0 {
        s
    } else if s[0] == sep {
        Seq::empty()
    } else {
        seq![s[0]] + take_until(s.drop_first(), sep)
    }
}

/// The prefix never outgrows the string.
pub proof fn lemma_take_until_len(s: Seq<char>, sep: char)
    ensures
        take_until(s, sep).len() <= s.len(),
    decreases s.len(),
{
    if s.len() > 0 && s[0] != sep {
        lemma_take_until_len(s.drop_first(), sep);
    }
}

/// With `k` the index of the first separator (or the length when there is
/// none), the prefix is exactly the first `k` characters.
pub proof fn lemma_take_until_at(s: Seq<char>, sep: char, k: int)
    requires
        0 <= k <= s.len(),
        forall|i: int| 0 <= i < k ==> s[i] != sep,
        k < s.len() ==> s[k] == sep,
    ensures
        take_until(s, sep) == s.take(k),
    decreases s.len(),
{
    if k == 0 {
        assert(s.take(0) =~= Seq::<char>::empty());
        if s.len() > 0 {
            assert(s[0] == sep);
        }
    } else {
        lemma_take_until_at(s.drop_first(), sep, k - 1);
        assert(s.take(k) =~= seq![s[0]] + s.drop_first().take(k - 1));
    }
}

/// A line with a trailing carriage return shed.
pub open spec fn strip_cr(line: Seq<char>) -> Seq<char> {
    if line.len() > 0 && line[line.len() - 1] == '\r' {
        line.drop_last()
    } else {
        line
    }
}

/// The first comma-separated field of every line of the payload: lines end at
/// a line feed (with an optional carriage return before it), and a final line
/// ending is optional.
pub open spec fn subdomain_fields(s: Seq<char>) -> Seq<Seq<char>>
    decreases s.len() via subdomain_fields_decreases
{
    if s.len() == 0 {
        Seq::empty()
    } else {
        let line = take_until(s, '\n');
        let field = take_until(strip_cr(line), ',');
        if line.len() == s.len() {
            seq![field]
        } else {
            seq![field] + subdomain_fields(s.skip(line.len() as int + 1))
        }
    }
}

#[via_fn]
proof fn subdomain_fields_decreases(s: Seq<char>) {
    lemma_take_until_len(s, '\n');
}

/// One raw payload from the provider.
pub struct HTResult {
    pub items: String,
}

impl HTResult {
    /// Wraps one payload for normalization.
    pub fn new(items: String) -> (r: Self)
        ensures
            r.items@ == items@,
    {
        HTResult { items }
    }

    /// Normalizes the payload: the first comma-separated field of every line.
    pub fn subdomains(&self) -> (r: Vec<String>)
        ensures
            str_views(r@) == subdomain_fields(self.items@),
    {
        let s = self.items.as_str();
        let len = s.unicode_len();
        let mut out: Vec<String> = Vec::new();
        let mut pos: usize = 0;
        proof {
            assert(s@.skip(0) =~= s@);
            assert(subdomain_fields(s@) =~= str_views(out@) + subdomain_fields(s@.skip(0)));
        }
        while pos < len
            invariant
                s@ == self.items@,
                len == s@.len(),
                0 <= pos <= len,
                subdomain_fields(s@) == str_views(out@) + subdomain_fields(s@.skip(pos as int)),
            decreases len - pos,
        {
            let ghost oldpos = pos as int;
            let ghost prev = str_views(out@);
            let mut nl: usize = pos;
            while nl < len && s.get_char(nl) != '\n'
                invariant
                    len == s@.len(),
                    pos <= nl <= len,
                    forall|k: int| pos <= k < nl ==> s@[k] != '\n',
                decreases len - nl,
            {
                nl = nl + 1;
            }
            let line_end = if nl > pos && s.get_char(nl - 1) == '\r' {
                nl - 1
            } else {
                nl
            };
            let mut cm: usize = pos;
            while cm < line_end && s.get_char(cm) != ','
                invariant
                    len == s@.len(),
                    line_end <= len,
                    pos <= cm <= line_end,
                    forall|k: int| pos <= k < cm ==> s@[k] != ',',
                decreases line_end - cm,
            {
                cm = cm + 1;
            }
            let field = s.substring_char(pos, cm).to_owned();
            out.push(field);
            pos = if nl < len {
                nl + 1
            } else {
                len
            };
            proof {
                let rem = s@.skip(oldpos);
                assert forall|i: int| 0 <= i < nl - oldpos implies rem[i] != '\n' by {
                    assert(rem[i] == s@[oldpos + i]);
                }
                if nl < len {
                    assert(rem[nl - oldpos] == s@[nl as int]);
                }
                lemma_take_until_at(rem, '\n', nl - oldpos);
                let line = rem.take(nl - oldpos);
                assert(strip_cr(line) =~= rem.take(line_end - oldpos)) by {
                    if nl > oldpos && s@[nl - 1] == '\r' {
                        assert(line[line.len() - 1] == s@[nl - 1]);
                        assert(line.drop_last() =~= rem.take(line_end - oldpos));
                    } else {
                        if line.len() > 0 {
                            assert(line[line.len() - 1] == s@[nl - 1]);
                        }
                    }
                }
                let stripped = rem.take(line_end - oldpos);
                assert forall|i: int| 0 <= i < cm - oldpos implies stripped[i] != ',' by {
                    assert(stripped[i] == s@[oldpos + i]);
                }
                if cm < line_end {
                    assert(stripped[cm - oldpos] == s@[cm as int]);
                }
                lemma_take_until_at(stripped, ',', cm - oldpos);
                assert(take_until(stripped, ',') =~= s@.subrange(oldpos, cm as int)) by {
                    assert(stripped.take(cm - oldpos) =~= s@.subrange(oldpos, cm as int));
                }
                assert(str_views(out@) =~= prev.push(s@.subrange(oldpos, cm as int)));
                if nl == len {
                    assert(line.len() == rem.len());
                    assert(subdomain_fields(rem) =~= seq![s@.subrange(oldpos, cm as int)]);
                    assert(s@.skip(pos as int) =~= Seq::<char>::empty());
                    assert(subdomain_fields(s@.skip(pos as int)) =~= Seq::<Seq<char>>::empty());
                } else {
                    assert(line.len() < rem.len());
                    assert(rem.skip(line.len() as int + 1) =~= s@.skip(pos as int));
                    assert(subdomain_fields(rem) =~= seq![s@.subrange(oldpos, cm as int)]
                        + subdomain_fields(s@.skip(pos as int)));
                }
                assert(subdomain_fields(s@) =~= str_views(out@) + subdomain_fields(
                    s@.skip(pos as int),
                ));
            }
        }
        proof {
            assert(s@.skip(len as int) =~= Seq::<char>::empty());
            assert(subdomain_fields(s@.skip(len as int)) =~= Seq::<Seq<char>>::empty());
            assert(str_views(out@) =~= str_views(out@) + Seq::<Seq<char>>::empty());
        }
        out
    }
}

/// Queries HackerTarget's host-search endpoint.
pub struct HackerTarget {
    client: Client,
}

impl HackerTarget {
    /// An adapter over the shared client handle.
    pub fn new(client: Client) -> Self {
        Self { client }
    }

    /// The query URL for one host.
    pub fn build_url(&self, host: &str) -> (r: String)
        ensures
            r@ == "https://api.hackertarget.com/hostsearch/?q="@ + host@,
    {
        let base = String::from_str("https://api.hackertarget.com/hostsearch/?q=");
        base.concat(host)
    }

    /// The decision after one fetch: a body other than the provider's error
    /// marker whose normalization yields at least one name becomes a batch;
    /// the marker, and a well-formed but empty result set, are the same "no
    /// usable data" failure.
    pub fn evaluate_response(resp: String) -> (r: Result<Vec<String>, SubError>)
        ensures
            match r {
                Ok(batch) => {
                    &&& resp@ != spec_api_error()
                    &&& subdomain_fields(resp@).len() > 0
                    &&& str_views(batch@) == subdomain_fields(resp@)
                },
                Err(e) => {
                    &&& resp@ == spec_api_error() || subdomain_fields(resp@).len() == 0
                    &&& e matches SubError::SourceError(n) && n@ == "HackerTarget"@
                },
            },
    {
        if !str_eq(resp.as_str(), "error check your search parameter") {
            let subdomains = HTResult::new(resp).subdomains();
            proof {
                assert(str_views(subdomains@).len() == subdomains@.len());
            }
            if subdomains.len() > 0 {
                return Ok(subdomains);
            }
        }
        Err(SubError::SourceError(String::from_str("HackerTarget")))
    }
}

impl Default for HackerTarget {
    /// An adapter over a freshly built default client.
    fn default() -> Self {
        Self { client: default_client() }
    }
}

} // verus!
