//! The source registry: the providers a run may query, partitioned into those
//! usable without credentials and those that need one, and the resolution of
//! the enabled set from the run's mode and exclusions.

use vstd::prelude::*;
use crate::strings::{seq_contains, str_eq, str_views};

verus! {

/// Identity of one passive-data provider.
#[derive(Clone, Copy, Debug, PartialEq, Eq, Structural)]
pub enum SourceName {
    C99,
    HackerTarget,
    ThreatCrowd,
    ThreatMiner,
}

/// A source that needs no credential.
pub open spec fn is_free(s: SourceName) -> bool {
    s != SourceName::C99
}

/// The lowercase name under which a source can be excluded.
pub open spec fn spec_source_name(s: SourceName) -> Seq<char> {
    match s {
        SourceName::C99 => "c99"@,
        SourceName::HackerTarget => "hackertarget"@,
        SourceName::ThreatCrowd => "threatcrowd"@,
        SourceName::ThreatMiner => "threatminer"@,
    }
}

/// The name under which a source can be excluded.
pub fn source_name(s: SourceName) -> (r: &'static str)
    ensures
        r@ == spec_source_name(s),
{
    match s {
        SourceName::C99 => "c99",
        SourceName::HackerTarget => "hackertarget",
        SourceName::ThreatCrowd => "threatcrowd",
        SourceName::ThreatMiner => "threatminer",
    }
}

/// The sources enabled before exclusions: the free ones, in a fixed order.
pub open spec fn spec_free_sources() -> Seq<SourceName> {
    seq![SourceName::HackerTarget, SourceName::ThreatCrowd, SourceName::ThreatMiner]
}

/// The sources enabled before exclusions when credentialed ones are included.
pub open spec fn spec_all_sources() -> Seq<SourceName> {
    seq![SourceName::C99, SourceName::HackerTarget, SourceName::ThreatCrowd, SourceName::ThreatMiner]
}

/// The free subset of the registry, usable without credentials.
pub fn free_sources_list() -> (r: Vec<SourceName>)
    ensures
        r@ == spec_free_sources(),
{
    let mut v: Vec<SourceName> = Vec::new();
    v.push(SourceName::HackerTarget);
    v.push(SourceName::ThreatCrowd);
    v.push(SourceName::ThreatMiner);
    proof {
        assert(v@ =~= spec_free_sources());
    }
    v
}

/// The whole registry, credentialed sources included.
pub fn all_sources_list() -> (r: Vec<SourceName>)
    ensures
        r@ == spec_all_sources(),
{
    let mut v: Vec<SourceName> = Vec::new();
    v.push(SourceName::C99);
    v.push(SourceName::HackerTarget);
    v.push(SourceName::ThreatCrowd);
    v.push(SourceName::ThreatMiner);
    proof {
        assert(v@ =~= spec_all_sources());
    }
    v
}

/// The base source list holds each source at most once, and every source it
/// holds is free or the mode requested credentialed ones.
pub proof fn lemma_registry_sound()
    ensures
        forall|i: int, j: int|
            0 <= i < j < spec_free_sources().len() ==> spec_free_sources()[i]
                != spec_free_sources()[j],
        forall|i: int, j: int|
            0 <= i < j < spec_all_sources().len() ==> spec_all_sources()[i]
                != spec_all_sources()[j],
        forall|i: int| 0 <= i < spec_free_sources().len() ==> is_free(#[trigger] spec_free_sources()[i]),
{
}

/// Whether the source's name is one of the excluded names.
pub fn is_excluded(s: SourceName, excluded: &Vec<String>) -> (r: bool)
    ensures
        r == seq_contains(str_views(excluded@), spec_source_name(s)),
{
    let name = source_name(s);
    let mut i: usize = 0;
    while i < excluded.len()
        invariant
            name@ == spec_source_name(s),
            0 <= i <= excluded@.len(),
            forall|k: int| 0 <= k < i ==> str_views(excluded@)[k] != spec_source_name(s),
        decreases excluded@.len() - i,
    {
        if str_eq(excluded[i].as_str(), name) {
            assert(str_views(excluded@)[i as int] == spec_source_name(s));
            return true;
        }
        i = i + 1;
    }
    false
}

} // verus!
