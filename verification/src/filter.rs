//! The post-processing stage: membership tests of discovered names against
//! the run's root set, under one of two mutually exclusive policies, applied
//! lazily to each batch with no cross-batch state.

use vstd::prelude::*;
use vstd::string::StrSliceExecFns;
use crate::strings::{ends_with, str_eq, str_views, suffix_of};

verus! {

/// `name` is strictly more specific than `root`: it ends with `root` and the
/// character just before that suffix is a label separator.
pub open spec fn strict_subdomain(root: Seq<char>, name: Seq<char>) -> bool {
    &&& name.len() > root.len()
    &&& suffix_of(root, name)
    &&& name[name.len() - root.len() - 1] == '.'
}

/// `name` equals `root` or is one of its subdomains.
pub open spec fn root_match(root: Seq<char>, name: Seq<char>) -> bool {
    name == root || strict_subdomain(root, name)
}

/// The filter policy, selected once per run.
#[derive(Clone, Copy, Debug, PartialEq, Eq, Structural)]
pub enum FilterMode {
    /// Keep a name that equals some root or is a subdomain of it.
    AnyRoot,
    /// Keep only a name that is strictly more specific than some root.
    AnySubdomain,
}

/// Filters raw discovered names against the root set fixed for the run.
pub struct PostProcessor {
    pub roots: Vec<String>,
    pub mode: FilterMode,
}

impl PostProcessor {
    /// A name passes the filter exactly when some root accepts it under the
    /// configured policy.
    pub open spec fn keeps(self, name: Seq<char>) -> bool {
        exists|i: int|
            0 <= i < self.roots@.len() && (match self.mode {
                FilterMode::AnyRoot => root_match(str_views(self.roots@)[i], name),
                FilterMode::AnySubdomain => strict_subdomain(str_views(self.roots@)[i], name),
            })
    }

    /// Use the any-root policy against the given root set.
    pub fn any_root(&mut self, roots: Vec<String>)
        ensures
            final(self).roots == roots,
            final(self).mode == FilterMode::AnyRoot,
    {
        self.roots = roots;
        self.mode = FilterMode::AnyRoot;
    }

    /// Use the strict-subdomain policy against the given root set.
    pub fn any_subdomain(&mut self, roots: Vec<String>)
        ensures
            final(self).roots == roots,
            final(self).mode == FilterMode::AnySubdomain,
    {
        self.roots = roots;
        self.mode = FilterMode::AnySubdomain;
    }

    /// Whether one discovered name passes the filter.
    pub fn keep(&self, name: &str) -> (r: bool)
        ensures
            r == self.keeps(name@),
    {
        let mut i: usize = 0;
        while i < self.roots.len()
            invariant
                0 <= i <= self.roots@.len(),
                forall|k: int|
                    0 <= k < i ==> (match self.mode {
                        FilterMode::AnyRoot => !root_match(str_views(self.roots@)[k], name@),
                        FilterMode::AnySubdomain => !strict_subdomain(
                            str_views(self.roots@)[k],
                            name@,
                        ),
                    }),
            decreases self.roots@.len() - i,
        {
            let root = self.roots[i].as_str();
            let matched = match self.mode {
                FilterMode::AnyRoot => str_eq(name, root) || is_strict_subdomain(name, root),
                FilterMode::AnySubdomain => is_strict_subdomain(name, root),
            };
            if matched {
                assert(str_views(self.roots@)[i as int] == root@);
                return true;
            }
            assert(str_views(self.roots@)[i as int] == root@);
            i = i + 1;
        }
        false
    }

    /// Filters one batch, keeping order and multiplicity of the names that
    /// pass; the filter holds no state across batches.
    pub fn clean_batch(&self, batch: &Vec<String>) -> (r: Vec<String>)
        ensures
            str_views(r@) == str_views(batch@).filter(|n: Seq<char>| self.keeps(n)),
    {
        let pred = Ghost(|n: Seq<char>| self.keeps(n));
        let mut out: Vec<String> = Vec::new();
        let mut i: usize = 0;
        proof {
            assert(str_views(batch@).take(0) =~= Seq::<Seq<char>>::empty());
            reveal_with_fuel(Seq::filter, 2);
            assert(str_views(out@) =~= str_views(batch@).take(0).filter(pred@));
        }
        while i < batch.len()
            invariant
                0 <= i <= batch@.len(),
                pred@ == (|n: Seq<char>| self.keeps(n)),
                str_views(out@) == str_views(batch@).take(i as int).filter(pred@),
            decreases batch@.len() - i,
        {
            let ghost prev = str_views(out@);
            let name = &batch[i];
            let kept = self.keep(name.as_str());
            if kept {
                out.push(name.clone());
            }
            proof {
                broadcast use Seq::filter_distributes_over_add;

                reveal_with_fuel(Seq::filter, 2);
                let views = str_views(batch@);
                assert(views.take(i + 1) =~= views.take(i as int) + seq![views[i as int]]);
                assert(seq![views[i as int]].drop_last() =~= Seq::<Seq<char>>::empty());
                assert(seq![views[i as int]].filter(pred@) == (if pred@(views[i as int]) {
                    seq![views[i as int]]
                } else {
                    Seq::<Seq<char>>::empty()
                }));
                assert(views[i as int] == name@);
                if kept {
                    assert(str_views(out@) =~= prev + seq![name@]);
                } else {
                    assert(views.take(i + 1).filter(pred@) =~= views.take(i as int).filter(pred@));
                }
                assert(str_views(out@) =~= views.take(i + 1).filter(pred@));
            }
            i = i + 1;
        }
        proof {
            assert(str_views(batch@).take(batch@.len() as int) =~= str_views(batch@));
        }
        out
    }
}

impl Default for PostProcessor {
    /// Starts with no roots, so nothing passes until a policy is configured.
    fn default() -> (r: Self)
        ensures
            r.roots@.len() == 0,
            r.mode == FilterMode::AnyRoot,
    {
        PostProcessor { roots: Vec::new(), mode: FilterMode::AnyRoot }
    }
}

/// Whether `name` is a strict subdomain of `root`: ends with `root`, is
/// longer, and has a label separator just before the suffix.
pub fn is_strict_subdomain(name: &str, root: &str) -> (r: bool)
    ensures
        r == strict_subdomain(root@, name@),
{
    let nlen = name.unicode_len();
    let rlen = root.unicode_len();
    if nlen <= rlen {
        return false;
    }
    if !ends_with(name, root) {
        return false;
    }
    name.get_char(nlen - rlen - 1) == '.'
}

} // verus!
