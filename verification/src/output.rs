//! The output boundary: filtered names either stream straight out as they are
//! produced (flush mode), or accumulate into a duplicate-free set that is
//! emitted only once the whole run is exhausted (buffered mode).

use vstd::prelude::*;
use crate::strings::{
    dedup_append, lemma_dedup_append_props, lemma_dedup_append_push, str_views, vec_contains_str,
};

verus! {

/// Collects filtered names under one of the two output modes.
pub struct OutputSink {
    /// Flush mode when true: emit immediately, remember nothing.
    pub flush: bool,
    /// Buffered mode's memory: every distinct name seen so far, each once.
    pub seen: Vec<String>,
}

impl OutputSink {
    /// The buffered memory never holds a name twice.
    pub open spec fn wf(self) -> bool {
        forall|i: int, j: int|
            0 <= i < j < self.seen@.len() ==> str_views(self.seen@)[i] != str_views(self.seen@)[j]
    }

    /// A sink for the chosen output mode, with nothing seen yet.
    pub fn new(flush: bool) -> (r: OutputSink)
        ensures
            r.flush == flush,
            r.seen@.len() == 0,
            r.wf(),
    {
        OutputSink { flush, seen: Vec::new() }
    }

    /// Takes one filtered batch.  In flush mode every name comes straight
    /// back to be emitted, duplicates and all, and nothing is remembered; in
    /// buffered mode nothing is emitted and each name not seen before joins
    /// the memory, in order of first appearance.
    pub fn process_batch(&mut self, names: &Vec<String>) -> (out: Vec<String>)
        requires
            old(self).wf(),
        ensures
            final(self).flush == old(self).flush,
            final(self).wf(),
            old(self).flush ==> str_views(out@) == str_views(names@) && final(self).seen == old(
                self,
            ).seen,
            !old(self).flush ==> out@.len() == 0 && str_views(final(self).seen@) == dedup_append(
                str_views(old(self).seen@),
                str_views(names@),
            ),
    {
        let ghost incoming = str_views(names@);
        if self.flush {
            let mut out: Vec<String> = Vec::new();
            let mut i: usize = 0;
            proof {
                assert(str_views(out@) =~= incoming.take(0));
            }
            while i < names.len()
                invariant
                    incoming == str_views(names@),
                    0 <= i <= names@.len(),
                    str_views(out@) == incoming.take(i as int),
                decreases names@.len() - i,
            {
                let ghost prev = str_views(out@);
                out.push(names[i].clone());
                proof {
                    assert(str_views(out@) =~= prev.push(incoming[i as int]));
                    assert(incoming.take(i + 1) =~= incoming.take(i as int).push(
                        incoming[i as int],
                    ));
                }
                i = i + 1;
            }
            proof {
                assert(incoming.take(names@.len() as int) =~= incoming);
            }
            out
        } else {
            let ghost base = str_views(self.seen@);
            let mut i: usize = 0;
            proof {
                assert(incoming.take(0) =~= Seq::<Seq<char>>::empty());
                assert(str_views(self.seen@) =~= dedup_append(base, incoming.take(0)));
            }
            while i < names.len()
                invariant
                    incoming == str_views(names@),
                    0 <= i <= names@.len(),
                    self.flush == false,
                    str_views(self.seen@) == dedup_append(base, incoming.take(i as int)),
                decreases names@.len() - i,
            {
                let ghost prev = str_views(self.seen@);
                let present = vec_contains_str(&self.seen, names[i].as_str());
                if !present {
                    self.seen.push(names[i].clone());
                }
                proof {
                    lemma_dedup_append_push(base, incoming.take(i as int), incoming[i as int]);
                    assert(incoming.take(i + 1) =~= incoming.take(i as int).push(
                        incoming[i as int],
                    ));
                    if !present {
                        assert(str_views(self.seen@) =~= prev.push(incoming[i as int]));
                    }
                }
                i = i + 1;
            }
            proof {
                assert(incoming.take(names@.len() as int) =~= incoming);
                lemma_dedup_append_props(base, incoming);
            }
            Vec::new()
        }
    }

    /// Ends the run: flush mode has already emitted everything, buffered mode
    /// now releases each distinct name exactly once.
    pub fn finish(self) -> (out: Vec<String>)
        ensures
            self.flush ==> out@.len() == 0,
            !self.flush ==> out == self.seen,
    {
        if self.flush {
            Vec::new()
        } else {
            self.seen
        }
    }
}

} // verus!
