//! The scheduler: it deduplicates the root set, resolves the enabled sources,
//! fans the host-by-source cross product out into a task set, and models the
//! run itself — tasks starting under a global concurrency gate and completing
//! in arbitrary order, each completion feeding at most one batch into the
//! merge stream, which closes exactly when every task is done.

use vstd::prelude::*;
use vstd::arithmetic::div_mod::{lemma_fundamental_div_mod, lemma_fundamental_div_mod_converse};
use vstd::string::StringExecFns;
use crate::error::SubError;
use crate::registry::{
    all_sources_list, free_sources_list, is_excluded, spec_all_sources, spec_free_sources,
    spec_source_name, SourceName,
};
use crate::strings::{dedup_append, lemma_dedup_append_push, seq_contains, str_views, vec_contains_str};

verus! {

/// One unit of scheduling: a root host paired with an enabled source.
pub struct Task {
    pub host: String,
    pub source: SourceName,
}

/// The task set is the full cross product: one task per (host, source) pair,
/// laid out host-major.
pub open spec fn cross_product_ok(
    tasks: Seq<Task>,
    hosts: Seq<Seq<char>>,
    sources: Seq<SourceName>,
) -> bool {
    &&& tasks.len() == hosts.len() * sources.len()
    &&& forall|k: int|
        0 <= k < tasks.len() ==> (#[trigger] tasks[k]).host@ == hosts[k / (sources.len() as int)]
            && tasks[k].source == sources[k % (sources.len() as int)]
}

/// Builds the full task set: every host paired with every source, and nothing
/// else.
pub fn build_tasks(hosts: &Vec<String>, sources: &Vec<SourceName>) -> (tasks: Vec<Task>)
    ensures
        cross_product_ok(tasks@, str_views(hosts@), sources@),
{
    let mut tasks: Vec<Task> = Vec::new();
    let n = hosts.len();
    let m = sources.len();
    let mut i: usize = 0;
    while i < n
        invariant
            n == hosts@.len(),
            m == sources@.len(),
            0 <= i <= n,
            tasks@.len() == (i as int) * (m as int),
            forall|k: int|
                0 <= k < tasks@.len() ==> (#[trigger] tasks@[k]).host@ == str_views(hosts@)[k / (
                m as int)] && tasks@[k].source == sources@[k % (m as int)],
        decreases n - i,
    {
        let mut j: usize = 0;
        while j < m
            invariant
                n == hosts@.len(),
                m == sources@.len(),
                0 <= i < n,
                0 <= j <= m,
                tasks@.len() == (i as int) * (m as int) + j,
                forall|k: int|
                    0 <= k < tasks@.len() ==> (#[trigger] tasks@[k]).host@ == str_views(hosts@)[k
                        / (m as int)] && tasks@[k].source == sources@[k % (m as int)],
            decreases m - j,
        {
            let host = hosts[i].clone();
            let task = Task { host, source: sources[j] };
            tasks.push(task);
            proof {
                let mi = m as int;
                let ki = (i as int) * mi + (j as int);
                lemma_fundamental_div_mod_converse(ki, mi, i as int, j as int);
                assert(tasks@[ki].host@ == str_views(hosts@)[i as int]);
            }
            j = j + 1;
        }
        proof {
            assert(((i + 1) as int) * (m as int) == (i as int) * (m as int) + (m as int))
                by (nonlinear_arith);
        }
        i = i + 1;
    }
    tasks
}

/// With hosts and sources free of duplicates, no two tasks name the same
/// (host, source) pair: each pair is scheduled exactly once.
pub proof fn lemma_one_task_per_pair(
    tasks: Seq<Task>,
    hosts: Seq<Seq<char>>,
    sources: Seq<SourceName>,
    k1: int,
    k2: int,
)
    requires
        cross_product_ok(tasks, hosts, sources),
        forall|i: int, j: int| 0 <= i < j < hosts.len() ==> hosts[i] != hosts[j],
        forall|i: int, j: int| 0 <= i < j < sources.len() ==> sources[i] != sources[j],
        0 <= k1 < tasks.len(),
        0 <= k2 < tasks.len(),
        k1 != k2,
    ensures
        tasks[k1].host@ != tasks[k2].host@ || tasks[k1].source != tasks[k2].source,
{
    let m = sources.len() as int;
    assert(m > 0) by {
        if m == 0 {
            assert(hosts.len() * sources.len() == 0) by (nonlinear_arith)
                requires
                    sources.len() == 0,
            ;
        }
    }
    lemma_fundamental_div_mod(k1, m);
    lemma_fundamental_div_mod(k2, m);
    assert(0 <= k1 / m && 0 <= k2 / m) by (nonlinear_arith)
        requires
            m > 0,
            0 <= k1,
            0 <= k2,
    ;
    assert(k1 / m < hosts.len() && k2 / m < hosts.len()) by (nonlinear_arith)
        requires
            m > 0,
            k1 < hosts.len() * m,
            k2 < hosts.len() * m,
            0 <= k1 / m,
            0 <= k2 / m,
            k1 == m * (k1 / m) + k1 % m,
            k2 == m * (k2 / m) + k2 % m,
            0 <= k1 % m < m,
            0 <= k2 % m < m,
    ;
    if k1 / m == k2 / m && k1 % m == k2 % m {
        assert(k1 == k2);
    }
}

/// An excluded source contributes no task at all, whichever mode enabled the
/// base source set: exclusion wins even when credentialed sources were also
/// requested.
pub proof fn lemma_excluded_source_not_scheduled(
    tasks: Seq<Task>,
    hosts: Seq<Seq<char>>,
    base: Seq<SourceName>,
    excluded: Seq<Seq<char>>,
    s: SourceName,
)
    requires
        seq_contains(excluded, spec_source_name(s)),
        cross_product_ok(
            tasks,
            hosts,
            base.filter(|x: SourceName| !seq_contains(excluded, spec_source_name(x))),
        ),
    ensures
        forall|k: int| 0 <= k < tasks.len() ==> (#[trigger] tasks[k]).source != s,
{
    let pred = |x: SourceName| !seq_contains(excluded, spec_source_name(x));
    let kept = base.filter(pred);
    let m = kept.len() as int;
    assert forall|k: int| 0 <= k < tasks.len() implies (#[trigger] tasks[k]).source != s by {
        assert(m > 0) by {
            if m == 0 {
                assert(hosts.len() * kept.len() == 0) by (nonlinear_arith)
                    requires
                        kept.len() == 0,
                ;
            }
        }
        lemma_fundamental_div_mod(k, m);
        assert(0 <= k % m < m) by (nonlinear_arith)
            requires
                m > 0,
        ;
        base.lemma_filter_pred(pred, k % m);
        assert(pred(kept[k % m]));
    }
}

/// Deduplicates the run's root hosts, keeping first occurrences in order.
pub fn dedup_hosts(hosts: &Vec<String>) -> (r: Vec<String>)
    ensures
        str_views(r@) == dedup_append(Seq::<Seq<char>>::empty(), str_views(hosts@)),
        forall|i: int, j: int| 0 <= i < j < r@.len() ==> str_views(r@)[i] != str_views(r@)[j],
{
    let ghost all = str_views(hosts@);
    let mut r: Vec<String> = Vec::new();
    let mut i: usize = 0;
    proof {
        assert(all.take(0) =~= Seq::<Seq<char>>::empty());
        assert(str_views(r@) =~= dedup_append(Seq::<Seq<char>>::empty(), all.take(0)));
    }
    while i < hosts.len()
        invariant
            all == str_views(hosts@),
            0 <= i <= hosts@.len(),
            str_views(r@) == dedup_append(Seq::<Seq<char>>::empty(), all.take(i as int)),
        decreases hosts@.len() - i,
    {
        let ghost prev = str_views(r@);
        let present = vec_contains_str(&r, hosts[i].as_str());
        if !present {
            r.push(hosts[i].clone());
        }
        proof {
            lemma_dedup_append_push(Seq::<Seq<char>>::empty(), all.take(i as int), all[i as int]);
            assert(all.take(i + 1) =~= all.take(i as int).push(all[i as int]));
            if !present {
                assert(str_views(r@) =~= prev.push(all[i as int]));
            }
        }
        i = i + 1;
    }
    proof {
        assert(all.take(hosts@.len() as int) =~= all);
        crate::strings::lemma_dedup_append_props(Seq::<Seq<char>>::empty(), all);
    }
    r
}

/// The instantaneous state of one run, abstractly: how many tasks have been
/// handed to the executor, how many have finished, and the batches the merge
/// stream has carried so far, in completion order.
pub struct RunModel {
    pub concurrency: nat,
    pub total: nat,
    pub started: nat,
    pub done: nat,
    pub batches: Seq<Seq<Seq<char>>>,
}

impl RunModel {
    /// Tasks holding an active network operation right now.
    pub open spec fn running(self) -> nat {
        (self.started - self.done) as nat
    }

    /// The run's invariant: counts are consistent and the concurrency gate is
    /// respected.
    pub open spec fn wf(self) -> bool {
        &&& self.concurrency >= 1
        &&& self.done <= self.started <= self.total
        &&& self.started - self.done <= self.concurrency
        &&& self.batches.len() <= self.done
    }

    /// The merge stream has closed: every sender handle was dropped, which
    /// happens exactly when every task has completed.
    pub open spec fn closed(self) -> bool {
        self.done == self.total
    }
}

/// The state of a run before any task has started.
pub open spec fn init_model(total: nat, concurrency: nat) -> RunModel {
    RunModel { concurrency, total, started: 0, done: 0, batches: Seq::empty() }
}

/// One observable step of a run: a task acquires a slot and starts, or a task
/// completes — with a batch on success, with none on failure or timeout.
pub enum RunEvent {
    TaskStarted,
    TaskCompleted(Option<Seq<Seq<char>>>),
}

/// When an event can occur: a task may start only while a concurrency slot is
/// free and tasks remain; a completion needs a running task.
pub open spec fn event_enabled(m: RunModel, e: RunEvent) -> bool {
    match e {
        RunEvent::TaskStarted => m.started < m.total && m.running() < m.concurrency,
        RunEvent::TaskCompleted(_) => m.running() > 0,
    }
}

/// The effect of an event on the run state.
pub open spec fn apply_event(m: RunModel, e: RunEvent) -> RunModel {
    match e {
        RunEvent::TaskStarted => RunModel { started: m.started + 1, ..m },
        RunEvent::TaskCompleted(b) => RunModel {
            done: m.done + 1,
            batches: match b {
                Some(batch) => m.batches.push(batch),
                None => m.batches,
            },
            ..m
        },
    }
}

/// The state after a whole sequence of events.
pub open spec fn apply_trace(m: RunModel, t: Seq<RunEvent>) -> RunModel
    decreases t.len(),
{
    if t.len() == 0 {
        m
    } else {
        apply_trace(apply_event(m, t[0]), t.drop_first())
    }
}

/// Every event of the trace was enabled when it occurred.
pub open spec fn valid_trace(m: RunModel, t: Seq<RunEvent>) -> bool
    decreases t.len(),
{
    t.len() == 0 || (event_enabled(m, t[0]) && valid_trace(apply_event(m, t[0]), t.drop_first()))
}

/// How many tasks completed during the trace.
pub open spec fn count_completions(t: Seq<RunEvent>) -> nat
    decreases t.len(),
{
    if t.len() == 0 {
        0
    } else {
        (if t[0] is TaskCompleted {
            1nat
        } else {
            0nat
        }) + count_completions(t.drop_first())
    }
}

/// One enabled event preserves the run invariant.
pub proof fn lemma_step_preserves_wf(m: RunModel, e: RunEvent)
    requires
        m.wf(),
        event_enabled(m, e),
    ensures
        apply_event(m, e).wf(),
{
}

/// The concurrency gate: in any well-formed state, at most `concurrency`
/// tasks hold an active network operation.
pub proof fn lemma_concurrency_gate(m: RunModel)
    requires
        m.wf(),
    ensures
        m.running() <= m.concurrency,
{
}

/// At no instant of a valid run does the state break the invariant — in
/// particular, the number of simultaneously running tasks never exceeds the
/// configured concurrency at any point of the trace.
pub proof fn lemma_trace_wf(m: RunModel, t: Seq<RunEvent>, i: int)
    requires
        m.wf(),
        valid_trace(m, t),
        0 <= i <= t.len(),
    ensures
        apply_trace(m, t.take(i)).wf(),
    decreases t.len(),
{
    if i == 0 {
        assert(t.take(0) =~= Seq::<RunEvent>::empty());
    } else {
        lemma_step_preserves_wf(m, t[0]);
        let t2 = t.drop_first();
        assert(t.take(i)[0] == t[0]);
        assert(t.take(i).drop_first() =~= t2.take(i - 1));
        lemma_trace_wf(apply_event(m, t[0]), t2, i - 1);
    }
}

/// At no instant of a valid run do more tasks hold an active network
/// operation than the concurrency limit the run began with.
pub proof fn lemma_gate_never_exceeded(m: RunModel, t: Seq<RunEvent>, i: int)
    requires
        m.wf(),
        valid_trace(m, t),
        0 <= i <= t.len(),
    ensures
        apply_trace(m, t.take(i)).running() <= m.concurrency,
{
    lemma_trace_wf(m, t, i);
    lemma_trace_counts(m, t.take(i));
}

/// The task total and the concurrency cap never change during a run, and the
/// done counter advances once per completion event.
pub proof fn lemma_trace_counts(m: RunModel, t: Seq<RunEvent>)
    ensures
        apply_trace(m, t).total == m.total,
        apply_trace(m, t).concurrency == m.concurrency,
        apply_trace(m, t).done == m.done + count_completions(t),
    decreases t.len(),
{
    if t.len() > 0 {
        lemma_trace_counts(apply_event(m, t[0]), t.drop_first());
    }
}

/// Merge stream termination: starting from a fresh run over `total` tasks,
/// the stream is closed after any prefix of the run exactly when all `total`
/// tasks have completed within that prefix — never earlier, never later.
pub proof fn lemma_stream_termination(total: nat, concurrency: nat, t: Seq<RunEvent>, i: int)
    requires
        0 <= i <= t.len(),
    ensures
        apply_trace(init_model(total, concurrency), t.take(i)).closed() <==> count_completions(
            t.take(i),
        ) == total,
{
    lemma_trace_counts(init_model(total, concurrency), t.take(i));
}

/// Failure isolation: a task that fails or times out feeds nothing into the
/// merge stream, and leaves every other task exactly as schedulable as a
/// successful completion would have — no sibling is delayed or cancelled.
pub proof fn lemma_failure_isolated(m: RunModel, b: Seq<Seq<char>>)
    requires
        event_enabled(m, RunEvent::TaskCompleted(None)),
    ensures
        apply_event(m, RunEvent::TaskCompleted(None)).batches == m.batches,
        forall|e: RunEvent|
            event_enabled(apply_event(m, RunEvent::TaskCompleted(None)), e) == event_enabled(
                apply_event(m, RunEvent::TaskCompleted(Some(b))),
                e,
            ),
{
}

/// Progress: until the stream closes, some event is always enabled, so the
/// run completes no matter how many tasks fail or time out.
pub proof fn lemma_run_completes(m: RunModel)
    requires
        m.wf(),
        !m.closed(),
    ensures
        exists|e: RunEvent| event_enabled(m, e),
{
    if m.running() > 0 {
        assert(event_enabled(m, RunEvent::TaskCompleted(None)));
    } else {
        assert(event_enabled(m, RunEvent::TaskStarted));
    }
}

/// How one task ended: with a batch of names, with a failure, or cancelled by
/// the per-task timer.
pub enum TaskOutcome {
    Success(Vec<String>),
    Failed,
    TimedOut,
}

impl View for TaskOutcome {
    type V = Option<Seq<Seq<char>>>;

    open spec fn view(&self) -> Option<Seq<Seq<char>>> {
        match self {
            TaskOutcome::Success(batch) => Some(str_views(batch@)),
            TaskOutcome::Failed => None,
            TaskOutcome::TimedOut => None,
        }
    }
}

/// The executable counter state a run driver threads through the event loop;
/// its view is the abstract run model.
pub struct RunState {
    pub concurrency: usize,
    pub total: usize,
    pub started: usize,
    pub done: usize,
    pub batches: Vec<Vec<String>>,
}

impl View for RunState {
    type V = RunModel;

    open spec fn view(&self) -> RunModel {
        RunModel {
            concurrency: self.concurrency as nat,
            total: self.total as nat,
            started: self.started as nat,
            done: self.done as nat,
            batches: self.batches@.map_values(|v: Vec<String>| str_views(v@)),
        }
    }
}

impl RunState {
    /// A fresh run over `total` tasks under the given concurrency gate.
    pub fn new(total: usize, concurrency: usize) -> (r: RunState)
        requires
            concurrency >= 1,
        ensures
            r@ == init_model(total as nat, concurrency as nat),
            r@.wf(),
    {
        let r = RunState { concurrency, total, started: 0, done: 0, batches: Vec::new() };
        proof {
            assert(r@.batches =~= init_model(total as nat, concurrency as nat).batches);
        }
        r
    }

    /// Whether a further task may start right now.
    pub fn can_start(&self) -> (r: bool)
        requires
            self@.wf(),
        ensures
            r == event_enabled(self@, RunEvent::TaskStarted),
    {
        self.started < self.total && self.started - self.done < self.concurrency
    }

    /// A task acquires a slot and begins its network operation.
    pub fn start(&mut self)
        requires
            old(self)@.wf(),
            event_enabled(old(self)@, RunEvent::TaskStarted),
        ensures
            final(self)@ == apply_event(old(self)@, RunEvent::TaskStarted),
            final(self)@.wf(),
    {
        self.started = self.started + 1;
    }

    /// A running task completes; only a successful one feeds its batch into
    /// the merge stream.
    pub fn complete(&mut self, outcome: TaskOutcome)
        requires
            old(self)@.wf(),
            event_enabled(old(self)@, RunEvent::TaskCompleted(outcome@)),
        ensures
            final(self)@ == apply_event(old(self)@, RunEvent::TaskCompleted(outcome@)),
            final(self)@.wf(),
    {
        let ghost prior = self@.batches;
        self.done = self.done + 1;
        match outcome {
            TaskOutcome::Success(batch) => {
                let ghost bview = str_views(batch@);
                self.batches.push(batch);
                proof {
                    assert(self@.batches =~= prior.push(bview));
                }
            },
            TaskOutcome::Failed => {},
            TaskOutcome::TimedOut => {},
        }
    }

    /// Whether the merge stream has closed.
    pub fn is_finished(&self) -> (r: bool)
        ensures
            r == self@.closed(),
    {
        self.done == self.total
    }
}

/// The scheduler's configuration surface: the global concurrency gate, the
/// per-task timeout, and the enabled source set.
pub struct Runner {
    pub concurrency: usize,
    pub timeout_secs: u64,
    pub sources: Vec<SourceName>,
}

impl Default for Runner {
    /// The documented defaults, with no sources enabled yet.
    fn default() -> (r: Self)
        ensures
            r.concurrency == 200,
            r.timeout_secs == 15,
            r.sources@ == Seq::<SourceName>::empty(),
    {
        let r = Runner { concurrency: 200, timeout_secs: 15, sources: Vec::new() };
        proof {
            assert(r.sources@ =~= Seq::<SourceName>::empty());
        }
        r
    }
}

impl Runner {
    /// Caps the number of simultaneously in-flight tasks across the whole
    /// task set.
    pub fn concurrency(self, limit: usize) -> (r: Self)
        ensures
            r.concurrency == limit,
            r.timeout_secs == self.timeout_secs,
            r.sources == self.sources,
    {
        Runner { concurrency: limit, ..self }
    }

    /// Sets the per-task timeout, in seconds.
    pub fn timeout(self, secs: u64) -> (r: Self)
        ensures
            r.timeout_secs == secs,
            r.concurrency == self.concurrency,
            r.sources == self.sources,
    {
        Runner { timeout_secs: secs, ..self }
    }

    /// Enables the sources usable without credentials.
    pub fn free_sources(self) -> (r: Self)
        ensures
            r.sources@ == spec_free_sources(),
            r.concurrency == self.concurrency,
            r.timeout_secs == self.timeout_secs,
    {
        Runner { sources: free_sources_list(), ..self }
    }

    /// Enables the whole registry, credentialed sources included.
    pub fn all_sources(self) -> (r: Self)
        ensures
            r.sources@ == spec_all_sources(),
            r.concurrency == self.concurrency,
            r.timeout_secs == self.timeout_secs,
    {
        Runner { sources: all_sources_list(), ..self }
    }

    /// Removes every source whose name is among the excluded names,
    /// whatever mode enabled it.
    pub fn exclude(self, excluded: &Vec<String>) -> (r: Self)
        ensures
            r.sources@ == self.sources@.filter(
                |s: SourceName| !seq_contains(str_views(excluded@), spec_source_name(s)),
            ),
            r.concurrency == self.concurrency,
            r.timeout_secs == self.timeout_secs,
    {
        let ghost pred = |s: SourceName| !seq_contains(str_views(excluded@), spec_source_name(s));
        let mut kept: Vec<SourceName> = Vec::new();
        let mut i: usize = 0;
        proof {
            reveal_with_fuel(Seq::filter, 2);
            assert(self.sources@.take(0) =~= Seq::<SourceName>::empty());
            assert(kept@ =~= self.sources@.take(0).filter(pred));
        }
        while i < self.sources.len()
            invariant
                0 <= i <= self.sources@.len(),
                pred == (|s: SourceName| !seq_contains(str_views(excluded@), spec_source_name(s))),
                kept@ == self.sources@.take(i as int).filter(pred),
            decreases self.sources@.len() - i,
        {
            let ghost prev = kept@;
            let s = self.sources[i];
            let excluded_here = is_excluded(s, excluded);
            if !excluded_here {
                kept.push(s);
            }
            proof {
                broadcast use Seq::filter_distributes_over_add;

                reveal_with_fuel(Seq::filter, 2);
                let all = self.sources@;
                assert(all.take(i + 1) =~= all.take(i as int) + seq![all[i as int]]);
                assert(seq![all[i as int]].drop_last() =~= Seq::<SourceName>::empty());
                if !excluded_here {
                    assert(kept@ =~= prev.push(all[i as int]));
                } else {
                    assert(all.take(i + 1).filter(pred) =~= all.take(i as int).filter(pred));
                }
                assert(kept@ =~= all.take(i + 1).filter(pred));
            }
            i = i + 1;
        }
        proof {
            assert(self.sources@.take(self.sources@.len() as int) =~= self.sources@);
        }
        Runner { sources: kept, ..self }
    }

    /// Lays out one run: deduplicates the roots, builds the full task set over
    /// the enabled sources, and hands back the initial run state.  Fails only
    /// when the configuration itself is invalid — a zero concurrency gate
    /// could never let a task start; an empty root set is not an error and
    /// yields an immediately-finished run.
    pub fn prepare(&self, hosts: &Vec<String>) -> (r: Result<RunPrep, SubError>)
        ensures
            (r is Err) <==> self.concurrency == 0,
            r matches Err(e) ==> e is ConfigError,
            r matches Ok(p) ==> {
                &&& str_views(p.hosts@) == dedup_append(
                    Seq::<Seq<char>>::empty(),
                    str_views(hosts@),
                )
                &&& cross_product_ok(p.tasks@, str_views(p.hosts@), self.sources@)
                &&& p.state@ == init_model(p.tasks@.len(), self.concurrency as nat)
                &&& p.state@.wf()
            },
    {
        if self.concurrency == 0 {
            return Err(SubError::ConfigError(String::from_str("concurrency must be positive")));
        }
        let deduped = dedup_hosts(hosts);
        let tasks = build_tasks(&deduped, &self.sources);
        let total = tasks.len();
        let state = RunState::new(total, self.concurrency);
        Ok(RunPrep { hosts: deduped, tasks, state })
    }
}

/// Everything a run driver needs: the deduplicated roots, the task set, and
/// the initial run state.
pub struct RunPrep {
    pub hosts: Vec<String>,
    pub tasks: Vec<Task>,
    pub state: RunState,
}

} // verus!
