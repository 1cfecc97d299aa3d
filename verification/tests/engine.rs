use sub::error::SubError;
use sub::filter::{FilterMode, PostProcessor};
use sub::output::OutputSink;
use sub::registry::SourceName;
use sub::runner::{build_tasks, dedup_hosts, RunState, Runner, TaskOutcome};

fn roots(names: &[&str]) -> Vec<String> {
    names.iter().map(|s| s.to_string()).collect()
}

#[test]
fn any_root_keeps_root_and_subdomains() {
    let mut cleaner = PostProcessor::default();
    cleaner.any_root(roots(&["example.com"]));
    assert!(cleaner.keep("api.example.com"));
    assert!(!cleaner.keep("notexample.com"));
    assert!(cleaner.keep("example.com"));
}

#[test]
fn strict_subdomain_rejects_the_root_itself() {
    let mut cleaner = PostProcessor::default();
    cleaner.any_subdomain(roots(&["example.com"]));
    assert!(cleaner.keep("www.example.com"));
    assert!(!cleaner.keep("example.com"));
    assert!(!cleaner.keep("notexample.com"));
}

#[test]
fn default_post_processor_keeps_nothing() {
    let cleaner = PostProcessor::default();
    assert_eq!(cleaner.mode, FilterMode::AnyRoot);
    assert!(!cleaner.keep("example.com"));
}

#[test]
fn clean_batch_keeps_order_and_multiplicity() {
    let mut cleaner = PostProcessor::default();
    cleaner.any_root(roots(&["example.com"]));
    let batch = roots(&["a.example.com", "other.org", "a.example.com", "example.com"]);
    let got = cleaner.clean_batch(&batch);
    assert_eq!(got, roots(&["a.example.com", "a.example.com", "example.com"]));
}

#[test]
fn flush_mode_emits_duplicates_buffered_mode_emits_once() {
    let batch = roots(&["a.example.com", "a.example.com"]);

    let mut flushing = OutputSink::new(true);
    let emitted = flushing.process_batch(&batch);
    assert_eq!(emitted, roots(&["a.example.com", "a.example.com"]));
    assert!(flushing.finish().is_empty());

    let mut buffered = OutputSink::new(false);
    let emitted = buffered.process_batch(&batch);
    assert!(emitted.is_empty());
    assert_eq!(buffered.finish(), roots(&["a.example.com"]));
}

#[test]
fn buffered_mode_deduplicates_across_batches() {
    let mut buffered = OutputSink::new(false);
    buffered.process_batch(&roots(&["a.example.com", "b.example.com"]));
    buffered.process_batch(&roots(&["b.example.com", "c.example.com"]));
    assert_eq!(
        buffered.finish(),
        roots(&["a.example.com", "b.example.com", "c.example.com"])
    );
}

#[test]
fn task_set_is_the_full_cross_product() {
    let hosts = roots(&["one.com", "two.com"]);
    let sources = vec![SourceName::HackerTarget, SourceName::ThreatCrowd, SourceName::ThreatMiner];
    let tasks = build_tasks(&hosts, &sources);
    assert_eq!(tasks.len(), 6);
    assert_eq!(tasks[0].host, "one.com");
    assert_eq!(tasks[0].source, SourceName::HackerTarget);
    assert_eq!(tasks[5].host, "two.com");
    assert_eq!(tasks[5].source, SourceName::ThreatMiner);
}

#[test]
fn duplicate_roots_collapse_before_scheduling() {
    let deduped = dedup_hosts(&roots(&["a.com", "b.com", "a.com"]));
    assert_eq!(deduped, roots(&["a.com", "b.com"]));
}

#[test]
fn excluding_a_source_removes_its_tasks_even_in_all_mode() {
    let runner = Runner::default()
        .all_sources()
        .exclude(&roots(&["c99", "threatcrowd"]));
    assert_eq!(runner.sources, vec![SourceName::HackerTarget, SourceName::ThreatMiner]);

    let prep = runner.prepare(&roots(&["example.com"])).unwrap();
    assert_eq!(prep.tasks.len(), 2);
    assert!(prep.tasks.iter().all(|t| t.source != SourceName::C99));
    assert!(prep.tasks.iter().all(|t| t.source != SourceName::ThreatCrowd));
}

#[test]
fn free_mode_leaves_out_the_credentialed_source() {
    let runner = Runner::default().free_sources();
    assert_eq!(
        runner.sources,
        vec![SourceName::HackerTarget, SourceName::ThreatCrowd, SourceName::ThreatMiner]
    );
}

#[test]
fn prepare_counts_roots_times_sources() {
    let runner = Runner::default()
        .concurrency(3)
        .timeout(5)
        .free_sources();
    let prep = runner
        .prepare(&roots(&["a.com", "b.com", "a.com"]))
        .unwrap();
    assert_eq!(prep.hosts.len(), 2);
    assert_eq!(prep.tasks.len(), 6);
    assert_eq!(prep.state.total, 6);
    assert_eq!(prep.state.concurrency, 3);
}

#[test]
fn zero_concurrency_is_a_config_error() {
    let runner = Runner::default().concurrency(0).free_sources();
    let err = runner.prepare(&roots(&["a.com"])).err().unwrap();
    assert!(matches!(err, SubError::ConfigError(_)));
    assert!(!err.is_recoverable());
}

#[test]
fn empty_root_set_yields_an_immediately_finished_run() {
    let runner = Runner::default().free_sources();
    let prep = runner.prepare(&Vec::new()).unwrap();
    assert_eq!(prep.tasks.len(), 0);
    assert!(prep.state.is_finished());
}

#[test]
fn gate_blocks_at_the_concurrency_cap() {
    let mut state = RunState::new(4, 2);
    assert!(state.can_start());
    state.start();
    assert!(state.can_start());
    state.start();
    // both slots are taken: nothing more may start until a completion
    assert!(!state.can_start());
    state.complete(TaskOutcome::Success(vec!["a.example.com".to_string()]));
    assert!(state.can_start());
}

#[test]
fn timeout_yields_no_batch_and_the_run_still_completes() {
    let mut state = RunState::new(2, 2);
    state.start();
    state.start();
    state.complete(TaskOutcome::TimedOut);
    assert!(state.batches.is_empty());
    assert!(!state.is_finished());
    state.complete(TaskOutcome::Success(vec!["b.example.com".to_string()]));
    assert!(state.is_finished());
    assert_eq!(state.batches, vec![vec!["b.example.com".to_string()]]);
}

#[test]
fn stream_ends_only_after_every_task_completed() {
    let mut state = RunState::new(3, 1);
    for _ in 0..3 {
        assert!(!state.is_finished());
        state.start();
        state.complete(TaskOutcome::Failed);
    }
    assert!(state.is_finished());
    assert!(state.batches.is_empty());
}
