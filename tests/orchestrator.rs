use enola::orchestrator::{Completion, Orchestrator, Pull, SetupError, Strategy};

#[test]
fn zero_budget_is_refused() {
    assert_eq!(Orchestrator::new(Strategy::BoundedPool, 0, 3, vec![]).err(), Some(SetupError::ZeroBudget));
}

#[test]
fn proxy_pool_errors() {
    let pool = vec!["http://proxy-a:80".to_string()];
    assert_eq!(Orchestrator::with_proxy_pool(0, 1, &pool, 1).err(), Some(SetupError::ZeroBudget));
    assert_eq!(Orchestrator::with_proxy_pool(1, 1, &vec![], 1).err(), Some(SetupError::NoProxies));
    assert_eq!(Orchestrator::with_proxy_pool(1, 1, &pool, 0).err(), Some(SetupError::NoWorkers));
}

#[test]
fn budget_caps_calls_in_flight() {
    let mut run = Orchestrator::new(Strategy::BoundedPool, 2, 5, vec![]).unwrap();
    for w in 0..5 {
        assert_eq!(run.pull(w), Pull::Job(w));
    }
    assert!(run.acquire(0));
    assert!(run.acquire(1));
    assert!(!run.acquire(2));
    assert_eq!(run.in_flight(), 2);
    assert_eq!(run.finish(0, true), Some(Completion::Delivered(0)));
    assert_eq!(run.in_flight(), 1);
    assert!(run.acquire(2));
    assert!(!run.acquire(3));
    assert_eq!(run.in_flight(), 2);
}

#[test]
fn failed_job_returns_to_tail() {
    let mut run = Orchestrator::new(Strategy::WorkerPoolRetry, 1, 2, vec!["a".to_string()]).unwrap();
    assert_eq!(run.pull(0), Pull::Job(0));
    assert!(run.acquire(0));
    assert_eq!(run.finish(0, false), Some(Completion::Requeued(0)));
    assert_eq!(run.pull(0), Pull::Job(1));
    assert!(run.acquire(0));
    assert_eq!(run.finish(0, true), Some(Completion::Delivered(1)));
    assert_eq!(run.pull(0), Pull::Job(0));
    assert!(run.acquire(0));
    assert_eq!(run.finish(0, true), Some(Completion::Delivered(0)));
    assert!(run.is_drained());
    assert_eq!(run.pull(0), Pull::Exit);
}

#[test]
fn retry_run_waits_while_attempts_in_flight() {
    let mut run = Orchestrator::new(Strategy::WorkerPoolRetry, 2, 1, vec![]).unwrap();
    assert_eq!(run.pull(0), Pull::Job(0));
    assert_eq!(run.pull(1), Pull::Wait);
    assert!(run.acquire(0));
    assert_eq!(run.pull(1), Pull::Wait);
    assert_eq!(run.finish(0, false), Some(Completion::Requeued(0)));
    assert_eq!(run.pull(1), Pull::Job(0));
}

#[test]
fn bounded_pool_drops_failures() {
    let mut run = Orchestrator::new(Strategy::BoundedPool, 1, 1, vec![]).unwrap();
    assert_eq!(run.pull(0), Pull::Job(0));
    assert!(run.acquire(0));
    assert_eq!(run.finish(0, false), Some(Completion::Dropped(0)));
    assert_eq!(run.pull(0), Pull::Exit);
}

#[test]
fn cancelled_run_hands_out_nothing() {
    let mut run = Orchestrator::new(Strategy::WorkerPoolRetry, 1, 3, vec![]).unwrap();
    run.cancel();
    assert_eq!(run.pull(0), Pull::Exit);
}

#[test]
fn finish_without_attempt_is_none() {
    let mut run = Orchestrator::new(Strategy::WorkerPoolRetry, 1, 1, vec![]).unwrap();
    assert_eq!(run.finish(3, true), None);
    assert!(!run.acquire(3));
}

#[test]
fn workers_keep_their_proxy() {
    let pool = vec!["http://proxy-a:80".to_string(), "http://proxy-b:80".to_string()];
    for _ in 0..50 {
        let mut run = Orchestrator::with_proxy_pool(2, 4, &pool, 2).unwrap();
        let first: Vec<String> = (0..2).map(|w| run.proxy_of(w).unwrap().clone()).collect();
        for p in &first {
            assert!(pool.contains(p));
        }
        for w in 0..2 {
            if let Pull::Job(_) = run.pull(w) {
                run.acquire(w);
                run.finish(w, false);
            }
        }
        let after: Vec<String> = (0..2).map(|w| run.proxy_of(w).unwrap().clone()).collect();
        assert_eq!(first, after);
        assert!(run.proxy_of(2).is_none());
    }
}
