use enola::orchestrator::SetupError;
use enola::plan::{
    api_mode_checks, api_mode_eta, filename, output_plan, proxy_mode_checks, proxy_mode_eta, results_location,
    time_format, Caution, OutputPlan, ResultsLocation,
};

#[test]
fn durations_in_words() {
    assert_eq!(time_format(0), "0 second");
    assert_eq!(time_format(1), "1 second");
    assert_eq!(time_format(59), "59 seconds");
    assert_eq!(time_format(60), "1 minute");
    assert_eq!(time_format(61), "1 minute, and 1 second");
    assert_eq!(time_format(3600), "1 hour");
    assert_eq!(time_format(7322), "2 hours, 2 minutes, and 2 seconds");
    assert_eq!(time_format(3660), "1 hour, and 1 minute");
}

#[test]
fn estimates() {
    assert_eq!(proxy_mode_eta(10, 3), 3);
    assert_eq!(api_mode_eta(10, 5000, 2), 25);
    assert_eq!(api_mode_eta(u64::MAX, u64::MAX, 1), u64::MAX);
}

#[test]
fn proxy_mode_decisions() {
    assert_eq!(proxy_mode_checks(0, 1, 1, 1), Err(SetupError::ZeroBudget));
    assert_eq!(proxy_mode_checks(3, 0, 1, 1), Err(SetupError::NoQueries));
    assert_eq!(proxy_mode_checks(3, 4, 0, 1), Err(SetupError::NoProxies));
    assert_eq!(proxy_mode_checks(3, 4, 2, 0), Err(SetupError::NoWorkers));
    assert_eq!(proxy_mode_checks(3, 4, 2, 5), Ok(vec![]));
    assert_eq!(proxy_mode_checks(4, 4, 2, 6), Ok(vec![Caution::HighConcurrency, Caution::ManyWorkers]));
}

#[test]
fn api_mode_decisions() {
    assert_eq!(api_mode_checks(0, 3, false), Err(SetupError::ZeroBudget));
    assert_eq!(api_mode_checks(3, 0, false), Err(SetupError::NoQueries));
    assert_eq!(api_mode_checks(5, 3, false), Ok(vec![]));
    assert_eq!(api_mode_checks(6, 3, true), Ok(vec![Caution::HighConcurrency, Caution::IgnoredPayload]));
}

#[test]
fn file_names() {
    assert_eq!(filename("alice"), "alice");
    assert_eq!(filename("   "), "enola");
    assert_eq!(filename(""), "enola");
}

#[test]
fn output_plans() {
    match output_plan("bob", None, false) {
        OutputPlan::DefaultDirectory(n) => assert_eq!(n, "bob.txt"),
        _ => panic!("expected the default directory"),
    }
    match output_plan(" ", Some("out/"), false) {
        OutputPlan::InDirectory(d, n) => {
            assert_eq!(d, "out/");
            assert_eq!(n, "enola.txt");
        }
        _ => panic!("expected a directory"),
    }
    match output_plan("bob", Some("out"), true) {
        OutputPlan::InDirectory(d, n) => {
            assert_eq!(d, "out");
            assert_eq!(n, "bob.txt");
        }
        _ => panic!("expected a directory"),
    }
    match output_plan("bob", Some("out/r.txt"), false) {
        OutputPlan::File(p) => assert_eq!(p, "out/r.txt"),
        _ => panic!("expected a file"),
    }
}

#[test]
fn results_locations() {
    assert_eq!(results_location(true, true), ResultsLocation::BesideExecutable);
    assert_eq!(results_location(false, true), ResultsLocation::UnderHome);
    assert_eq!(results_location(false, false), ResultsLocation::WorkingDirectory);
}
