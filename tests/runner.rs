use shiv::detect::{filter_files_to_packages, package_prefix_of, select_packages};
use shiv::dispatch::{default_concurrency, worker_count, Dispatcher, JobState};
use shiv::jobs::{
    build_job, config_path, find_script, finish_job, package_path, prefixed_line, ConfigError,
    Job, JobPlan, Script,
};
use shiv::status::{aggregate, run_status, JobResult, EXIT_FAILURE, EXIT_NO_CHANGES, EXIT_SUCCESS};

fn strings(v: &[&str]) -> Vec<String> {
    v.iter().map(|s| s.to_string()).collect()
}

fn script(name: &str, run: &str) -> Script {
    Script { name: name.to_string(), run: run.to_string() }
}

fn result(package: &str, success: bool) -> JobResult {
    JobResult { package: package.to_string(), success }
}

/// Drives a dispatcher to the end; `fails` names the jobs whose command fails.
/// Returns the results and the largest number of jobs seen running at once.
fn drive(concurrency: usize, packages: &[&str], fails: &[&str]) -> (Vec<JobResult>, usize) {
    let packages = strings(packages);
    let mut d = Dispatcher::new(concurrency, packages.len());
    let mut in_flight: Vec<usize> = Vec::new();
    let mut peak = 0;
    while !d.is_done() {
        while let Some(i) = d.start_next() {
            in_flight.push(i);
        }
        peak = peak.max(d.running());
        let job = in_flight.remove(0);
        assert!(d.is_running(job));
        let ok = !fails.contains(&packages[job].as_str());
        d.finish(job, ok);
    }
    (d.results(&packages), peak)
}

#[test]
fn selects_only_the_touched_package() {
    let selected = filter_files_to_packages(
        &"packages".to_string(),
        &strings(&["a", "b", "c"]),
        &strings(&["packages/b/index.ts"]),
    );
    assert_eq!(selected, strings(&["b"]));
}

#[test]
fn package_name_prefix_does_not_match_longer_name() {
    let selected = filter_files_to_packages(
        &"packages".to_string(),
        &strings(&["foo", "foobar"]),
        &strings(&["packages/foobar/src/lib.ts"]),
    );
    assert_eq!(selected, strings(&["foobar"]));
}

#[test]
fn package_with_many_changed_files_is_selected_once_in_discovery_order() {
    let selected = filter_files_to_packages(
        &"packages".to_string(),
        &strings(&["a", "b", "c"]),
        &strings(&["packages/c/x.ts", "packages/a/1.ts", "packages/c/y.ts", "README.md"]),
    );
    assert_eq!(selected, strings(&["a", "c"]));
}

#[test]
fn no_changed_files_select_nothing() {
    let selected =
        filter_files_to_packages(&"packages".to_string(), &strings(&["a", "b"]), &Vec::new());
    assert!(selected.is_empty());
}

#[test]
fn without_detection_every_package_is_selected() {
    let selected = select_packages(
        false,
        &"packages".to_string(),
        &strings(&["a", "b"]),
        &strings(&["packages/b/x"]),
    );
    assert_eq!(selected, strings(&["a", "b"]));
    let detected = select_packages(
        true,
        &"packages".to_string(),
        &strings(&["a", "b"]),
        &strings(&["packages/b/x"]),
    );
    assert_eq!(detected, strings(&["b"]));
}

#[test]
fn prefix_has_trailing_separator() {
    assert_eq!(package_prefix_of(&"pkgs".to_string(), &"web".to_string()), "pkgs/web/");
}

#[test]
fn aggregate_of_nothing_is_success() {
    assert_eq!(aggregate(&Vec::new()), EXIT_SUCCESS);
    assert_eq!(EXIT_SUCCESS, 0);
}

#[test]
fn aggregate_is_failure_iff_some_result_failed() {
    assert_eq!(aggregate(&vec![result("a", true), result("b", true)]), 0);
    assert_eq!(aggregate(&vec![result("a", true), result("b", false)]), 1);
    assert_eq!(aggregate(&vec![result("a", false), result("b", false)]), EXIT_FAILURE);
}

#[test]
fn run_status_reports_no_changes_distinctly() {
    assert_eq!(run_status(true, 0, &Vec::new()), EXIT_NO_CHANGES);
    assert_ne!(EXIT_NO_CHANGES, EXIT_SUCCESS);
    assert_ne!(EXIT_NO_CHANGES, EXIT_FAILURE);
    assert_eq!(run_status(false, 0, &Vec::new()), EXIT_SUCCESS);
    assert_eq!(run_status(true, 1, &vec![result("a", false)]), EXIT_FAILURE);
}

#[test]
fn detect_changes_with_empty_diff_runs_nothing() {
    let selected = select_packages(true, &"packages".to_string(), &strings(&["a", "b"]), &Vec::new());
    assert!(selected.is_empty());
    let mut d = Dispatcher::new(1, selected.len());
    assert_eq!(d.start_next(), None);
    assert!(d.is_done());
    let results = d.results(&selected);
    assert_eq!(run_status(true, selected.len(), &results), EXIT_NO_CHANGES);
}

#[test]
fn two_workers_five_packages_all_succeed() {
    let (results, peak) = drive(2, &["a", "b", "c", "d", "e"], &[]);
    assert_eq!(results.len(), 5);
    assert!(peak <= 2);
    assert_eq!(peak, 2);
    assert_eq!(run_status(false, 5, &results), 0);
}

#[test]
fn one_failure_does_not_stop_the_others() {
    let (results, peak) = drive(1, &["a", "b", "c"], &["b"]);
    assert_eq!(peak, 1);
    assert_eq!(results.len(), 3);
    assert_eq!(results[0].package, "a");
    assert!(results[0].success);
    assert_eq!(results[1].package, "b");
    assert!(!results[1].success);
    assert_eq!(results[2].package, "c");
    assert!(results[2].success);
    assert_eq!(run_status(false, 3, &results), 1);
}

#[test]
fn dispatcher_never_exceeds_its_workers() {
    let mut d = Dispatcher::new(3, 2);
    assert_eq!(d.workers(), 2);
    assert_eq!(d.start_next(), Some(0));
    assert_eq!(d.start_next(), Some(1));
    assert_eq!(d.start_next(), None);
    assert_eq!(d.running(), 2);
    d.finish(1, true);
    assert!(!d.is_running(1));
    assert!(d.is_running(0));
    assert!(!d.is_done());
    d.finish(0, false);
    assert!(d.is_done());
    let mut busy = Dispatcher::new(1, 3);
    assert_eq!(busy.start_next(), Some(0));
    assert_eq!(busy.start_next(), None);
    busy.finish(0, true);
    assert_eq!(busy.start_next(), Some(1));
    assert_eq!(busy.total(), 3);
}

#[test]
fn job_states_are_tracked() {
    let mut d = Dispatcher::new(1, 1);
    assert!(!d.is_running(0));
    assert!(!d.is_running(5));
    d.start_next();
    assert!(d.is_running(0));
    d.finish(0, true);
    assert_eq!(JobState::Finished(true), JobState::Finished(true));
}

#[test]
fn worker_count_is_the_minimum() {
    assert_eq!(worker_count(4, 2), 2);
    assert_eq!(worker_count(2, 5), 2);
    assert_eq!(worker_count(3, 0), 0);
    assert_eq!(default_concurrency(), 1);
}

#[test]
fn find_script_takes_the_last_matching_entry() {
    let scripts = vec![script("build", "make"), script("test", "make test"), script("build", "make all")];
    assert_eq!(find_script(&scripts, &"build".to_string()), Some("make all".to_string()));
    assert_eq!(find_script(&scripts, &"test".to_string()), Some("make test".to_string()));
    assert_eq!(find_script(&scripts, &"lint".to_string()), None);
}

#[test]
fn missing_script_entry_is_a_success() {
    let config = Ok(vec![script("build", "make")]);
    let plan = build_job(&"a".to_string(), &config, &"lint".to_string());
    assert!(matches!(&plan, JobPlan::NoEntry(p) if p == "a"));
    let r = finish_job(&plan, false);
    assert_eq!(r.package, "a");
    assert!(r.success);
}

#[test]
fn unreadable_config_is_a_failure_of_that_package() {
    let config = Err(ConfigError { message: "bad json".to_string() });
    let plan = build_job(&"b".to_string(), &config, &"build".to_string());
    assert!(matches!(&plan, JobPlan::BadConfig { package, message } if package == "b" && message == "bad json"));
    let r = finish_job(&plan, true);
    assert_eq!(r.package, "b");
    assert!(!r.success);
}

#[test]
fn job_succeeds_as_its_command_did() {
    let config = Ok(vec![script("build", "make")]);
    let plan = build_job(&"c".to_string(), &config, &"build".to_string());
    match &plan {
        JobPlan::Run(Job { package, command }) => {
            assert_eq!(package, "c");
            assert_eq!(command, "make");
        }
        _ => panic!("expected a job"),
    }
    assert!(finish_job(&plan, true).success);
    assert!(!finish_job(&plan, false).success);
}

#[test]
fn paths_and_output_lines() {
    let dir = package_path(&"/repo".to_string(), &"web".to_string());
    assert_eq!(dir, "/repo/web");
    assert_eq!(config_path(&dir), "/repo/web/shiv.json");
    assert_eq!(prefixed_line(&"web".to_string(), "done"), "[web]  done");
}
