use toolsched::error::{FinStep, InstallError};
use toolsched::finalize::{after_pool, combine_results, next_finalization};
use toolsched::groups::{WorkGroup, WorkQueue, build_groups};
use toolsched::installer::{Installer, Settings, StartOutcome, prepass_result};
use toolsched::progress::ProgressReporter;
use toolsched::request::{ResolvedJob, VersionRequest};
use toolsched::worker::{Worker, WorkerAction};

fn req(tool: &str, version: &str) -> VersionRequest {
    VersionRequest::new(tool.to_string(), version.to_string(), Vec::new())
}

fn settings(jobs: usize, raw: bool) -> Settings {
    Settings { jobs, raw }
}

/// Run one worker to completion against the shared queue, scripting the
/// collaborators' outcomes: resolution fails for requests listed in
/// `resolve_fails`, installs fail for those in `install_fails`, and every
/// successful install is appended to `installed`.
fn drive_worker(
    worker: &mut Worker,
    queue: &mut WorkQueue,
    reporter: &mut ProgressReporter,
    resolve_fails: &[(&str, &str)],
    install_fails: &[(&str, &str)],
    installed: &mut Vec<(String, String)>,
) -> Result<(), InstallError> {
    let mut action = WorkerAction::Pop;
    loop {
        match action {
            WorkerAction::Pop => {
                let group = queue.pop();
                action = worker.on_popped(group);
            }
            WorkerAction::Resolve {
                request,
                prefer_latest,
            } => {
                let fails = resolve_fails
                    .iter()
                    .any(|(t, v)| request.tool_name == *t && request.version == *v);
                let outcome = if fails {
                    Err(format!("no release matches {}", request.version))
                } else {
                    Ok(ResolvedJob {
                        tool_name: request.tool_name.clone(),
                        version: request.version.clone(),
                        options: request.options.clone(),
                        latest_requested: prefer_latest,
                    })
                };
                action = worker.on_resolved(outcome, reporter);
            }
            WorkerAction::Install { context } => {
                let fails = install_fails
                    .iter()
                    .any(|(t, v)| context.job.tool_name == *t && context.job.version == *v);
                let outcome = if fails {
                    Err("build failed".to_string())
                } else {
                    installed.push((context.job.tool_name.clone(), context.job.version.clone()));
                    Ok(())
                };
                action = worker.on_installed(outcome);
            }
            WorkerAction::Finished { outcome } => return outcome,
        }
    }
}

/// Run the finalization sequence, scripting one failing step (or none),
/// and record which steps were invoked, in order.
fn drive_finalization(
    pool_result: &Result<(), InstallError>,
    failing_step: Option<FinStep>,
    invoked: &mut Vec<FinStep>,
) -> Result<(), InstallError> {
    let mut next = after_pool(pool_result);
    while let Some(step) = next {
        invoked.push(step);
        let outcome = if failing_step == Some(step) {
            Err("finalization step failed".to_string())
        } else {
            Ok(())
        };
        match next_finalization(step, outcome) {
            Ok(n) => next = n,
            Err(e) => return Err(e),
        }
    }
    Ok(())
}

#[test]
fn empty_input_is_immediate_success() {
    let installer = Installer::new(&settings(4, false));
    match installer.start(Vec::new()) {
        StartOutcome::AllDone => {}
        StartOutcome::Run(_) => panic!("empty input must not start a run"),
    }
}

#[test]
fn groups_partition_the_input() {
    let groups = build_groups(vec![req("a", "1"), req("b", "2"), req("a", "3")]);
    assert_eq!(groups.len(), 2);
    assert_eq!(groups[0].tool_name, "a");
    let versions_a: Vec<&str> = groups[0].requests.iter().map(|r| r.version.as_str()).collect();
    assert_eq!(versions_a, vec!["1", "3"]);
    assert_eq!(groups[1].tool_name, "b");
    let versions_b: Vec<&str> = groups[1].requests.iter().map(|r| r.version.as_str()).collect();
    assert_eq!(versions_b, vec!["2"]);
    let total: usize = groups.iter().map(|g| g.requests.len()).sum();
    assert_eq!(total, 3);
}

#[test]
fn intra_tool_order_is_preserved() {
    let groups = build_groups(vec![req("a", "3"), req("a", "1"), req("b", "2"), req("a", "2")]);
    assert_eq!(groups[0].tool_name, "a");
    let versions: Vec<&str> = groups[0].requests.iter().map(|r| r.version.as_str()).collect();
    assert_eq!(versions, vec!["3", "1", "2"]);
    for g in &groups {
        for r in &g.requests {
            assert_eq!(r.tool_name, g.tool_name);
        }
    }
}

#[test]
fn prepass_provisions_each_tool_once() {
    let installer = Installer::new(&settings(2, false));
    let requests = vec![req("a", "1"), req("b", "2"), req("a", "3"), req("a", "4")];
    let run = match installer.start(requests) {
        StartOutcome::Run(run) => run,
        StartOutcome::AllDone => panic!("non-empty input must start a run"),
    };
    assert_eq!(run.prepass, vec!["a".to_string(), "b".to_string()]);
    let mut ensure_calls: Vec<String> = Vec::new();
    for tool in &run.prepass {
        let already_installed = false;
        if !already_installed {
            ensure_calls.push(tool.clone());
            prepass_result(tool, Ok(())).unwrap();
        }
    }
    assert_eq!(ensure_calls.iter().filter(|t| *t == "a").count(), 1);
    assert_eq!(ensure_calls.iter().filter(|t| *t == "b").count(), 1);
}

#[test]
fn prepass_failure_is_fatal_plugin_provision() {
    let r = prepass_result(&"a".to_string(), Err("plugin download failed".to_string()));
    match r {
        Err(InstallError::PluginProvision { tool_name, message }) => {
            assert_eq!(tool_name, "a");
            assert_eq!(message, "plugin download failed");
        }
        _ => panic!("a failing pre-pass step must surface a PluginProvision error"),
    }
}

#[test]
fn raw_forces_single_worker() {
    let installer = Installer::new(&settings(4, false)).with_jobs(8).with_raw(true);
    assert_eq!(installer.jobs, 1);
    assert_eq!(installer.effective_jobs(), 1);
    // the pin holds regardless of a job count configured afterwards
    let installer = Installer::new(&settings(4, false)).with_raw(true).with_jobs(8);
    assert_eq!(installer.effective_jobs(), 1);
    match installer.start(vec![req("a", "1")]) {
        StartOutcome::Run(run) => assert_eq!(run.workers, 1),
        StartOutcome::AllDone => panic!("non-empty input must start a run"),
    }
}

#[test]
fn configured_jobs_size_the_pool() {
    let installer = Installer::new(&settings(4, false));
    assert_eq!(installer.effective_jobs(), 4);
    // a pool never runs with zero workers, which would leave the queue undrained
    assert_eq!(Installer::new(&settings(0, false)).effective_jobs(), 1);
    let installer = installer.with_jobs(7);
    match installer.start(vec![req("a", "1")]) {
        StartOutcome::Run(run) => assert_eq!(run.workers, 7),
        StartOutcome::AllDone => panic!("non-empty input must start a run"),
    }
}

#[test]
fn builders_set_their_flags() {
    let installer = Installer::new(&settings(3, false));
    assert!(!installer.force);
    assert!(!installer.raw);
    assert!(!installer.latest_versions);
    assert!(installer.mpr.is_none());
    assert_eq!(installer.jobs, 3);
    let installer = installer.with_force(true).with_latest_versions(true);
    assert!(installer.force);
    assert!(installer.latest_versions);
}

#[test]
fn supplied_reporter_is_kept() {
    let mut mpr = ProgressReporter::new();
    mpr.add("earlier".to_string());
    let installer = Installer::new(&settings(1, false)).with_mpr(mpr);
    match installer.start(vec![req("a", "1")]) {
        StartOutcome::Run(run) => {
            assert_eq!(run.reporter.labels.len(), 1);
            assert_eq!(run.reporter.labels[0], "earlier");
        }
        StartOutcome::AllDone => panic!("non-empty input must start a run"),
    }
}

#[test]
fn queue_pops_whole_groups_in_reverse_order() {
    let groups = build_groups(vec![req("a", "1"), req("b", "2")]);
    let mut queue = WorkQueue::new(groups);
    let first = queue.pop().unwrap();
    assert_eq!(first.tool_name, "b");
    let second = queue.pop().unwrap();
    assert_eq!(second.tool_name, "a");
    assert_eq!(second.requests.len(), 1);
    assert!(queue.pop().is_none());
}

#[test]
fn reporter_mints_fresh_handles_in_order() {
    let mut reporter = ProgressReporter::new();
    let h0 = reporter.add("one".to_string());
    let h1 = reporter.add("two".to_string());
    assert_eq!(h0.id, 0);
    assert_eq!(h1.id, 1);
    assert_eq!(reporter.labels, vec!["one".to_string(), "two".to_string()]);
}

#[test]
fn progress_label_shows_the_request() {
    let groups = build_groups(vec![req("node", "20.1.0")]);
    let mut queue = WorkQueue::new(groups);
    let mut reporter = ProgressReporter::new();
    let mut worker = Worker::new(false, false, false);
    let mut installed = Vec::new();
    drive_worker(&mut worker, &mut queue, &mut reporter, &[], &[], &mut installed).unwrap();
    assert_eq!(reporter.labels.len(), 1);
    assert!(reporter.labels[0].contains("node@20.1.0"));
}

#[test]
fn worker_context_carries_the_flags() {
    let options = vec![("lts".to_string(), "true".to_string())];
    let groups = build_groups(vec![VersionRequest::new(
        "a".to_string(),
        "1".to_string(),
        options.clone(),
    )]);
    let mut queue = WorkQueue::new(groups);
    let mut reporter = ProgressReporter::new();
    let mut worker = Worker::new(true, true, true);
    let group = queue.pop();
    let action = worker.on_popped(group);
    let (request, prefer_latest) = match action {
        WorkerAction::Resolve { request, prefer_latest } => (request, prefer_latest),
        _ => panic!("a popped group must start with a resolve"),
    };
    assert!(prefer_latest);
    let job = ResolvedJob {
        tool_name: request.tool_name.clone(),
        version: request.version.clone(),
        options: request.options.clone(),
        latest_requested: prefer_latest,
    };
    let action = worker.on_resolved(Ok(job), &mut reporter);
    match action {
        WorkerAction::Install { context } => {
            assert!(context.raw);
            assert!(context.force);
            assert_eq!(context.progress.id, 0);
            assert_eq!(context.job.tool_name, "a");
            assert_eq!(context.job.version, "1");
            assert_eq!(context.job.options, options);
        }
        _ => panic!("a resolved job must be installed next"),
    }
}

#[test]
fn pool_failure_skips_finalization() {
    let worker_results = vec![
        Ok(()),
        Err(InstallError::Install {
            tool_name: "a".to_string(),
            version: "1".to_string(),
            message: "build failed".to_string(),
        }),
    ];
    let combined = combine_results(worker_results);
    assert!(combined.is_err());
    let mut invoked = Vec::new();
    let outcome = drive_finalization(&combined, None, &mut invoked);
    assert!(invoked.is_empty());
    assert!(outcome.is_ok());
}

#[test]
fn combined_result_is_the_first_error() {
    let e1 = InstallError::Resolution {
        tool_name: "a".to_string(),
        version: "1".to_string(),
        message: "first".to_string(),
    };
    let e2 = InstallError::Install {
        tool_name: "b".to_string(),
        version: "2".to_string(),
        message: "second".to_string(),
    };
    let combined = combine_results(vec![Ok(()), Err(e1), Err(e2)]);
    match combined {
        Err(InstallError::Resolution { message, .. }) => assert_eq!(message, "first"),
        _ => panic!("the first error in join order must be surfaced"),
    }
    assert!(combine_results(vec![Ok(()), Ok(())]).is_ok());
    assert!(combine_results(Vec::new()).is_ok());
}

#[test]
fn finalization_runs_once_in_fixed_order() {
    let mut invoked = Vec::new();
    let outcome = drive_finalization(&Ok(()), None, &mut invoked);
    assert!(outcome.is_ok());
    assert_eq!(
        invoked,
        vec![FinStep::ResolveToolset, FinStep::Reshim, FinStep::Symlinks]
    );
}

#[test]
fn finalization_failure_stops_later_steps() {
    let mut invoked = Vec::new();
    let outcome = drive_finalization(&Ok(()), Some(FinStep::Reshim), &mut invoked);
    // step 1 ran, step 2 failed, step 3 was never reached
    assert_eq!(invoked, vec![FinStep::ResolveToolset, FinStep::Reshim]);
    match outcome {
        Err(InstallError::Finalization { step, message }) => {
            assert_eq!(step, FinStep::Reshim);
            assert_eq!(message, "finalization step failed");
        }
        _ => panic!("a failing finalization step must surface a Finalization error"),
    }
}

#[test]
fn scenario_two_tools_full_success() {
    let installer = Installer::new(&settings(2, false));
    let requests = vec![req("a", "1"), req("b", "2"), req("a", "3")];
    let mut run = match installer.start(requests) {
        StartOutcome::Run(run) => run,
        StartOutcome::AllDone => panic!("non-empty input must start a run"),
    };
    assert_eq!(run.workers, 2);
    let mut provisioned = Vec::new();
    for tool in &run.prepass {
        provisioned.push(tool.clone());
        prepass_result(tool, Ok(())).unwrap();
    }
    assert_eq!(provisioned, vec!["a".to_string(), "b".to_string()]);
    let mut installed = Vec::new();
    let mut results = Vec::new();
    for _ in 0..run.workers {
        let mut worker = Worker::new(run.force, run.raw, run.latest_versions);
        results.push(drive_worker(
            &mut worker,
            &mut run.queue,
            &mut run.reporter,
            &[],
            &[],
            &mut installed,
        ));
    }
    let combined = combine_results(results);
    assert!(combined.is_ok());
    assert_eq!(installed.len(), 3);
    let a1 = installed.iter().position(|(t, v)| t == "a" && v == "1").unwrap();
    let a3 = installed.iter().position(|(t, v)| t == "a" && v == "3").unwrap();
    assert!(a1 < a3, "tool a's version 1 must install strictly before version 3");
    assert!(installed.iter().any(|(t, v)| t == "b" && v == "2"));
    let mut invoked = Vec::new();
    drive_finalization(&combined, None, &mut invoked).unwrap();
    assert_eq!(
        invoked,
        vec![FinStep::ResolveToolset, FinStep::Reshim, FinStep::Symlinks]
    );
}

#[test]
fn scenario_resolution_failure_keeps_earlier_install() {
    let installer = Installer::new(&settings(2, false));
    let mut run = match installer.start(vec![req("a", "1"), req("a", "2")]) {
        StartOutcome::Run(run) => run,
        StartOutcome::AllDone => panic!("non-empty input must start a run"),
    };
    let mut installed = Vec::new();
    let mut worker = Worker::new(run.force, run.raw, run.latest_versions);
    let result = drive_worker(
        &mut worker,
        &mut run.queue,
        &mut run.reporter,
        &[("a", "2")],
        &[],
        &mut installed,
    );
    match &result {
        Err(InstallError::Resolution { tool_name, version, .. }) => {
            assert_eq!(tool_name, "a");
            assert_eq!(version, "2");
        }
        _ => panic!("version 2's resolution failure must surface a Resolution error"),
    }
    // version 1 was installed before the failure and stays
    assert_eq!(installed, vec![("a".to_string(), "1".to_string())]);
    let combined = combine_results(vec![result]);
    assert!(combined.is_err());
    let mut invoked = Vec::new();
    drive_finalization(&combined, None, &mut invoked).unwrap();
    assert!(invoked.is_empty(), "finalization must not run after a pool failure");
}

#[test]
fn scenario_install_failure_surfaces_install_error() {
    let groups = build_groups(vec![req("a", "1")]);
    let mut queue = WorkQueue::new(groups);
    let mut reporter = ProgressReporter::new();
    let mut worker = Worker::new(false, false, false);
    let mut installed = Vec::new();
    let result = drive_worker(
        &mut worker,
        &mut queue,
        &mut reporter,
        &[],
        &[("a", "1")],
        &mut installed,
    );
    match result {
        Err(InstallError::Install { tool_name, version, message }) => {
            assert_eq!(tool_name, "a");
            assert_eq!(version, "1");
            assert_eq!(message, "build failed");
        }
        _ => panic!("a failing install must surface an Install error"),
    }
    assert!(installed.is_empty());
}

#[test]
fn scenario_single_worker_drains_three_tools() {
    let installer = Installer::new(&settings(1, false));
    let requests = vec![req("a", "1"), req("b", "1"), req("c", "1")];
    let mut run = match installer.start(requests) {
        StartOutcome::Run(run) => run,
        StartOutcome::AllDone => panic!("non-empty input must start a run"),
    };
    assert_eq!(run.workers, 1);
    let mut installed = Vec::new();
    let mut worker = Worker::new(run.force, run.raw, run.latest_versions);
    let result = drive_worker(
        &mut worker,
        &mut run.queue,
        &mut run.reporter,
        &[],
        &[],
        &mut installed,
    );
    assert!(result.is_ok());
    // the single worker executes the groups one at a time, in pop order
    assert_eq!(
        installed,
        vec![
            ("c".to_string(), "1".to_string()),
            ("b".to_string(), "1".to_string()),
            ("a".to_string(), "1".to_string()),
        ]
    );
    assert!(run.queue.pop().is_none());
}

#[test]
fn worker_skips_an_empty_group() {
    let empty = WorkGroup { tool_name: "a".to_string(), requests: Vec::new() };
    let mut worker = Worker::new(false, false, false);
    let action = worker.on_popped(Some(empty));
    assert!(matches!(action, WorkerAction::Pop));
    let action = worker.on_popped(None);
    match action {
        WorkerAction::Finished { outcome } => assert!(outcome.is_ok()),
        _ => panic!("an empty queue must finish the worker successfully"),
    }
}
