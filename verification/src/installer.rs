use vstd::prelude::*;

use crate::error::InstallError;
use crate::groups::{WorkQueue, build_groups, group_tools, groups_of, groups_view};
use crate::progress::ProgressReporter;
use crate::request::{VersionRequest, reqs_view};

verus! {

/// The global settings the orchestrator is configured from: the default
/// worker count and whether raw terminal output is required.
pub struct Settings {
    pub jobs: usize,
    pub raw: bool,
}

/// The install orchestrator's configuration: an optional externally
/// supplied progress reporter, the force-reinstall flag, the worker count,
/// the raw-output flag, and the prefer-latest flag.
pub struct Installer {
    pub mpr: Option<ProgressReporter>,
    pub force: bool,
    pub jobs: usize,
    pub raw: bool,
    pub latest_versions: bool,
}

/// Everything a started install hands its driver: the pre-pass plan, the
/// queue of work groups, the pool size, the reporter, and the flags the
/// workers run with.
pub struct InstallRun {
    /// The distinct tool names of the input, in first-appearance order:
    /// the pre-pass provisions each of these once, sequentially, before
    /// any worker starts.
    pub prepass: Vec<String>,
    /// The Work Queue, to be shared (behind one lock) by all workers.
    pub queue: WorkQueue,
    /// How many workers to run.
    pub workers: usize,
    /// The progress reporter every worker mints handles from: the supplied
    /// one, or a fresh one if none was supplied.
    pub reporter: ProgressReporter,
    pub force: bool,
    pub raw: bool,
    pub latest_versions: bool,
}

/// How an install call begins: an empty input is a success with no side
/// effects at all; otherwise the driver receives the full run description.
pub enum StartOutcome {
    AllDone,
    Run(InstallRun),
}

impl Installer {
    /// A fresh orchestrator: worker count and raw mode from the settings,
    /// no external reporter, no force, no latest-substitution.
    pub fn new(settings: &Settings) -> (s: Self)
        ensures
            s.mpr is None,
            !s.force,
            s.jobs == settings.jobs,
            s.raw == settings.raw,
            !s.latest_versions,
    {
        Installer {
            mpr: None,
            force: false,
            jobs: settings.jobs,
            raw: settings.raw,
            latest_versions: false,
        }
    }

    /// Use an externally supplied progress reporter.
    pub fn with_mpr(self, mpr: ProgressReporter) -> (s: Self)
        ensures
            s.mpr == Some(mpr),
            s.force == self.force,
            s.jobs == self.jobs,
            s.raw == self.raw,
            s.latest_versions == self.latest_versions,
    {
        Installer { mpr: Some(mpr), ..self }
    }

    pub fn with_force(self, force: bool) -> (s: Self)
        ensures
            s.force == force,
            s.mpr == self.mpr,
            s.jobs == self.jobs,
            s.raw == self.raw,
            s.latest_versions == self.latest_versions,
    {
        Installer { force, ..self }
    }

    pub fn with_jobs(self, jobs: usize) -> (s: Self)
        ensures
            s.jobs == jobs,
            s.mpr == self.mpr,
            s.force == self.force,
            s.raw == self.raw,
            s.latest_versions == self.latest_versions,
    {
        Installer { jobs, ..self }
    }

    /// Raw mode pins the configured worker count to 1; and whatever the
    /// count is set to afterwards, a raw run still starts a single worker
    /// (see `effective_jobs`).
    pub fn with_raw(self, raw: bool) -> (s: Self)
        ensures
            s.raw == raw,
            raw ==> s.jobs == 1,
            !raw ==> s.jobs == self.jobs,
            s.mpr == self.mpr,
            s.force == self.force,
            s.latest_versions == self.latest_versions,
    {
        if raw {
            Installer { raw, jobs: 1, ..self }
        } else {
            Installer { raw, ..self }
        }
    }

    pub fn with_latest_versions(self, latest_versions: bool) -> (s: Self)
        ensures
            s.latest_versions == latest_versions,
            s.mpr == self.mpr,
            s.force == self.force,
            s.jobs == self.jobs,
            s.raw == self.raw,
    {
        Installer { latest_versions, ..self }
    }

    /// The pool size a run really gets.
    pub open spec fn spec_effective_jobs(self) -> int {
        if self.raw || self.jobs == 0 {
            1
        } else {
            self.jobs as int
        }
    }

    /// Law: raw output forces fully serial execution — one worker —
    /// regardless of any configured job count. A pool also never runs with
    /// zero workers, which would leave the queue undrained.
    pub fn effective_jobs(&self) -> (n: usize)
        ensures
            n == self.spec_effective_jobs(),
            self.raw ==> n == 1,
    {
        if self.raw || self.jobs == 0 {
            1
        } else {
            self.jobs
        }
    }

    /// Begin an install of the requested versions.
    ///
    /// Law: an empty input returns success immediately, with no pre-pass,
    /// no pool and no finalization — no run is even described. Otherwise
    /// the run holds the groups of the input, the pre-pass plan (exactly
    /// the groups' tools, once each, in first-appearance order), the
    /// effective pool size, and the flags the workers inherit.
    pub fn start(self, requests: Vec<VersionRequest>) -> (o: StartOutcome)
        ensures
            requests@.len() == 0 <==> o is AllDone,
            o matches StartOutcome::Run(run) ==> {
                &&& groups_view(run.queue.groups@) == groups_of(reqs_view(requests@))
                &&& run.prepass@.map_values(|s: String| s@) == group_tools(
                    groups_of(reqs_view(requests@)),
                )
                &&& run.workers == self.spec_effective_jobs()
                &&& run.force == self.force
                &&& run.raw == self.raw
                &&& run.latest_versions == self.latest_versions
                &&& (self.mpr matches Some(r) ==> run.reporter == r)
                &&& (self.mpr is None ==> run.reporter.labels@.len() == 0)
            },
    {
        if requests.len() == 0 {
            return StartOutcome::AllDone;
        }
        let workers = self.effective_jobs();
        let groups = build_groups(requests);
        let mut prepass: Vec<String> = Vec::new();
        let mut i: usize = 0;
        let ghost gv = groups_view(groups@);
        while i < groups.len()
            invariant
                i <= groups@.len(),
                groups_view(groups@) == gv,
                prepass@.len() == i,
                forall|k: int| 0 <= k < i ==> prepass@[k]@ == gv[k].0,
            decreases groups@.len() - i,
        {
            prepass.push(groups[i].tool_name.clone());
            assert(gv[i as int].0 == groups@[i as int].tool_name@);
            i = i + 1;
        }
        assert(prepass@.map_values(|s: String| s@) =~= group_tools(gv));
        let reporter = match self.mpr {
            Some(r) => r,
            None => ProgressReporter::new(),
        };
        StartOutcome::Run(
            InstallRun {
                prepass,
                queue: WorkQueue::new(groups),
                workers,
                reporter,
                force: self.force,
                raw: self.raw,
                latest_versions: self.latest_versions,
            },
        )
    }
}

/// Turn the outcome of one pre-pass `ensure_installed` call into the
/// install call's result: a failure is fatal to the whole operation, as a
/// plugin-provision error, before any parallel work starts.
pub fn prepass_result(tool_name: &String, outcome: Result<(), String>) -> (r: Result<
    (),
    InstallError,
>)
    ensures
        outcome is Ok <==> r is Ok,
        outcome matches Err(m) ==> (r matches Err(e) && (e
            matches InstallError::PluginProvision { tool_name: t, message } && t@ == tool_name@
            && message@ == m@)),
{
    match outcome {
        Ok(()) => Ok(()),
        Err(message) => Err(
            InstallError::PluginProvision { tool_name: tool_name.clone(), message },
        ),
    }
}

} // verus!
