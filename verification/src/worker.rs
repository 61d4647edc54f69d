use vstd::prelude::*;

use crate::error::InstallError;
use crate::progress::{ProgressHandle, ProgressReporter};
use crate::request::{ReqView, ResolvedJob, VersionRequest, reqs_view};
use crate::groups::WorkGroup;

verus! {

/// The bundle handed to one job's `install_version` call: the resolved job,
/// its progress handle, and the batch execution flags. Job-scoped; never
/// retained after the install returns.
pub struct InstallContext {
    pub job: ResolvedJob,
    pub progress: ProgressHandle,
    pub raw: bool,
    pub force: bool,
}

/// What a worker asks its driver to do next. The driver performs the
/// outside work and feeds the outcome back through the matching `on_*`
/// step.
pub enum WorkerAction {
    /// Pop one whole group from the shared Work Queue (under its lock) and
    /// answer with `on_popped`.
    Pop,
    /// Resolve this request against its tool, honoring the batch-wide
    /// "prefer latest" flag, and answer with `on_resolved`.
    Resolve { request: VersionRequest, prefer_latest: bool },
    /// Call the tool's `install_version` with this context and answer with
    /// `on_installed`.
    Install { context: InstallContext },
    /// The worker is done; this is its result. Success, or the first error
    /// it encountered.
    Finished { outcome: Result<(), InstallError> },
}

/// Which step the worker waits on.
#[derive(Clone, Copy, PartialEq, Eq, Structural, Debug)]
pub enum WorkerPhase {
    AwaitPop,
    AwaitResolve,
    AwaitInstall,
    Done,
}

/// One worker of the pool, as a step machine: it pops a group, then
/// resolves and installs the group's requests strictly in order, stopping
/// at its first error; with the queue empty it finishes successfully.
/// The driver owns the thread and the outside calls; every decision is
/// taken here.
pub struct Worker {
    pub phase: WorkerPhase,
    pub force: bool,
    pub raw: bool,
    pub prefer_latest: bool,
    /// The active group's tool name (meaningful while a group is held).
    pub tool_name: String,
    /// The active group's requests, in their input order.
    pub requests: Vec<VersionRequest>,
    /// How many of the active group's requests have been dispatched for
    /// resolution so far.
    pub next: usize,
    /// The active group's requests whose install has been acknowledged, in
    /// acknowledgment order.
    pub group_installed: Ghost<Seq<ReqView>>,
}

impl Worker {
    /// The worker's bookkeeping is sound: while a request is in flight,
    /// `next` points just past it, and — the order law — what the worker
    /// has installed of its group so far is exactly the group's request
    /// prefix before the in-flight one, in the group's own order. Installs
    /// within one tool are thus strictly sequential and never reordered.
    pub open spec fn wf(self) -> bool {
        &&& self.next <= self.requests@.len()
        &&& (self.phase == WorkerPhase::AwaitResolve || self.phase == WorkerPhase::AwaitInstall)
            ==> 1 <= self.next && self.group_installed@ == reqs_view(self.requests@).take(
            self.next - 1,
        )
    }

    /// The execution flags a worker was started with never change.
    pub open spec fn same_flags(self, other: Worker) -> bool {
        &&& self.force == other.force
        &&& self.raw == other.raw
        &&& self.prefer_latest == other.prefer_latest
    }

    pub fn new(force: bool, raw: bool, prefer_latest: bool) -> (w: Worker)
        ensures
            w.phase == WorkerPhase::AwaitPop,
            w.force == force,
            w.raw == raw,
            w.prefer_latest == prefer_latest,
            w.wf(),
    {
        Worker {
            phase: WorkerPhase::AwaitPop,
            force,
            raw,
            prefer_latest,
            tool_name: String::new(),
            requests: Vec::new(),
            next: 0,
            group_installed: Ghost(Seq::empty()),
        }
    }

    /// Step on the queue's answer to a pop. An empty queue finishes the
    /// worker successfully; a group starts with its first request, in
    /// order; an empty group (which `build_groups` never emits) is skipped.
    pub fn on_popped(&mut self, group: Option<WorkGroup>) -> (a: WorkerAction)
        requires
            old(self).phase == WorkerPhase::AwaitPop,
            old(self).wf(),
        ensures
            final(self).wf(),
            old(self).same_flags(*final(self)),
            group is None ==> final(self).phase == WorkerPhase::Done && (a
                matches WorkerAction::Finished { outcome } && outcome is Ok),
            group matches Some(g) ==> {
                &&& (g.requests@.len() == 0 ==> final(self).phase == WorkerPhase::AwaitPop && a
                    is Pop)
                &&& (g.requests@.len() > 0 ==> {
                    &&& final(self).phase == WorkerPhase::AwaitResolve
                    &&& final(self).tool_name@ == g.tool_name@
                    &&& reqs_view(final(self).requests@) == reqs_view(g.requests@)
                    &&& final(self).next == 1
                    &&& final(self).group_installed@ == Seq::<ReqView>::empty()
                    &&& (a matches WorkerAction::Resolve { request, prefer_latest } && request@
                        == g.requests@[0]@ && prefer_latest == old(self).prefer_latest)
                })
            },
    {
        match group {
            None => {
                self.phase = WorkerPhase::Done;
                WorkerAction::Finished { outcome: Ok(()) }
            },
            Some(g) => {
                if g.requests.len() == 0 {
                    WorkerAction::Pop
                } else {
                    let request = g.requests[0].duplicate();
                    self.tool_name = g.tool_name;
                    self.requests = g.requests;
                    self.next = 1;
                    self.group_installed = Ghost(Seq::empty());
                    self.phase = WorkerPhase::AwaitResolve;
                    proof {
                        assert(reqs_view(self.requests@).take(0) =~= Seq::<ReqView>::empty());
                    }
                    WorkerAction::Resolve { request, prefer_latest: self.prefer_latest }
                }
            },
        }
    }

    /// Step on the outcome of resolving the in-flight request. Failure
    /// finishes the worker with a Resolution error for that request; on
    /// success a progress handle is minted, labeled with the request's
    /// display identity, and the install is requested.
    pub fn on_resolved(&mut self, outcome: Result<ResolvedJob, String>, reporter: &mut ProgressReporter) -> (a:
        WorkerAction)
        requires
            old(self).phase == WorkerPhase::AwaitResolve,
            old(self).wf(),
        ensures
            final(self).wf(),
            old(self).same_flags(*final(self)),
            final(self).tool_name@ == old(self).tool_name@,
            final(self).requests@ == old(self).requests@,
            final(self).next == old(self).next,
            final(self).group_installed == old(self).group_installed,
            outcome matches Err(m) ==> {
                &&& final(self).phase == WorkerPhase::Done
                &&& *final(reporter) == *old(reporter)
                &&& (a matches WorkerAction::Finished { outcome: r } && r matches Err(e) && (e
                    matches InstallError::Resolution { tool_name, version, message } && tool_name@
                    == old(self).tool_name@ && version@ == old(self).requests@[old(self).next
                    - 1]@.1 && message@ == m@))
            },
            outcome matches Ok(job) ==> {
                &&& final(self).phase == WorkerPhase::AwaitInstall
                &&& final(reporter).labels@.len() == old(reporter).labels@.len() + 1
                &&& (forall|k: int|
                    0 <= k < old(reporter).labels@.len() ==> final(reporter).labels@[k] == old(
                        reporter,
                    ).labels@[k])
                &&& label_shows(
                    final(reporter).labels@.last()@,
                    old(self).requests@[old(self).next - 1]@.0,
                    old(self).requests@[old(self).next - 1]@.1,
                )
                &&& (a matches WorkerAction::Install { context } && context.job == job
                    && context.raw == old(self).raw && context.force == old(self).force
                    && context.progress.id == old(reporter).labels@.len())
            },
    {
        match outcome {
            Err(message) => {
                self.phase = WorkerPhase::Done;
                let request = &self.requests[self.next - 1];
                WorkerAction::Finished {
                    outcome: Err(
                        InstallError::Resolution {
                            tool_name: self.tool_name.clone(),
                            version: request.version.clone(),
                            message,
                        },
                    ),
                }
            },
            Ok(job) => {
                let request = &self.requests[self.next - 1];
                let label = styled_request_label(
                    request.tool_name.as_str(),
                    request.version.as_str(),
                );
                let progress = reporter.add(label);
                self.phase = WorkerPhase::AwaitInstall;
                WorkerAction::Install {
                    context: InstallContext { job, progress, raw: self.raw, force: self.force },
                }
            },
        }
    }

    /// Step on the outcome of the in-flight install. Failure finishes the
    /// worker with an Install error for that request; on success the group's
    /// next request is dispatched, or, with the group exhausted, the next
    /// group is popped.
    pub fn on_installed(&mut self, outcome: Result<(), String>) -> (a: WorkerAction)
        requires
            old(self).phase == WorkerPhase::AwaitInstall,
            old(self).wf(),
        ensures
            final(self).wf(),
            old(self).same_flags(*final(self)),
            outcome is Ok ==> final(self).group_installed@ == old(self).group_installed@.push(
                old(self).requests@[old(self).next - 1]@,
            ),
            outcome matches Err(m) ==> {
                &&& final(self).phase == WorkerPhase::Done
                &&& final(self).group_installed == old(self).group_installed
                &&& (a matches WorkerAction::Finished { outcome: r } && r matches Err(e) && (e
                    matches InstallError::Install { tool_name, version, message } && tool_name@
                    == old(self).tool_name@ && version@ == old(self).requests@[old(self).next
                    - 1]@.1 && message@ == m@))
            },
            (outcome is Ok && old(self).next < old(self).requests@.len()) ==> {
                &&& final(self).phase == WorkerPhase::AwaitResolve
                &&& final(self).tool_name@ == old(self).tool_name@
                &&& final(self).requests@ == old(self).requests@
                &&& final(self).next == old(self).next + 1
                &&& (a matches WorkerAction::Resolve { request, prefer_latest } && request@ == old(
                    self,
                ).requests@[old(self).next as int]@ && prefer_latest == old(self).prefer_latest)
            },
            (outcome is Ok && old(self).next == old(self).requests@.len()) ==> final(self).phase
                == WorkerPhase::AwaitPop && a is Pop,
    {
        match outcome {
            Err(message) => {
                self.phase = WorkerPhase::Done;
                let request = &self.requests[self.next - 1];
                WorkerAction::Finished {
                    outcome: Err(
                        InstallError::Install {
                            tool_name: self.tool_name.clone(),
                            version: request.version.clone(),
                            message,
                        },
                    ),
                }
            },
            Ok(()) => {
                self.group_installed = Ghost(
                    self.group_installed@.push(self.requests@[self.next - 1]@),
                );
                proof {
                    assert(reqs_view(self.requests@).take(self.next as int)
                        =~= reqs_view(self.requests@).take(self.next - 1).push(
                        self.requests@[self.next - 1]@,
                    ));
                }
                if self.next < self.requests.len() {
                    let request = self.requests[self.next].duplicate();
                    self.next = self.next + 1;
                    self.phase = WorkerPhase::AwaitResolve;
                    WorkerAction::Resolve { request, prefer_latest: self.prefer_latest }
                } else {
                    self.phase = WorkerPhase::AwaitPop;
                    WorkerAction::Pop
                }
            },
        }
    }
}

/// The label of a job's progress handle shows the job's display identity —
/// "tool@version" — possibly wrapped in terminal escapes.
pub open spec fn label_shows(label: Seq<char>, tool_name: Seq<char>, version: Seq<char>) -> bool {
    exists|p: Seq<char>, s: Seq<char>| label == p + (tool_name + seq!['@'] + version) + s
}

/// Relies on `console::style(..).cyan().for_stderr()` and its `Display`
/// impl: the rendering writes the displayed value itself — here the label
/// "tool@version" — between a (possibly empty) ANSI color prefix and reset
/// suffix, the prefix and suffix depending on whether the environment has
/// colors enabled for stderr.
#[verifier::external_body]
fn styled_request_label(tool_name: &str, version: &str) -> (r: String)
    ensures
        label_shows(r@, tool_name@, version@),
{
    let label = format!("{tool_name}@{version}");
    format!("{}", console::style(label).cyan().for_stderr())
}

} // verus!
