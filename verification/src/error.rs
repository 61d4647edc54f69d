use vstd::prelude::*;

verus! {

/// The three post-install finalization steps, in the fixed order they run:
/// re-resolve the toolset, regenerate shims, rebuild the runtime symlinks.
#[derive(Clone, Copy, PartialEq, Eq, Structural, Debug)]
pub enum FinStep {
    ResolveToolset,
    Reshim,
    Symlinks,
}

/// The error kinds an install can surface. Every kind is terminal for the
/// whole install call: nothing is retried and nothing is rolled back.
#[derive(Debug)]
pub enum InstallError {
    /// The pre-pass failed to provision a tool plugin; no parallel work has
    /// started when this is raised.
    PluginProvision { tool_name: String, message: String },
    /// A Version Request could not be resolved to a concrete installable;
    /// the worker that hit it stops, other workers are unaffected.
    Resolution { tool_name: String, version: String, message: String },
    /// The install step of one resolved job failed; the worker that hit it
    /// stops, other workers are unaffected.
    Install { tool_name: String, version: String, message: String },
    /// One of the finalization steps failed; the remaining steps do not run,
    /// but everything already installed stays on disk.
    Finalization { step: FinStep, message: String },
}

} // verus!
