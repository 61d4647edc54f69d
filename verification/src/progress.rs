use vstd::prelude::*;

verus! {

/// A per-job progress handle minted by the reporter: the index of the job's
/// label in the reporter's label list.
pub struct ProgressHandle {
    pub id: usize,
}

/// The progress aggregator: it mints one handle per job, labeled with the
/// job's display identity. The labels are kept in minting order.
pub struct ProgressReporter {
    pub labels: Vec<String>,
}

impl ProgressReporter {
    pub fn new() -> (r: Self)
        ensures
            r.labels@.len() == 0,
    {
        ProgressReporter { labels: Vec::new() }
    }

    /// Mint a handle for one job, labeled `label`. Handles are never reused:
    /// each call returns a fresh id.
    pub fn add(&mut self, label: String) -> (h: ProgressHandle)
        ensures
            final(self).labels@ == old(self).labels@.push(label),
            h.id == old(self).labels@.len(),
    {
        let id = self.labels.len();
        self.labels.push(label);
        ProgressHandle { id }
    }
}

} // verus!
