use vstd::prelude::*;

verus! {

/// A caller's declaration of one tool version to install: the name of the
/// tool plugin, the requested version (a concrete version, "latest", or a
/// path), and the caller's install options — opaque to the scheduler, and
/// handed on to resolution untouched. Immutable once created.
pub struct VersionRequest {
    pub tool_name: String,
    pub version: String,
    pub options: Vec<(String, String)>,
}

/// Abstract value of an option list: the key/value pairs, in order.
pub type OptView = Seq<(Seq<char>, Seq<char>)>;

/// Abstract value of a request: (tool name, version, options).
pub type ReqView = (Seq<char>, Seq<char>, OptView);

/// The abstract values of an option list, in order.
pub open spec fn opts_view(os: Seq<(String, String)>) -> OptView {
    os.map_values(|p: (String, String)| (p.0@, p.1@))
}

impl View for VersionRequest {
    type V = ReqView;

    open spec fn view(&self) -> ReqView {
        (self.tool_name@, self.version@, opts_view(self.options@))
    }
}

impl VersionRequest {
    pub fn new(tool_name: String, version: String, options: Vec<(String, String)>) -> (r: Self)
        ensures
            r@ == (tool_name@, version@, opts_view(options@)),
    {
        VersionRequest { tool_name, version, options }
    }

    /// A value-equal copy of the request.
    pub fn duplicate(&self) -> (r: Self)
        ensures
            r@ == self@,
    {
        let mut options: Vec<(String, String)> = Vec::new();
        let mut i: usize = 0;
        while i < self.options.len()
            invariant
                i <= self.options@.len(),
                options@.len() == i,
                forall|k: int| 0 <= k < i ==> options@[k] == self.options@[k],
            decreases self.options@.len() - i,
        {
            options.push((self.options[i].0.clone(), self.options[i].1.clone()));
            i = i + 1;
        }
        assert(options@ =~= self.options@);
        VersionRequest {
            tool_name: self.tool_name.clone(),
            version: self.version.clone(),
            options,
        }
    }
}

/// The abstract values of a sequence of requests, in order.
pub open spec fn reqs_view(rs: Seq<VersionRequest>) -> Seq<ReqView> {
    rs.map_values(|r: VersionRequest| r@)
}

/// A Version Request made concrete by resolution, immediately before its
/// install: the exact version the collaborator chose, the merged install
/// options, and whether the batch-wide "prefer latest" substitution was
/// requested for it.
pub struct ResolvedJob {
    pub tool_name: String,
    pub version: String,
    pub options: Vec<(String, String)>,
    pub latest_requested: bool,
}

} // verus!
