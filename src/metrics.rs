use vstd::prelude::*;

verus! {

/// Counters of calls made to the GitHub API.
#[derive(Clone, Copy, Debug, PartialEq, Eq, Structural)]
pub enum Counter {
    InstallationToken,
    Repo,
    Contents,
}

/// The metric name of each counter.
pub open spec fn counter_name(c: Counter) -> Seq<char> {
    match c {
        Counter::InstallationToken => "github.installation-token"@,
        Counter::Repo => "github.api.repo"@,
        Counter::Contents => "github.api.contents"@,
    }
}

impl Counter {
    /// The name under which this counter is reported.
    pub fn id(&self) -> (r: String)
        ensures
            r@ == counter_name(*self),
    {
        match *self {
            Counter::InstallationToken => "github.installation-token".to_owned(),
            Counter::Repo => "github.api.repo".to_owned(),
            Counter::Contents => "github.api.contents".to_owned(),
        }
    }
}

} // verus!
