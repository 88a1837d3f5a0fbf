//! The settings of a mirror run.

use vstd::prelude::*;

verus! {

/// The settings of a mirror run.
#[derive(Debug)]
pub struct CliOpts {
    /// Root of the recursive walk for manifest files.
    pub manifests_path: String,
    /// Root of the mirror tree.
    pub output: String,
    /// Number of concurrent download workers.
    pub dl_threads: u8,
    /// Base URL of the upstream registry.
    pub registry_url: String,
    /// Whether cache misses are logged.
    pub verbose: bool,
    /// Whether every satisfying version is taken, not only the highest of
    /// each range.
    pub greedy: bool,
    /// Whether optional dependencies are left out of an index.
    pub no_optional_deps: bool,
    /// Whether development dependencies are left out of an index.
    pub no_dev_deps: bool,
    /// Whether peer dependencies are left out of an index.
    pub no_peer_deps: bool,
}

impl CliOpts {
    /// Whether two values hold the same settings.
    pub open spec fn same_settings(&self, other: &CliOpts) -> bool {
        &&& self.manifests_path@ == other.manifests_path@
        &&& self.output@ == other.output@
        &&& self.dl_threads == other.dl_threads
        &&& self.registry_url@ == other.registry_url@
        &&& self.verbose == other.verbose
        &&& self.greedy == other.greedy
        &&& self.no_optional_deps == other.no_optional_deps
        &&& self.no_dev_deps == other.no_dev_deps
        &&& self.no_peer_deps == other.no_peer_deps
    }
}

impl Clone for CliOpts {
    fn clone(&self) -> (r: Self)
        ensures
            r.same_settings(self),
            r.manifests_path@ == self.manifests_path@,
            r.output@ == self.output@,
            r.dl_threads == self.dl_threads,
            r.registry_url@ == self.registry_url@,
            r.verbose == self.verbose,
            r.greedy == self.greedy,
            r.no_optional_deps == self.no_optional_deps,
            r.no_dev_deps == self.no_dev_deps,
            r.no_peer_deps == self.no_peer_deps,
    {
        CliOpts {
            manifests_path: self.manifests_path.clone(),
            output: self.output.clone(),
            dl_threads: self.dl_threads,
            registry_url: self.registry_url.clone(),
            verbose: self.verbose,
            greedy: self.greedy,
            no_optional_deps: self.no_optional_deps,
            no_dev_deps: self.no_dev_deps,
            no_peer_deps: self.no_peer_deps,
        }
    }
}

impl Default for CliOpts {
    /// The settings of a run that was given none.
    fn default() -> (r: Self)
        ensures
            r.manifests_path@ == "./manifests"@,
            r.output@ == "./output"@,
            r.dl_threads == 8,
            r.registry_url@ == "https://registry.npmjs.org"@,
            !r.verbose,
            !r.greedy,
            !r.no_optional_deps,
            !r.no_dev_deps,
            !r.no_peer_deps,
    {
        CliOpts {
            manifests_path: String::from_str("./manifests"),
            output: String::from_str("./output"),
            dl_threads: 8,
            registry_url: String::from_str("https://registry.npmjs.org"),
            verbose: false,
            greedy: false,
            no_optional_deps: false,
            no_dev_deps: false,
            no_peer_deps: false,
        }
    }
}

} // verus!
