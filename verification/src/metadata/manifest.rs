//! A manifest: the packages that a project asks for.

use crate::semver::VersionRange;
use vstd::prelude::*;

verus! {

/// One entry of a manifest's `dependencies` table.
pub struct ManifestDep {
    pub package: String,
    pub range: VersionRange,
}

/// A manifest, with the entries of its `dependencies` table in the order
/// in which they are to be taken.
pub struct Manifest {
    pub dependencies: Vec<ManifestDep>,
}

impl Manifest {
    /// The entries come from a table: no package stands twice.
    pub open spec fn wf(&self) -> bool {
        forall|i: int, j: int|
            0 <= i < j < self.dependencies@.len() ==> (#[trigger] self.dependencies@[i]).package@
                != (#[trigger] self.dependencies@[j]).package@
    }
}

} // verus!
