//! Which version of a mod is selected.

use crate::version::Version;
use vstd::prelude::*;

verus! {

/// The version of a mod that is selected for installation.
#[derive(Debug, Clone, Copy, PartialEq, Eq, Hash, Structural)]
pub enum SelectedVersion {
    /// The latest version, as read from an index file.
    Latest(Version),
    /// The latest version that is known so far, if any, while versions
    /// are sorted.
    LatestIndirect(Option<Version>),
    /// A version that was selected by hand.
    Specific(Version),
}

impl SelectedVersion {
    /// Whether a version is selected at all.
    pub open spec fn is_known(self) -> bool {
        !(self matches SelectedVersion::LatestIndirect(None))
    }

    /// The version that is selected.
    pub open spec fn version(self) -> Version {
        match self {
            SelectedVersion::Latest(version) => version,
            SelectedVersion::LatestIndirect(version) => version->Some_0,
            SelectedVersion::Specific(version) => version,
        }
    }

    /// The version that is selected. There must be one.
    pub fn unwrap(self) -> (v: Version)
        requires
            self.is_known(),
        ensures
            v == self.version(),
    {
        match self {
            SelectedVersion::Latest(version) => version,
            SelectedVersion::LatestIndirect(version) => version.unwrap(),
            SelectedVersion::Specific(version) => version,
        }
    }

    /// Whether the selection follows the latest version rather than being
    /// pinned to one.
    pub fn is_latest(&self) -> (b: bool)
        ensures
            b == !(self is Specific),
    {
        match self {
            SelectedVersion::Latest(_) => true,
            SelectedVersion::LatestIndirect(_) => true,
            SelectedVersion::Specific(_) => false,
        }
    }
}

} // verus!
