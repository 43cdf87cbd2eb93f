//! The mod loader variant of an instance.

use vstd::prelude::*;

verus! {

/// Which mod loader an instance runs with.
#[derive(Debug, Clone, Copy, PartialEq, Eq, Structural)]
pub enum Loader {
    Vanilla,
    Fabric,
    Forge,
    NeoForge,
}

impl Loader {
    /// The name of the loader as it is written in an instance descriptor.
    pub open spec fn spec_name(self) -> Seq<char> {
        match self {
            Loader::Vanilla => "Vanilla"@,
            Loader::Fabric => "Fabric"@,
            Loader::Forge => "Forge"@,
            Loader::NeoForge => "NeoForge"@,
        }
    }

    /// Returns the name of the loader as it is written in an instance
    /// descriptor.
    pub fn name(self) -> (res: &'static str)
        ensures
            res@ == self.spec_name(),
    {
        match self {
            Loader::Vanilla => "Vanilla",
            Loader::Fabric => "Fabric",
            Loader::Forge => "Forge",
            Loader::NeoForge => "NeoForge",
        }
    }
}

} // verus!
