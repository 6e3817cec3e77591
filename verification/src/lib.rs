pub mod digest;
pub mod fetch;
pub mod packs;
pub mod progress;
pub mod reconcile;

pub use reconcile::Directory;
pub use reconcile::DirPlan;
pub use reconcile::File;
pub use reconcile::LocalDir;

use vstd::prelude::*;

verus! {

/// A message giving a vague indication of the status of an upgrade run.
/// Events may arrive in any order: a `Tick` may be observed before the
/// `Length` that announces how many ticks to expect.
#[derive(Debug)]
pub enum UpgradeStatus {
    /// The final count of fetch tasks spawned for this run.
    Length(usize),
    /// Exactly one fetch task has finished successfully.
    Tick,
}

} // verus!
