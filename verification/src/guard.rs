//! Model of the fixed-path marker file used for cross-process mutual
//! exclusion.
//!
//! The marker is a filesystem object whose mere existence signals "an
//! instance is running"; it carries no content. The filesystem's atomic
//! "create, fail if it already exists" operation is the synchronization
//! primitive: of any two racing creation attempts, the filesystem serializes
//! them, so exactly one succeeds. [`Marker`] models that shared resource as
//! its one observable attribute, existence, and its operations model the
//! filesystem calls that the process-level glue performs on the real path.

use vstd::prelude::*;

verus! {

/// The state of the marker path: `present` is true exactly when the marker
/// file exists.
pub struct Marker {
    pub present: bool,
}

/// What an atomic "create, fail if exists" attempt leaves behind: the marker
/// exists afterwards in either case.
pub open spec fn spec_try_create(present: bool) -> bool {
    true
}

/// Whether an atomic "create, fail if exists" attempt acquires the marker:
/// it does exactly when the marker was absent.
pub open spec fn spec_try_create_acquired(present: bool) -> bool {
    !present
}

/// What the unconditional clear operation leaves behind: the marker is
/// absent afterwards, whether or not it existed before.
pub open spec fn spec_force_clear(present: bool) -> bool {
    false
}

impl Marker {
    /// A path with no marker file at it.
    pub fn new_absent() -> (m: Marker)
        ensures
            !m.present,
    {
        Marker { present: false }
    }

    /// An existence check on the marker path, usable before any acquisition
    /// is attempted.
    pub fn is_held(&self) -> (b: bool)
        ensures
            b == self.present,
    {
        self.present
    }

    /// One atomic "create, fail if exists" attempt: acquires the marker
    /// exactly when it was absent, and leaves it present in either case.
    pub fn try_create(&mut self) -> (acquired: bool)
        ensures
            final(self).present == spec_try_create(old(self).present),
            acquired == spec_try_create_acquired(old(self).present),
    {
        let was_present = self.present;
        self.present = true;
        !was_present
    }

    /// The guard's release: removes the marker. Called once per acquisition,
    /// while the marker is still present.
    pub fn release(&mut self)
        requires
            old(self).present,
        ensures
            !final(self).present,
    {
        self.present = false;
    }

    /// The unconditional clear used by the recovery path: removes the marker
    /// if present, and is a no-op when none exists.
    pub fn force_clear(&mut self)
        ensures
            final(self).present == spec_force_clear(old(self).present),
    {
        self.present = false;
    }
}

/// Mutual exclusion: of two creation attempts against the same marker path,
/// serialized by the filesystem's atomic create-fail-if-exists primitive and
/// starting from an absent marker, exactly one acquires the marker, and the
/// loser observes it as already held.
pub proof fn lemma_mutual_exclusion(present: bool)
    requires
        !present,
    ensures
        spec_try_create_acquired(present),
        !spec_try_create_acquired(spec_try_create(present)),
        spec_try_create(present),
{
}

/// Idempotent force-clear: clearing an absent marker is a no-op (the marker
/// stays absent, and the operation is total, so no error arises); clearing a
/// present one removes it; and clearing twice is the same as clearing once.
pub proof fn lemma_force_clear_idempotent(present: bool)
    ensures
        !spec_force_clear(present),
        spec_force_clear(false) == false,
        spec_force_clear(spec_force_clear(present)) == spec_force_clear(present),
{
}

} // verus!
