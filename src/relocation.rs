//! The steps that move an entry into the store, and how each outcome
//! decides the next one.
use vstd::prelude::*;

verus! {

/// What an entry is, as seen without following symlinks.
#[derive(Clone, Copy, Debug, PartialEq, Eq, Structural)]
pub enum EntryKind {
    Symlink,
    Directory,
    File,
}

/// One piece of filesystem work.
#[derive(Clone, Copy, Debug, PartialEq, Eq, Structural)]
pub enum Step {
    /// Create a symlink in the store with the original's target (a
    /// placeholder target when the original's cannot be read).
    Relink,
    /// Copy the whole subtree into the store.
    CopyTree,
    /// Rename the file into the store.
    Rename,
    /// Copy the file into the store.
    CopyFile,
    /// Remove the original, now that the store holds a copy.
    RemoveOriginal,
    /// Write the sidecar.
    WriteSidecar,
}

/// Why an entry could not be trashed.
#[derive(Clone, Copy, Debug, PartialEq, Eq, Structural)]
pub enum RelocationError {
    /// Nothing reached the store.
    NotMoved,
    /// The store holds a copy but the original is still in place.
    CopiedNotRemoved,
    /// The content is in the store but its sidecar could not be written.
    SidecarNotWritten,
}

/// What to do next.
#[derive(Clone, Copy, Debug, PartialEq, Eq, Structural)]
pub enum Next {
    Run(Step),
    Finished,
    Failed(RelocationError),
}

/// The first step for an entry of this kind.
pub open spec fn first_step_spec(kind: EntryKind) -> Step {
    match kind {
        EntryKind::Symlink => Step::Relink,
        EntryKind::Directory => Step::CopyTree,
        EntryKind::File => Step::Rename,
    }
}

/// What follows a step that succeeded (`ok`) or failed.
pub open spec fn after_spec(step: Step, ok: bool) -> Next {
    match step {
        Step::Relink => if ok { Next::Run(Step::RemoveOriginal) } else { Next::Failed(RelocationError::NotMoved) },
        Step::CopyTree => if ok { Next::Run(Step::RemoveOriginal) } else { Next::Failed(RelocationError::NotMoved) },
        Step::Rename => if ok { Next::Run(Step::WriteSidecar) } else { Next::Run(Step::CopyFile) },
        Step::CopyFile => if ok { Next::Run(Step::RemoveOriginal) } else { Next::Failed(RelocationError::NotMoved) },
        Step::RemoveOriginal => if ok {
            Next::Run(Step::WriteSidecar)
        } else {
            Next::Failed(RelocationError::CopiedNotRemoved)
        },
        Step::WriteSidecar => if ok { Next::Finished } else { Next::Failed(RelocationError::SidecarNotWritten) },
    }
}

/// How many steps can still follow `step` at most.
pub open spec fn steps_left(step: Step) -> nat {
    match step {
        Step::Relink => 3,
        Step::CopyTree => 3,
        Step::Rename => 4,
        Step::CopyFile => 3,
        Step::RemoveOriginal => 2,
        Step::WriteSidecar => 1,
    }
}

/// The first step for an entry of this kind: a symlink is recreated, a
/// directory copied, a file renamed.
pub fn first_step(kind: EntryKind) -> (r: Step)
    ensures
        r == first_step_spec(kind),
{
    match kind {
        EntryKind::Symlink => Step::Relink,
        EntryKind::Directory => Step::CopyTree,
        EntryKind::File => Step::Rename,
    }
}

/// The step after `step`: a failed rename falls back to copying, a copy is
/// followed by removing the original, and the sidecar is written only once
/// the content is in place.
pub fn after(step: Step, ok: bool) -> (r: Next)
    ensures
        r == after_spec(step, ok),
{
    match step {
        Step::Relink => if ok { Next::Run(Step::RemoveOriginal) } else { Next::Failed(RelocationError::NotMoved) },
        Step::CopyTree => if ok { Next::Run(Step::RemoveOriginal) } else { Next::Failed(RelocationError::NotMoved) },
        Step::Rename => if ok { Next::Run(Step::WriteSidecar) } else { Next::Run(Step::CopyFile) },
        Step::CopyFile => if ok { Next::Run(Step::RemoveOriginal) } else { Next::Failed(RelocationError::NotMoved) },
        Step::RemoveOriginal => if ok {
            Next::Run(Step::WriteSidecar)
        } else {
            Next::Failed(RelocationError::CopiedNotRemoved)
        },
        Step::WriteSidecar => if ok { Next::Finished } else { Next::Failed(RelocationError::SidecarNotWritten) },
    }
}

/// A relocation ends: every step leads to a step with fewer steps left, or
/// to the end.
pub proof fn lemma_relocation_ends(step: Step, ok: bool)
    ensures
        match after_spec(step, ok) {
            Next::Run(s) => steps_left(s) < steps_left(step),
            _ => true,
        },
{
}

/// The sidecar is written only after the content reached the store: the
/// step before it is a successful rename or removal of the original.
pub proof fn lemma_sidecar_after_content(step: Step, ok: bool)
    ensures
        after_spec(step, ok) == Next::Run(Step::WriteSidecar) ==> ok && (step == Step::Rename
            || step == Step::RemoveOriginal),
{
}

} // verus!
