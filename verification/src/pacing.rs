use vstd::prelude::*;

verus! {

/// How long the sleeping phase should last so that one whole loop iteration
/// approximates the target period: the time already spent applying the
/// palette is subtracted from the target, and never below zero.
pub fn sleep_millis(target_ms: u64, elapsed_ms: u64) -> (r: u64)
    ensures
        r == if elapsed_ms < target_ms {
            (target_ms - elapsed_ms) as u64
        } else {
            0u64
        },
{
    if elapsed_ms < target_ms {
        target_ms - elapsed_ms
    } else {
        0
    }
}

/// The phases of the control loop.  The loop starts by obtaining a palette,
/// then alternates between applying the rotated palette and sleeping; it has
/// no final phase.
#[derive(Clone, Copy, PartialEq, Eq, Structural, Debug)]
pub enum Phase {
    Initializing,
    Applying,
    Sleeping,
}

/// The next phase of the control loop: initialization leads to the first
/// application, applying leads to sleeping, and sleeping back to applying,
/// forever.
pub fn next_phase(p: Phase) -> (q: Phase)
    ensures
        q == match p {
            Phase::Initializing => Phase::Applying,
            Phase::Applying => Phase::Sleeping,
            Phase::Sleeping => Phase::Applying,
        },
{
    match p {
        Phase::Initializing => Phase::Applying,
        Phase::Applying => Phase::Sleeping,
        Phase::Sleeping => Phase::Applying,
    }
}

} // verus!
