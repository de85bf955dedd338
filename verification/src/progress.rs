use vstd::prelude::*;

verus! {

/// Enumerating reports its progress after this many identifiers.
pub const ENUMERATION_STEP: usize = 10000;

/// A transfer that counts completions reports every one of this many.
pub const COMPLETION_STEP: usize = 100;

/// A bulk export reports its progress after this many rows.
pub const EXPORT_STEP: usize = 1000;

/// Whether progress is due after `count` items when it is reported every
/// `step` items.
pub fn progress_due(count: usize, step: usize) -> (due: bool)
    requires
        step > 0,
    ensures
        due == (count % step == 0),
{
    count % step == 0
}

} // verus!
