//! The decision whether to bump: is any trigger file newer than the version
//! file?

use vstd::prelude::*;

verus! {

/// When a file was last modified, in nanoseconds since the Unix epoch;
/// negative for a time before it. A later time is a greater number.
#[derive(Clone, Copy, Debug, PartialEq, Eq, Structural)]
pub struct FileTime {
    pub nanos: i128,
}

impl FileTime {
    /// This time is strictly later than `other`.
    pub open spec fn is_after(self, other: FileTime) -> bool {
        self.nanos > other.nanos
    }
}

/// Some trigger was modified strictly later than the version file.
pub open spec fn any_newer(version_time: FileTime, triggers: Seq<FileTime>) -> bool {
    exists|i: int| 0 <= i < triggers.len() && (#[trigger] triggers[i]).is_after(version_time)
}

/// Says whether the version is to be bumped: whether one of the triggers is
/// more recent than the version file. `triggers` holds the modification time
/// of each trigger file, in any order.
pub fn check_triggers(version_time: FileTime, triggers: &Vec<FileTime>) -> (r: bool)
    ensures
        r == any_newer(version_time, triggers@),
{
    let mut i: usize = 0;
    while i < triggers.len()
        invariant
            i <= triggers.len(),
            forall|k: int| 0 <= k < i ==> !(#[trigger] triggers@[k]).is_after(version_time),
        decreases triggers.len() - i,
    {
        if triggers[i].nanos > version_time.nanos {
            return true;
        }
        i += 1;
    }
    false
}

/// Without triggers there is no bump.
pub proof fn lemma_no_triggers(version_time: FileTime)
    ensures
        !any_newer(version_time, Seq::<FileTime>::empty()),
{
}

/// With one trigger, there is a bump exactly when that trigger was modified
/// strictly after the version file: not when it is older, and not when the
/// two times are equal.
pub proof fn lemma_one_trigger(version_time: FileTime, trigger: FileTime)
    ensures
        trigger.nanos > version_time.nanos ==> any_newer(version_time, seq![trigger]),
        trigger.nanos <= version_time.nanos ==> !any_newer(version_time, seq![trigger]),
{
    let triggers = seq![trigger];
    if trigger.nanos > version_time.nanos {
        assert(triggers[0].is_after(version_time));
    }
}

/// The order of the triggers does not matter, nor how often one is named:
/// two lists with the same members give the same decision.
pub proof fn lemma_order_is_irrelevant(
    version_time: FileTime,
    first: Seq<FileTime>,
    second: Seq<FileTime>,
)
    requires
        first.to_set() == second.to_set(),
    ensures
        any_newer(version_time, first) == any_newer(version_time, second),
{
    if any_newer(version_time, first) {
        let i = choose|i: int| 0 <= i < first.len() && (#[trigger] first[i]).is_after(version_time);
        assert(first.to_set().contains(first[i]));
        assert(second.contains(first[i]));
        let j = choose|j: int| 0 <= j < second.len() && second[j] == first[i];
        assert(second[j].is_after(version_time));
    }
    if any_newer(version_time, second) {
        let i = choose|i: int|
            0 <= i < second.len() && (#[trigger] second[i]).is_after(version_time);
        assert(second.to_set().contains(second[i]));
        assert(first.contains(second[i]));
        let j = choose|j: int| 0 <= j < first.len() && first[j] == second[i];
        assert(first[j].is_after(version_time));
    }
}

} // verus!
