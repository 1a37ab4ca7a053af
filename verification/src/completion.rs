//! The wait until a new key file is complete.
//!
//! Some watch backends report a new file before its writer closes it. A file counts as complete
//! when its size is the same, and not zero, in two consecutive checks.

use vstd::prelude::*;

verus! {

/// Time between two checks of the size of a new key file, in milliseconds.
pub const KEY_FILE_SIZE_CHECK_INTERVAL_MS: u64 = 200;

/// Maximum number of checks of the size of a new key file.
pub const KEY_FILE_SIZE_CHECK_COUNT: u32 = 50;

/// What the file system says of a path.
#[derive(Debug, Clone, Copy)]
pub struct FileMetadata {
    /// Whether the path is a regular file.
    pub is_file: bool,
    /// The size in bytes.
    pub len: u64,
}

/// What a wait asks for next.
#[derive(Debug, Clone, Copy, PartialEq, Eq, Structural)]
pub enum WaitStage {
    /// Read the metadata of the file.
    Check,
    /// Sleep for the check interval.
    Sleep,
    /// Nothing more. Holds whether the file is complete.
    Finished(bool),
}

/// The mathematical state of a wait.
pub struct WaitState {
    /// The number of checks that did not end the wait.
    pub checks: nat,
    /// The size that the last check saw.
    pub previous_size: Option<u64>,
    /// What is asked for next.
    pub stage: WaitStage,
}

/// The state before the first check.
pub open spec fn wait_start() -> WaitState {
    WaitState { checks: 0, previous_size: None, stage: WaitStage::Check }
}

/// The size that a check sees: none if there is no regular file.
pub open spec fn seen_size(metadata: Option<FileMetadata>) -> Option<u64> {
    match metadata {
        Some(metadata) => if metadata.is_file {
            Some(metadata.len)
        } else {
            None
        },
        None => None,
    }
}

/// The state after a check. A check that was not asked for changes nothing.
pub open spec fn wait_checked(state: WaitState, metadata: Option<FileMetadata>) -> WaitState {
    if state.stage != WaitStage::Check {
        state
    } else {
        match seen_size(metadata) {
            None => WaitState { stage: WaitStage::Finished(false), ..state },
            Some(size) => if size > 0 && state.previous_size == Some(size) {
                WaitState { stage: WaitStage::Finished(true), ..state }
            } else {
                WaitState {
                    checks: state.checks + 1,
                    previous_size: Some(size),
                    stage: WaitStage::Sleep,
                }
            },
        }
    }
}

/// The state after a sleep. A sleep that was not asked for changes nothing.
pub open spec fn wait_slept(state: WaitState) -> WaitState {
    if state.stage != WaitStage::Sleep {
        state
    } else if state.checks < KEY_FILE_SIZE_CHECK_COUNT {
        WaitState { stage: WaitStage::Check, ..state }
    } else {
        WaitState { stage: WaitStage::Finished(false), ..state }
    }
}

/// The wait until a new key file is complete.
#[derive(Debug)]
pub struct CompletionWait {
    checks: u32,
    previous_size: Option<u64>,
    stage: WaitStage,
}

impl View for CompletionWait {
    type V = WaitState;

    closed spec fn view(&self) -> WaitState {
        WaitState {
            checks: self.checks as nat,
            previous_size: self.previous_size,
            stage: self.stage,
        }
    }
}

impl CompletionWait {
    /// There are never more checks than the maximum, and none is asked for after the last.
    #[verifier::type_invariant]
    closed spec fn checks_bounded(&self) -> bool {
        &&& self.checks <= KEY_FILE_SIZE_CHECK_COUNT
        &&& self.stage == WaitStage::Check ==> self.checks < KEY_FILE_SIZE_CHECK_COUNT
    }

    /// A wait that has not checked the file yet.
    pub fn new() -> (wait: CompletionWait)
        ensures
            wait@ == wait_start(),
    {
        CompletionWait { checks: 0, previous_size: None, stage: WaitStage::Check }
    }

    /// What the wait asks for next.
    pub fn stage(&self) -> (stage: WaitStage)
        ensures
            stage == self@.stage,
    {
        self.stage
    }

    /// Takes the outcome of a check: the metadata of the file, or `None` if it cannot be read.
    pub fn checked(self, metadata: Option<FileMetadata>) -> (next: CompletionWait)
        ensures
            next@ == wait_checked(self@, metadata),
    {
        proof {
            use_type_invariant(&self);
        }
        if self.stage != WaitStage::Check {
            return self;
        }
        let size: u64 = match metadata {
            Some(metadata) if metadata.is_file => metadata.len,
            _ => return CompletionWait {
                checks: self.checks,
                previous_size: self.previous_size,
                stage: WaitStage::Finished(false),
            },
        };
        let unchanged = match self.previous_size {
            Some(previous_size) => previous_size == size,
            None => false,
        };
        if size > 0 && unchanged {
            return CompletionWait {
                checks: self.checks,
                previous_size: self.previous_size,
                stage: WaitStage::Finished(true),
            };
        }
        CompletionWait {
            checks: self.checks + 1,
            previous_size: Some(size),
            stage: WaitStage::Sleep,
        }
    }

    /// Takes the end of a sleep.
    pub fn slept(self) -> (next: CompletionWait)
        ensures
            next@ == wait_slept(self@),
    {
        proof {
            use_type_invariant(&self);
        }
        if self.stage != WaitStage::Sleep {
            return self;
        }
        let stage = if self.checks < KEY_FILE_SIZE_CHECK_COUNT {
            WaitStage::Check
        } else {
            WaitStage::Finished(false)
        };
        CompletionWait { checks: self.checks, previous_size: self.previous_size, stage }
    }
}

/// The state after checks that saw what `seen` holds, each followed by the sleep it asks for.
pub open spec fn wait_run(seen: Seq<Option<FileMetadata>>) -> WaitState
    decreases seen.len(),
{
    if seen.len() == 0 {
        wait_start()
    } else {
        wait_slept(wait_checked(wait_run(seen.drop_last()), seen.last()))
    }
}

/// Whether check `i` sees the size that check `i - 1` saw, and it is not zero.
pub open spec fn is_stable(seen: Seq<Option<FileMetadata>>, i: int) -> bool {
    &&& 1 <= i < seen.len()
    &&& seen[i] matches Some(now)
    &&& seen[i - 1] matches Some(before)
    &&& now.is_file && before.is_file
    &&& now.len == before.len
    &&& now.len > 0
}

/// Whether check `i` sees no regular file.
pub open spec fn is_lost(seen: Seq<Option<FileMetadata>>, i: int) -> bool {
    0 <= i < seen.len() && !(seen[i] matches Some(metadata) && metadata.is_file)
}

/// Whether the file settles at check `i`: it is there in every check up to this one, and this
/// one finds its size unchanged.
pub open spec fn settles(seen: Seq<Option<FileMetadata>>, i: int) -> bool {
    &&& i < KEY_FILE_SIZE_CHECK_COUNT
    &&& is_stable(seen, i)
    &&& forall|j: int| 0 <= j <= i ==> !#[trigger] is_lost(seen, j)
}

/// Whether no check ends the wait.
pub open spec fn is_undecided(seen: Seq<Option<FileMetadata>>) -> bool {
    &&& forall|i: int| !#[trigger] is_stable(seen, i)
    &&& forall|i: int| !#[trigger] is_lost(seen, i)
}

/// A wait says that the file is complete exactly when the file settles within the maximum
/// number of checks. It says that it is not exactly when it does not settle, and is missing in
/// some check or all checks are used up. Otherwise it goes on.
pub proof fn law_wait_verdict(seen: Seq<Option<FileMetadata>>)
    ensures
        wait_run(seen).stage == WaitStage::Finished(true) <==> exists|i: int| settles(seen, i),
        wait_run(seen).stage == WaitStage::Finished(false) <==> {
            &&& !exists|i: int| settles(seen, i)
            &&& seen.len() >= KEY_FILE_SIZE_CHECK_COUNT || exists|i: int| is_lost(seen, i)
        },
        wait_run(seen).stage != WaitStage::Sleep,
    decreases seen.len(),
{
    if is_undecided(seen) && seen.len() <= KEY_FILE_SIZE_CHECK_COUNT {
        lemma_wait_undecided(seen);
    } else if seen.len() > 0 {
        let before = seen.drop_last();
        law_wait_verdict(before);
        assert forall|i: int| 0 <= i < before.len() implies is_stable(before, i) == is_stable(
            seen,
            i,
        ) && is_lost(before, i) == is_lost(seen, i) by {}
        if exists|i: int| settles(before, i) {
            let i = choose|i: int| settles(before, i);
            assert(settles(seen, i)) by {
                assert forall|j: int| 0 <= j <= i implies !#[trigger] is_lost(seen, j) by {
                    assert(!is_lost(before, j));
                }
            }
        } else if exists|i: int| is_lost(before, i) {
            let lost = choose|i: int| is_lost(before, i);
            assert(is_lost(seen, lost));
            assert forall|i: int| !settles(seen, i) by {
                if settles(seen, i) {
                    assert(!is_lost(seen, lost) || lost > i);
                    assert(settles(before, i)) by {
                        assert forall|j: int| 0 <= j <= i implies !#[trigger] is_lost(before, j) by {
                            assert(!is_lost(seen, j));
                        }
                    }
                }
            }
        } else if before.len() >= KEY_FILE_SIZE_CHECK_COUNT {
            assert forall|i: int| !settles(seen, i) by {
                if settles(seen, i) {
                    assert(settles(before, i)) by {
                        assert forall|j: int| 0 <= j <= i implies !#[trigger] is_lost(before, j) by {
                            assert(!is_lost(seen, j));
                        }
                    }
                }
            }
        } else {
            // Only the last check can end the wait.
            let last = seen.len() - 1;
            assert forall|i: int| !#[trigger] is_stable(before, i) by {
                if is_stable(before, i) {
                    assert(settles(before, i));
                }
            }
            lemma_wait_undecided(before);
            if is_lost(seen, last) {
                assert forall|i: int| !settles(seen, i) by {
                    if settles(seen, i) {
                        assert(is_stable(before, i) || i == last);
                        assert(!is_lost(seen, last));
                    }
                }
            } else if is_stable(seen, last) {
                assert(settles(seen, last)) by {
                    assert forall|j: int| 0 <= j <= last implies !#[trigger] is_lost(seen, j) by {
                        assert(j == last || !is_lost(before, j));
                    }
                }
            } else {
                assert(is_undecided(seen)) by {
                    assert forall|i: int| !#[trigger] is_stable(seen, i) by {
                        assert(i == last || !is_stable(before, i));
                    }
                    assert forall|i: int| !#[trigger] is_lost(seen, i) by {
                        assert(i == last || !is_lost(before, i));
                    }
                }
            }
        }
    }
}

/// While no check ends the wait, it asks for another check until all are used up.
proof fn lemma_wait_undecided(seen: Seq<Option<FileMetadata>>)
    requires
        is_undecided(seen),
        seen.len() <= KEY_FILE_SIZE_CHECK_COUNT,
    ensures
        wait_run(seen).checks == seen.len(),
        wait_run(seen).stage == if seen.len() < KEY_FILE_SIZE_CHECK_COUNT {
            WaitStage::Check
        } else {
            WaitStage::Finished(false)
        },
        wait_run(seen).previous_size == if seen.len() == 0 {
            None
        } else {
            seen_size(seen.last())
        },
    decreases seen.len(),
{
    if seen.len() > 0 {
        let before = seen.drop_last();
        let last = seen.len() - 1;
        assert(is_undecided(before)) by {
            assert forall|i: int| !#[trigger] is_stable(before, i) by {
                assert(!is_stable(seen, i));
            }
            assert forall|i: int| !#[trigger] is_lost(before, i) by {
                assert(!is_lost(seen, i));
            }
        }
        lemma_wait_undecided(before);
        assert(!is_lost(seen, last));
        assert(!is_stable(seen, last));
        assert(before.len() > 0 ==> before.last() == seen[last - 1]);
    }
}

/// A file only counts as complete if two checks in a row, among the first fifty, saw a regular
/// file of the same size, which is not zero, and every check before them saw a regular file.
pub proof fn law_complete_only_if_size_unchanged(seen: Seq<Option<FileMetadata>>)
    ensures
        wait_run(seen).stage == WaitStage::Finished(true) <==> exists|i: int|
            #![trigger seen[i]]
            {
                &&& 1 <= i < seen.len()
                &&& i < 50
                &&& seen[i] is Some && seen[i - 1] is Some
                &&& seen[i]->0.len == seen[i - 1]->0.len
                &&& seen[i]->0.len > 0
                &&& forall|j: int|
                    0 <= j <= i ==> (#[trigger] seen[j]) is Some && seen[j]->0.is_file
            },
{
    law_wait_verdict(seen);
    if exists|i: int| settles(seen, i) {
        let i = choose|i: int| settles(seen, i);
        assert forall|j: int| 0 <= j <= i implies (#[trigger] seen[j]) is Some
            && seen[j]->0.is_file by {
            assert(!is_lost(seen, j));
        }
    }
    assert forall|i: int|
        {
            &&& 1 <= i < seen.len()
            &&& i < 50
            &&& (#[trigger] seen[i]) is Some && seen[i - 1] is Some
            &&& seen[i]->0.len == seen[i - 1]->0.len
            &&& seen[i]->0.len > 0
            &&& forall|j: int| 0 <= j <= i ==> (#[trigger] seen[j]) is Some && seen[j]->0.is_file
        } implies settles(seen, i) by {
        assert(seen[i - 1]->0.is_file);
        assert forall|j: int| 0 <= j <= i implies !#[trigger] is_lost(seen, j) by {
            assert(seen[j] is Some && seen[j]->0.is_file);
        }
    }
}

/// A check ends the wait at once if it sees no regular file, or one whose size is that of the
/// check before and not zero. After any other check there is a sleep, and the size it saw is what
/// the next check is held against.
pub proof fn law_check_decides_or_sleeps(state: WaitState, metadata: Option<FileMetadata>)
    requires
        state.stage == WaitStage::Check,
    ensures
        match metadata {
            Some(file) if file.is_file => {
                let next = wait_checked(state, metadata);
                if file.len != 0 && state.previous_size == Some(file.len) {
                    next.stage == WaitStage::Finished(true)
                } else {
                    &&& next.stage == WaitStage::Sleep
                    &&& next.previous_size == Some(file.len)
                    &&& next.checks == state.checks + 1
                }
            },
            _ => wait_checked(state, metadata).stage == WaitStage::Finished(false),
        },
{
}

/// A wait begins with a check that has nothing to be held against. After a sleep comes a check
/// as long as fewer than fifty were made, and then the file is given up.
pub proof fn law_sleep_leads_to_check(state: WaitState)
    requires
        state.stage == WaitStage::Sleep,
    ensures
        state.checks < 50 ==> wait_slept(state).stage == WaitStage::Check,
        state.checks >= 50 ==> wait_slept(state).stage == WaitStage::Finished(false),
        wait_slept(state).checks == state.checks,
        wait_slept(state).previous_size == state.previous_size,
        wait_start().stage == WaitStage::Check,
        wait_start().previous_size is None,
        wait_start().checks == 0,
{
}

/// A wait changes only through what it asked for; once it is over, it stays as it is.
pub proof fn law_wait_ignores_unasked(state: WaitState, metadata: Option<FileMetadata>)
    ensures
        state.stage != WaitStage::Check ==> wait_checked(state, metadata) == state,
        state.stage != WaitStage::Sleep ==> wait_slept(state) == state,
{
}

/// A wait that gives a file up after the last check has slept for ten seconds.
pub proof fn law_wait_takes_ten_seconds_at_most()
    ensures
        KEY_FILE_SIZE_CHECK_COUNT * KEY_FILE_SIZE_CHECK_INTERVAL_MS == 10_000,
        wait_start().checks + 50 == KEY_FILE_SIZE_CHECK_COUNT,
{
}

} // verus!
