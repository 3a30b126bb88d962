//! How loudly a failed save is told of.
//!
//! State is saved over and over, so a disk that stays full would fill the log
//! too: the first failure warns, and those that follow it are whispered.

use vstd::prelude::*;

verus! {

/// How a save went.
#[derive(Debug, Clone, Copy, PartialEq, Eq, Structural)]
pub enum Save {
    Done,
    /// The state could not be put into words.
    Unserialized,
    /// The file could not be written.
    Unwritten,
}

/// The level of a line in the log.
#[derive(Debug, Clone, Copy, PartialEq, Eq, Structural)]
pub enum Level {
    Warn,
    Debug,
}

/// The level at which a save is told of, if it is, where `failing` says that
/// the last write failed.
pub open spec fn level_of(failing: bool, save: Save) -> Option<Level> {
    match save {
        Save::Done => None,
        Save::Unserialized => Some(Level::Warn),
        Save::Unwritten => if failing {
            Some(Level::Debug)
        } else {
            Some(Level::Warn)
        },
    }
}

/// Whether the last write failed, once a save was tried. A state that could not
/// be put into words was never written, and changes nothing.
pub open spec fn failing_after(failing: bool, save: Save) -> bool {
    match save {
        Save::Done => false,
        Save::Unserialized => failing,
        Save::Unwritten => true,
    }
}

/// The level at which a save is told of, and whether writes fail from here on.
pub fn note_save(failing: bool, save: Save) -> (out: (Option<Level>, bool))
    ensures
        out == (level_of(failing, save), failing_after(failing, save)),
{
    match save {
        Save::Done => (None, false),
        Save::Unserialized => (Some(Level::Warn), failing),
        Save::Unwritten => {
            let level = if failing {
                Level::Debug
            } else {
                Level::Warn
            };
            (Some(level), true)
        },
    }
}

/// Whether the last write failed, after a history that starts with a fresh
/// process.
pub open spec fn failing_in(history: Seq<Save>) -> bool
    decreases history.len(),
{
    if history.len() == 0 {
        false
    } else {
        failing_after(failing_in(history.drop_last()), history.last())
    }
}

/// A write has failed since the last save that was done.
pub open spec fn failed_since_done(history: Seq<Save>) -> bool {
    exists|i: int|
        0 <= i < history.len() && #[trigger] history[i] == Save::Unwritten && none_done_since(
            history,
            i,
        )
}

pub open spec fn none_done_since(history: Seq<Save>, i: int) -> bool {
    forall|j: int| i < j < history.len() ==> #[trigger] history[j] != Save::Done
}

/// A failed write warns exactly if it is the first since a save was last done,
/// and is whispered otherwise: one warning per outage, however long it lasts.
pub proof fn an_outage_warns_once(history: Seq<Save>)
    ensures
        level_of(failing_in(history), Save::Unwritten) == Some(
            if failed_since_done(history) {
                Level::Debug
            } else {
                Level::Warn
            },
        ),
    decreases history.len(),
{
    if history.len() > 0 {
        let before = history.drop_last();
        let n = before.len() as int;
        an_outage_warns_once(before);
        if failed_since_done(before) && history.last() != Save::Done {
            let i = choose|i: int|
                0 <= i < before.len() && #[trigger] before[i] == Save::Unwritten
                    && none_done_since(before, i);
            assert(history[i] == Save::Unwritten);
            assert forall|j: int| i < j < history.len() implies #[trigger] history[j]
                != Save::Done by {
                if j < n {
                    assert(before[j] == history[j]);
                }
            }
        }
        if history.last() == Save::Unwritten {
            assert(history[n] == Save::Unwritten && none_done_since(history, n));
        }
        if failed_since_done(history) {
            let i = choose|i: int|
                0 <= i < history.len() && #[trigger] history[i] == Save::Unwritten
                    && none_done_since(history, i);
            if i < n {
                assert(history[n] != Save::Done);
                assert(before[i] == Save::Unwritten);
                assert forall|j: int| i < j < before.len() implies #[trigger] before[j]
                    != Save::Done by {
                    assert(before[j] == history[j]);
                }
            }
        }
    }
}

/// A save that was done is not told of; a state that could not be put into words always
/// warns, and neither ends an outage nor begins one.
pub proof fn only_a_write_begins_or_ends_an_outage(failing: bool)
    ensures
        level_of(failing, Save::Done) is None,
        level_of(failing, Save::Unserialized) == Some(Level::Warn),
        failing_after(failing, Save::Unserialized) == failing,
        !failing_after(failing, Save::Done),
        failing_after(failing, Save::Unwritten),
{
}

} // verus!
