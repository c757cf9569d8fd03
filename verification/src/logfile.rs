use vstd::prelude::*;

verus! {

/// The log file, next to the executable.
pub const LOG_FILE_NAME: &'static str = "osu-directer.log";

/// The extension that the previous log is renamed to.
pub const OLD_LOG_EXTENSION: &'static str = "log.old";

/// The size in bytes above which the log is set aside before it is opened.
/// Only the current log and one old log are kept.
pub const MAX_LOG_SIZE: u64 = 65536;

/// A step in opening the log file.
#[derive(Debug, Clone, Copy, PartialEq, Eq, Structural)]
pub enum LogFileAction {
    /// Rename the log to the old log.
    RenameToOld,
    /// Delete the log.
    Remove,
    /// Create the log afresh, emptying it if it exists, and write to it.
    Create,
    /// Open the log, creating it if needed, and add to its end.
    Append,
}

/// Whether the step opens the file for writing, which ends the sequence.
pub open spec fn opens_log(a: LogFileAction) -> bool {
    a == LogFileAction::Create || a == LogFileAction::Append
}

/// The first step for a log of the given size: set a log larger than
/// `MAX_LOG_SIZE` aside, add to any other.
pub open spec fn spec_first_log_action(size: Option<u64>) -> LogFileAction {
    if size matches Some(s) && s > MAX_LOG_SIZE {
        LogFileAction::RenameToOld
    } else {
        LogFileAction::Append
    }
}

/// The step after `done` succeeded or failed.
pub open spec fn spec_next_log_action(done: LogFileAction, succeeded: bool) -> LogFileAction {
    match done {
        LogFileAction::RenameToOld => if succeeded {
            LogFileAction::Append
        } else {
            LogFileAction::Remove
        },
        LogFileAction::Remove => if succeeded {
            LogFileAction::Append
        } else {
            LogFileAction::Create
        },
        other => other,
    }
}

/// The first step, given the size of the current log (`None` where it cannot
/// be read, as when there is no log yet): a log larger than `MAX_LOG_SIZE` is
/// set aside first; any other is added to.
pub fn first_log_action(size: Option<u64>) -> (a: LogFileAction)
    ensures
        a == spec_first_log_action(size),
{
    match size {
        Some(s) => if s > MAX_LOG_SIZE {
            LogFileAction::RenameToOld
        } else {
            LogFileAction::Append
        },
        None => LogFileAction::Append,
    }
}

/// The step after `done` succeeded or failed: a log that was renamed or
/// removed is then opened afresh; where renaming fails the log is removed, and
/// where that fails too it is emptied. A step that opens the log is the last.
pub fn next_log_action(done: LogFileAction, succeeded: bool) -> (a: LogFileAction)
    ensures
        a == spec_next_log_action(done, succeeded),
{
    match done {
        LogFileAction::RenameToOld => if succeeded {
            LogFileAction::Append
        } else {
            LogFileAction::Remove
        },
        LogFileAction::Remove => if succeeded {
            LogFileAction::Append
        } else {
            LogFileAction::Create
        },
        other => other,
    }
}

/// Whatever the file system answers, the log is opened after at most two
/// reported steps, and it is emptied only where both setting it aside and
/// deleting it failed.
pub proof fn lemma_log_is_always_opened(size: Option<u64>, first_ok: bool, second_ok: bool)
    ensures
        ({
            let a0 = spec_first_log_action(size);
            let a1 = if opens_log(a0) { a0 } else { spec_next_log_action(a0, first_ok) };
            let a2 = if opens_log(a1) { a1 } else { spec_next_log_action(a1, second_ok) };
            &&& opens_log(a2)
            &&& a2 == LogFileAction::Create <==> (a0 == LogFileAction::RenameToOld && !first_ok
                && !second_ok)
        }),
{
}

/// The length of the log file (`None` where there is none) after a step,
/// given whether it succeeded: setting the log aside or deleting it leaves no
/// file where it worked; creating empties it; appending opens it as it is, or
/// empty where there was none.
pub open spec fn length_after(length: Option<u64>, action: LogFileAction, succeeded: bool) -> Option<u64> {
    match action {
        LogFileAction::RenameToOld => if succeeded {
            None
        } else {
            length
        },
        LogFileAction::Remove => if succeeded {
            None
        } else {
            length
        },
        LogFileAction::Create => Some(0),
        LogFileAction::Append => match length {
            Some(l) => Some(l),
            None => Some(0),
        },
    }
}

/// Where the size read before opening is the log's length (`None` where there
/// is no log), the log, once opened, holds at most `MAX_LOG_SIZE` bytes, and
/// none where it held more than that before: whatever setting it aside and
/// deleting it answer.
pub proof fn lemma_opened_log_is_small(length: Option<u64>, first_ok: bool, second_ok: bool)
    ensures
        ({
            let a0 = spec_first_log_action(length);
            let l1 = if opens_log(a0) { length } else { length_after(length, a0, first_ok) };
            let a1 = if opens_log(a0) { a0 } else { spec_next_log_action(a0, first_ok) };
            let l2 = if opens_log(a1) { l1 } else { length_after(l1, a1, second_ok) };
            let a2 = if opens_log(a1) { a1 } else { spec_next_log_action(a1, second_ok) };
            let opened = length_after(l2, a2, true);
            &&& opened matches Some(n) && n <= MAX_LOG_SIZE
            &&& (length matches Some(l) && l > MAX_LOG_SIZE) ==> opened == Some(0u64)
        }),
{
}

} // verus!
