//! Moving a file: a rename, or, when source and destination are on different
//! filesystems, a copy followed by removing the source.
//!
//! `move_file` starts a move and gives its first step; the outcome of each
//! step goes to the method of `FileMove` for that step.
use vstd::prelude::*;

verus! {

/// The OS error code of a rename across filesystems (`EXDEV`).
pub open spec fn cross_device_code() -> i32 {
    18
}

/// A failed rename, as the OS reported it.
pub struct RenameError {
    /// The OS error code, when there is one.
    pub raw_os_error: Option<i32>,
    /// The error's text.
    pub message: String,
}

/// Filesystem work that a move needs done, or its outcome.
pub enum MoveStep {
    /// Rename `from` to `to`.
    Rename { from: String, to: String },
    /// Copy the file `from` to `to`.
    Copy { from: String, to: String },
    /// Remove the file at `path`.
    RemoveFile { path: String },
    /// The move is over, with this outcome.
    Done(Result<(), String>),
}

/// Which outcome the move waits for.
pub enum MoveStage {
    Renaming,
    Copying,
    RemovingSource,
    Finished,
}

/// A file being moved.
pub struct FileMove {
    pub source: String,
    pub destination: String,
    /// The text of the failed rename, once a copy is under way.
    pub rename_error: String,
    pub stage: MoveStage,
}

pub open spec fn move_failed_message(source: Seq<char>, destination: Seq<char>, err: Seq<char>) -> Seq<char> {
    "failed to move "@ + source + " to "@ + destination + ": "@ + err
}

pub open spec fn copy_failed_message(
    source: Seq<char>,
    destination: Seq<char>,
    rename_err: Seq<char>,
    copy_err: Seq<char>,
) -> Seq<char> {
    "failed to move "@ + source + " to "@ + destination + ": rename failed ("@ + rename_err
        + "), copy failed ("@ + copy_err + ")"@
}

pub open spec fn remove_failed_message(source: Seq<char>, destination: Seq<char>, err: Seq<char>) -> Seq<char> {
    "failed to remove original file "@ + source + " after copy to "@ + destination + ": "@ + err
}

/// The step ends the move with the error `msg`.
pub open spec fn move_fails_with(step: MoveStep, msg: Seq<char>) -> bool {
    step matches MoveStep::Done(Err(e)) && e@ == msg
}

/// Whether a rename failed because source and destination are on different
/// filesystems.
pub fn is_cross_device_rename_error(raw_os_error: Option<i32>) -> (b: bool)
    ensures
        b == (raw_os_error == Some(cross_device_code())),
{
    match raw_os_error {
        Some(code) => code == 18,
        None => false,
    }
}

/// Starts moving `source` to `destination`: first by a rename.
pub fn move_file(source: &str, destination: &str) -> (r: (FileMove, MoveStep))
    ensures
        r.0.source@ == source@,
        r.0.destination@ == destination@,
        r.0.stage is Renaming,
        r.1 matches MoveStep::Rename { from, to } && from@ == source@ && to@ == destination@,
{
    let m = FileMove {
        source: source.to_owned(),
        destination: destination.to_owned(),
        rename_error: String::new(),
        stage: MoveStage::Renaming,
    };
    (m, MoveStep::Rename { from: source.to_owned(), to: destination.to_owned() })
}

impl FileMove {
    /// Takes the outcome of the rename. A rename that failed across
    /// filesystems turns into a copy; any other failure ends the move.
    pub fn renamed(&mut self, result: Result<(), RenameError>) -> (step: MoveStep)
        requires
            old(self).stage is Renaming,
        ensures
            final(self).source@ == old(self).source@,
            final(self).destination@ == old(self).destination@,
            match result {
                Ok(()) => step matches MoveStep::Done(Ok(())) && final(self).stage is Finished,
                Err(e) => if e.raw_os_error == Some(cross_device_code()) {
                    &&& step matches MoveStep::Copy { from, to } && from@ == old(self).source@
                        && to@ == old(self).destination@
                    &&& final(self).stage is Copying
                    &&& final(self).rename_error@ == e.message@
                } else {
                    &&& move_fails_with(step, move_failed_message(old(self).source@, old(self).destination@, e.message@))
                    &&& final(self).stage is Finished
                },
            },
    {
        match result {
            Ok(()) => {
                self.stage = MoveStage::Finished;
                MoveStep::Done(Ok(()))
            },
            Err(e) => {
                if is_cross_device_rename_error(e.raw_os_error) {
                    self.rename_error = e.message;
                    self.stage = MoveStage::Copying;
                    MoveStep::Copy { from: self.source.clone(), to: self.destination.clone() }
                } else {
                    let mut m = String::from_str("failed to move ");
                    m.append(self.source.as_str());
                    m.append(" to ");
                    m.append(self.destination.as_str());
                    m.append(": ");
                    m.append(e.message.as_str());
                    self.stage = MoveStage::Finished;
                    MoveStep::Done(Err(m))
                }
            },
        }
    }

    /// Takes the outcome of the copy; after a copy the source is removed.
    pub fn copied(&mut self, result: Result<(), String>) -> (step: MoveStep)
        requires
            old(self).stage is Copying,
        ensures
            final(self).source@ == old(self).source@,
            final(self).destination@ == old(self).destination@,
            match result {
                Ok(()) => step matches MoveStep::RemoveFile { path } && path@ == old(self).source@
                    && final(self).stage is RemovingSource,
                Err(e) => move_fails_with(
                    step,
                    copy_failed_message(old(self).source@, old(self).destination@, old(self).rename_error@, e@),
                ) && final(self).stage is Finished,
            },
    {
        match result {
            Ok(()) => {
                self.stage = MoveStage::RemovingSource;
                MoveStep::RemoveFile { path: self.source.clone() }
            },
            Err(e) => {
                let mut m = String::from_str("failed to move ");
                m.append(self.source.as_str());
                m.append(" to ");
                m.append(self.destination.as_str());
                m.append(": rename failed (");
                m.append(self.rename_error.as_str());
                m.append("), copy failed (");
                m.append(e.as_str());
                m.append(")");
                self.stage = MoveStage::Finished;
                MoveStep::Done(Err(m))
            },
        }
    }

    /// Takes the outcome of removing the source after the copy.
    pub fn source_removed(&mut self, result: Result<(), String>) -> (step: MoveStep)
        requires
            old(self).stage is RemovingSource,
        ensures
            final(self).stage is Finished,
            match result {
                Ok(()) => step matches MoveStep::Done(Ok(())),
                Err(e) => move_fails_with(step, remove_failed_message(old(self).source@, old(self).destination@, e@)),
            },
    {
        self.stage = MoveStage::Finished;
        match result {
            Ok(()) => MoveStep::Done(Ok(())),
            Err(e) => {
                let mut m = String::from_str("failed to remove original file ");
                m.append(self.source.as_str());
                m.append(" after copy to ");
                m.append(self.destination.as_str());
                m.append(": ");
                m.append(e.as_str());
                MoveStep::Done(Err(m))
            },
        }
    }
}

} // verus!
