//! The remembered target folder, and the run that moves an input file into
//! the target folder.
//!
//! The target folder is remembered in `<config>/appendfile/target`, where
//! `<config>` is `$XDG_CONFIG_HOME`, else `$HOME/.config`.
//!
//! `run_with_target` starts a run and gives its first step; each step names
//! filesystem work, whose outcome goes to the method of `TargetRun` for that
//! step, which gives the next step, until the run is done.
use vstd::prelude::*;
use crate::naming::{next_output_path, no_extension_error, no_extension_message, output_path};
use crate::paths::{extension_of, join_path, joined_path, path_extension};
use crate::text::{chars_of, lemma_trimmed_shape, string_of, text_result, trim, trimmed, unicode_white_space};

verus! {

/// Where the configuration folder comes from.
pub struct ConfigEnv {
    /// A folder to use in place of the usual one.
    pub root_override: Option<String>,
    /// `$XDG_CONFIG_HOME`, when set to valid Unicode.
    pub xdg_config_home: Option<String>,
    /// `$HOME`, when set to valid Unicode.
    pub home: Option<String>,
}

pub open spec fn app_name() -> Seq<char> {
    seq!['a', 'p', 'p', 'e', 'n', 'd', 'f', 'i', 'l', 'e']
}

pub open spec fn target_file_name() -> Seq<char> {
    seq!['t', 'a', 'r', 'g', 'e', 't']
}

pub open spec fn dot_config() -> Seq<char> {
    seq!['.', 'c', 'o', 'n', 'f', 'i', 'g']
}

pub open spec fn no_config_message() -> Seq<char> {
    "could not determine config directory (XDG_CONFIG_HOME or HOME)"@
}

/// The configuration folder: the override if given, else a non-empty
/// `$XDG_CONFIG_HOME`, else a non-empty `$HOME` joined with `.config`.
pub open spec fn config_root_of(env: ConfigEnv) -> Result<Seq<char>, Seq<char>> {
    match env.root_override {
        Some(r) => Ok(r@),
        None => if env.xdg_config_home is Some && env.xdg_config_home->0@.len() > 0 {
            Ok(env.xdg_config_home->0@)
        } else if env.home is Some && env.home->0@.len() > 0 {
            Ok(joined_path(env.home->0@, dot_config()))
        } else {
            Err(no_config_message())
        },
    }
}

/// The folder that holds the remembered target.
pub open spec fn config_dir_of(env: ConfigEnv) -> Result<Seq<char>, Seq<char>> {
    match config_root_of(env) {
        Ok(root) => Ok(joined_path(root, app_name())),
        Err(m) => Err(m),
    }
}

/// The file that holds the remembered target.
pub open spec fn target_file_of(env: ConfigEnv) -> Result<Seq<char>, Seq<char>> {
    match config_dir_of(env) {
        Ok(dir) => Ok(joined_path(dir, target_file_name())),
        Err(m) => Err(m),
    }
}

/// The outcome of reading the file that holds the remembered target.
pub enum SavedTargetRead {
    /// There is no such file.
    Missing,
    /// Reading it failed with this error.
    Failed(String),
    /// It holds this text.
    Contents(String),
}

/// What a read of the remembered target comes to: the text without
/// whitespace at its ends, or nothing when that is empty or the file is missing.
pub open spec fn loaded_target(file: Seq<char>, read: SavedTargetRead) -> Result<Option<Seq<char>>, Seq<char>> {
    match read {
        SavedTargetRead::Missing => Ok(None),
        SavedTargetRead::Failed(e) => Err("failed to read saved target from "@ + file + ": "@ + e@),
        SavedTargetRead::Contents(c) => if trimmed(c@).len() == 0 {
            Ok(None)
        } else {
            Ok(Some(trimmed(c@)))
        },
    }
}

/// The configuration folder, as `config_root_of` says.
pub fn config_root(env: &ConfigEnv) -> (r: Result<String, String>)
    ensures
        text_result(r) == config_root_of(*env),
{
    if let Some(r) = &env.root_override {
        return Ok(r.clone());
    }
    if let Some(x) = &env.xdg_config_home {
        if !x.as_str().is_empty() {
            return Ok(x.clone());
        }
    }
    if let Some(h) = &env.home {
        if !h.as_str().is_empty() {
            let dot = string_of(&['.', 'c', 'o', 'n', 'f', 'i', 'g']);
            return Ok(join_path(h.as_str(), dot.as_str()));
        }
    }
    Err(String::from_str("could not determine config directory (XDG_CONFIG_HOME or HOME)"))
}

/// The folder that holds the remembered target.
pub fn config_dir(env: &ConfigEnv) -> (r: Result<String, String>)
    ensures
        text_result(r) == config_dir_of(*env),
{
    let root = config_root(env)?;
    let name = string_of(&['a', 'p', 'p', 'e', 'n', 'd', 'f', 'i', 'l', 'e']);
    Ok(join_path(root.as_str(), name.as_str()))
}

/// The file that holds the remembered target.
pub fn target_file_path(env: &ConfigEnv) -> (r: Result<String, String>)
    ensures
        text_result(r) == target_file_of(*env),
{
    let dir = config_dir(env)?;
    let name = string_of(&['t', 'a', 'r', 'g', 'e', 't']);
    Ok(join_path(dir.as_str(), name.as_str()))
}

/// The remembered target folder, from the outcome of reading `file`.
pub fn load_saved_target(file: &str, read: SavedTargetRead) -> (r: Result<Option<String>, String>)
    ensures
        match r {
            Ok(Some(t)) => loaded_target(file@, read) == Ok::<Option<Seq<char>>, Seq<char>>(Some(t@)),
            Ok(None) => loaded_target(file@, read) == Ok::<Option<Seq<char>>, Seq<char>>(None),
            Err(e) => loaded_target(file@, read) == Err::<Option<Seq<char>>, Seq<char>>(e@),
        },
{
    match read {
        SavedTargetRead::Missing => Ok(None),
        SavedTargetRead::Failed(e) => {
            let mut m = String::from_str("failed to read saved target from ");
            m.append(file);
            m.append(": ");
            m.append(e.as_str());
            Err(m)
        },
        SavedTargetRead::Contents(c) => {
            let t = trim(&chars_of(c.as_str()));
            if t.len() == 0 {
                Ok(None)
            } else {
                Ok(Some(string_of(&t)))
            }
        },
    }
}

/// A saved target folder reads back as itself, when it is not empty and has
/// no whitespace at its ends.
pub proof fn law_saved_target_reads_back(file: Seq<char>, target: String)
    requires
        target@.len() > 0,
        trimmed(target@) == target@,
    ensures
        loaded_target(file, SavedTargetRead::Contents(target)) == Ok::<Option<Seq<char>>, Seq<char>>(Some(target@)),
{
}

/// What a folder listing came to.
pub enum DirListing {
    /// The folder could not be opened.
    OpenFailed(String),
    /// An entry could not be read.
    EntryFailed(String),
    /// The names of all entries, in any order (names that are not valid
    /// Unicode left out).
    Names(Vec<String>),
}

/// Filesystem work that a run needs done, or its outcome.
pub enum RunStep {
    /// Create the folder `path` and the folders above it.
    CreateDir { path: String },
    /// Write `contents` to the file `path`, replacing it.
    WriteFile { path: String, contents: String },
    /// List the entries of the folder `path`.
    ListDir { path: String },
    /// Move the file `from` to `to`.
    MoveFile { from: String, to: String },
    /// The run is over: the path the input went to, or the error.
    Done(Result<String, String>),
}

/// Which outcome the run waits for.
pub enum RunStage {
    CreatingTargetDir,
    CreatingConfigDir,
    SavingTarget,
    ListingTargetDir,
    MovingFile,
    Finished,
}

/// A run that moves `input` into `target` under the next name of `prefix`.
pub struct TargetRun {
    pub input: String,
    pub prefix: String,
    pub target: String,
    pub persist_target: bool,
    pub env: ConfigEnv,
    /// The folder that will hold the remembered target, once known.
    pub config_dir: String,
    /// The file that will hold the remembered target, once known.
    pub target_file: String,
    /// Where the input goes, once known.
    pub output: String,
    pub stage: RunStage,
}

pub open spec fn create_target_failed(target: Seq<char>, err: Seq<char>) -> Seq<char> {
    "failed to create target directory "@ + target + ": "@ + err
}

pub open spec fn create_config_failed(dir: Seq<char>, err: Seq<char>) -> Seq<char> {
    "failed to create config directory "@ + dir + ": "@ + err
}

pub open spec fn save_failed(file: Seq<char>, err: Seq<char>) -> Seq<char> {
    "failed to save target to "@ + file + ": "@ + err
}

pub open spec fn list_failed(target: Seq<char>, err: Seq<char>) -> Seq<char> {
    "failed to read target directory "@ + target + ": "@ + err
}

pub open spec fn entry_failed(target: Seq<char>, err: Seq<char>) -> Seq<char> {
    "failed to read entry in target directory "@ + target + ": "@ + err
}

/// The step ends the run with the error `msg`.
pub open spec fn run_fails_with(step: RunStep, msg: Seq<char>) -> bool {
    step matches RunStep::Done(Err(e)) && e@ == msg
}

impl TargetRun {
    /// The run keeps what it was started with.
    pub open spec fn same_request(self, other: TargetRun) -> bool {
        &&& self.input@ == other.input@
        &&& self.prefix@ == other.prefix@
        &&& self.target@ == other.target@
        &&& self.persist_target == other.persist_target
        &&& self.env == other.env
    }

    /// The run's state is consistent: the remembered target is only ever
    /// handled when the run was asked to remember it, in the file that holds it.
    pub open spec fn wf(self) -> bool {
        (self.stage is CreatingConfigDir || self.stage is SavingTarget) ==> {
            &&& self.persist_target
            &&& config_dir_of(self.env) == Ok::<Seq<char>, Seq<char>>(self.config_dir@)
            &&& target_file_of(self.env) == Ok::<Seq<char>, Seq<char>>(self.target_file@)
        }
    }

    /// What comes once the target is remembered, or need not be: the input's
    /// extension is checked, then the target folder is listed.
    pub open spec fn listing_step_ok(self, step: RunStep, next: TargetRun) -> bool {
        match path_extension(self.input@) {
            None => run_fails_with(step, no_extension_message(self.input@)) && next.stage is Finished,
            Some(_) => step matches RunStep::ListDir { path } && path@ == self.target@
                && next.stage is ListingTargetDir,
        }
    }
}

/// Starts a run that moves `input` into the folder `target`, under the next
/// name of `prefix` there, and remembers `target` when `persist_target` is
/// set. The first step creates the target folder.
pub fn run_with_target(input: String, prefix: String, target: String, persist_target: bool, env: ConfigEnv) -> (r: (TargetRun, RunStep))
    ensures
        r.0.input@ == input@,
        r.0.prefix@ == prefix@,
        r.0.target@ == target@,
        r.0.persist_target == persist_target,
        r.0.env == env,
        r.0.stage is CreatingTargetDir,
        r.0.wf(),
        r.1 matches RunStep::CreateDir { path } && path@ == target@,
{
    let path = target.clone();
    let run = TargetRun {
        input,
        prefix,
        target,
        persist_target,
        env,
        config_dir: String::new(),
        target_file: String::new(),
        output: String::new(),
        stage: RunStage::CreatingTargetDir,
    };
    (run, RunStep::CreateDir { path })
}

impl TargetRun {
    /// Checks the input's extension and asks for the target folder's listing.
    fn ask_for_listing(&mut self) -> (step: RunStep)
        ensures
            final(self).same_request(*old(self)),
            old(self).listing_step_ok(step, *final(self)),
            final(self).wf(),
    {
        match extension_of(self.input.as_str()) {
            None => {
                self.stage = RunStage::Finished;
                RunStep::Done(Err(no_extension_error(self.input.as_str())))
            },
            Some(_) => {
                self.stage = RunStage::ListingTargetDir;
                RunStep::ListDir { path: self.target.clone() }
            },
        }
    }

    /// Takes the outcome of creating a folder: first the target folder, then,
    /// when the target is to be remembered, the folder that holds it.
    pub fn dir_created(&mut self, result: Result<(), String>) -> (step: RunStep)
        requires
            old(self).stage is CreatingTargetDir || old(self).stage is CreatingConfigDir,
            old(self).wf(),
        ensures
            final(self).same_request(*old(self)),
            final(self).wf(),
            step is WriteFile ==> old(self).persist_target,
            old(self).stage is CreatingTargetDir ==> match result {
                Err(e) => run_fails_with(step, create_target_failed(old(self).target@, e@))
                    && final(self).stage is Finished,
                Ok(()) => if old(self).persist_target {
                    match config_dir_of(old(self).env) {
                        Err(m) => run_fails_with(step, m) && final(self).stage is Finished,
                        Ok(dir) => step matches RunStep::CreateDir { path } && path@ == dir
                            && final(self).stage is CreatingConfigDir,
                    }
                } else {
                    old(self).listing_step_ok(step, *final(self))
                },
            },
            old(self).stage is CreatingConfigDir ==> match result {
                Err(e) => run_fails_with(step, create_config_failed(old(self).config_dir@, e@))
                    && final(self).stage is Finished,
                Ok(()) => {
                    &&& step matches RunStep::WriteFile { path, contents }
                        && target_file_of(old(self).env) == Ok::<Seq<char>, Seq<char>>(path@)
                        && contents@ == old(self).target@
                    &&& final(self).stage is SavingTarget
                },
            },
    {
        match self.stage {
            RunStage::CreatingTargetDir => {
                if let Err(e) = result {
                    let mut m = String::from_str("failed to create target directory ");
                    m.append(self.target.as_str());
                    m.append(": ");
                    m.append(e.as_str());
                    self.stage = RunStage::Finished;
                    return RunStep::Done(Err(m));
                }
                if !self.persist_target {
                    return self.ask_for_listing();
                }
                let dir = match config_dir(&self.env) {
                    Ok(d) => d,
                    Err(m) => {
                        self.stage = RunStage::Finished;
                        return RunStep::Done(Err(m));
                    },
                };
                let file = match target_file_path(&self.env) {
                    Ok(f) => f,
                    Err(m) => {
                        self.stage = RunStage::Finished;
                        return RunStep::Done(Err(m));
                    },
                };
                self.config_dir = dir.clone();
                self.target_file = file;
                self.stage = RunStage::CreatingConfigDir;
                RunStep::CreateDir { path: dir }
            },
            _ => {
                if let Err(e) = result {
                    let mut m = String::from_str("failed to create config directory ");
                    m.append(self.config_dir.as_str());
                    m.append(": ");
                    m.append(e.as_str());
                    self.stage = RunStage::Finished;
                    return RunStep::Done(Err(m));
                }
                self.stage = RunStage::SavingTarget;
                RunStep::WriteFile { path: self.target_file.clone(), contents: self.target.clone() }
            },
        }
    }

    /// Takes the outcome of writing the remembered target.
    pub fn file_written(&mut self, result: Result<(), String>) -> (step: RunStep)
        requires
            old(self).stage is SavingTarget,
            old(self).wf(),
        ensures
            final(self).same_request(*old(self)),
            final(self).wf(),
            match result {
                Err(e) => run_fails_with(step, save_failed(old(self).target_file@, e@))
                    && final(self).stage is Finished,
                Ok(()) => old(self).listing_step_ok(step, *final(self)),
            },
    {
        if let Err(e) = result {
            let mut m = String::from_str("failed to save target to ");
            m.append(self.target_file.as_str());
            m.append(": ");
            m.append(e.as_str());
            self.stage = RunStage::Finished;
            return RunStep::Done(Err(m));
        }
        self.ask_for_listing()
    }

    /// Takes the listing of the target folder and asks to move the input to
    /// the next file name there.
    pub fn dir_listed(&mut self, listing: DirListing) -> (step: RunStep)
        requires
            old(self).stage is ListingTargetDir,
            old(self).wf(),
        ensures
            final(self).same_request(*old(self)),
            final(self).wf(),
            match listing {
                DirListing::OpenFailed(e) => run_fails_with(step, list_failed(old(self).target@, e@))
                    && final(self).stage is Finished,
                DirListing::EntryFailed(e) => run_fails_with(step, entry_failed(old(self).target@, e@))
                    && final(self).stage is Finished,
                DirListing::Names(names) => match output_path(old(self).target@, old(self).prefix@, old(self).input@, names.deep_view()) {
                    Ok(out) => {
                        &&& step matches RunStep::MoveFile { from, to } && from@ == old(self).input@ && to@ == out
                        &&& final(self).output@ == out
                        &&& final(self).stage is MovingFile
                    },
                    Err(m) => run_fails_with(step, m) && final(self).stage is Finished,
                },
            },
    {
        match listing {
            DirListing::OpenFailed(e) => {
                let mut m = String::from_str("failed to read target directory ");
                m.append(self.target.as_str());
                m.append(": ");
                m.append(e.as_str());
                self.stage = RunStage::Finished;
                RunStep::Done(Err(m))
            },
            DirListing::EntryFailed(e) => {
                let mut m = String::from_str("failed to read entry in target directory ");
                m.append(self.target.as_str());
                m.append(": ");
                m.append(e.as_str());
                self.stage = RunStage::Finished;
                RunStep::Done(Err(m))
            },
            DirListing::Names(names) => {
                match next_output_path(self.target.as_str(), self.prefix.as_str(), self.input.as_str(), &names) {
                    Ok(out) => {
                        self.output = out.clone();
                        self.stage = RunStage::MovingFile;
                        RunStep::MoveFile { from: self.input.clone(), to: out }
                    },
                    Err(m) => {
                        self.stage = RunStage::Finished;
                        RunStep::Done(Err(m))
                    },
                }
            },
        }
    }

    /// Takes the outcome of the move, which ends the run.
    pub fn file_moved(&mut self, result: Result<(), String>) -> (step: RunStep)
        requires
            old(self).stage is MovingFile,
            old(self).wf(),
        ensures
            final(self).same_request(*old(self)),
            final(self).stage is Finished,
            match result {
                Err(e) => run_fails_with(step, e@),
                Ok(()) => step matches RunStep::Done(Ok(out)) && out@ == old(self).output@,
            },
    {
        self.stage = RunStage::Finished;
        match result {
            Err(e) => RunStep::Done(Err(e)),
            Ok(()) => RunStep::Done(Ok(self.output.clone())),
        }
    }
}

/// The remembered target is the saved text without the whitespace at its
/// ends: the run `contents[i..j]` with only whitespace before and after it,
/// which neither starts nor ends with whitespace; text that is only
/// whitespace gives no target. The returned pair is `(i, j)`.
pub proof fn law_loaded_target_is_trimmed_text(file: Seq<char>, contents: String) -> (r: (int, int))
    ensures
        0 <= r.0 <= r.1 <= contents@.len(),
        forall|m: int| 0 <= m < r.0 ==> unicode_white_space(#[trigger] contents@[m]),
        forall|m: int| r.1 <= m < contents@.len() ==> unicode_white_space(#[trigger] contents@[m]),
        match loaded_target(file, SavedTargetRead::Contents(contents)) {
            Ok(None) => r.0 == r.1,
            Ok(Some(t)) => {
                &&& r.0 < r.1
                &&& t == contents@.subrange(r.0, r.1)
                &&& !unicode_white_space(t[0])
                &&& !unicode_white_space(t[t.len() - 1])
            },
            Err(_) => false,
        },
{
    let r = lemma_trimmed_shape(contents@);
    let t = contents@.subrange(r.0, r.1);
    if r.0 < r.1 {
        assert(t[0] == contents@[r.0]);
        assert(t[t.len() - 1] == contents@[r.1 - 1]);
    }
    r
}

} // verus!
