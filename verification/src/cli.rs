//! The command line: `appendfile [--target <folder>] <input> <prefix>`.
//!
//! `parse_cli` reads the arguments and then asks, one question at a time, for
//! what only the environment can answer: whether the input is a file, the
//! saved target folder, and the current directory. Each answer goes to the
//! method of `CliParse` that the question names, and the next step comes back.
use vstd::prelude::*;
use crate::text::{
    chars_equal, chars_of, contains_char, contains_double_dot, contains_run, slice_chars,
    lemma_trimmed_is_stable, starts_with_at, string_of, trim, trimmed,
};

verus! {

/// What the command line asks for.
#[derive(Debug)]
pub enum CliAction {
    /// Move `input` into `target` under the next name of `prefix`, and
    /// remember `target` when `persist_target` is set.
    Run { input: String, prefix: String, target: String, persist_target: bool },
    /// Print the usage text.
    Help,
}

/// A question that only the environment can answer.
pub enum CliQuery {
    /// Is this path an existing regular file?
    InputIsFile { input: String },
    /// Which target folder was saved by an earlier run, if any?
    SavedTarget,
    /// What is the current directory?
    CurrentDir,
}

/// What comes after a step of the parse.
pub enum CliStep {
    /// The parse is over, with this outcome.
    Done(Result<CliAction, String>),
    /// The parse needs this answered.
    Ask(CliQuery),
}

/// Which answer the parse waits for.
pub enum CliStage {
    CheckingInput,
    LoadingSavedTarget,
    ReadingCurrentDir,
    Finished,
}

/// A command line being parsed.
pub struct CliParse {
    pub input: String,
    pub raw_prefix: String,
    pub prefix: String,
    pub target: Option<String>,
    pub persist_target: bool,
    pub stage: CliStage,
}

pub open spec fn flag_short_help() -> Seq<char> {
    seq!['-', 'h']
}

pub open spec fn flag_long_help() -> Seq<char> {
    seq!['-', '-', 'h', 'e', 'l', 'p']
}

pub open spec fn flag_short_target() -> Seq<char> {
    seq!['-', 't']
}

pub open spec fn flag_long_target() -> Seq<char> {
    seq!['-', '-', 't', 'a', 'r', 'g', 'e', 't']
}

/// `--target=`, which introduces a target folder in the same argument.
pub open spec fn target_assignment() -> Seq<char> {
    seq!['-', '-', 't', 'a', 'r', 'g', 'e', 't', '=']
}

pub open spec fn is_help_flag(a: Seq<char>) -> bool {
    a == flag_short_help() || a == flag_long_help()
}

pub open spec fn is_target_flag(a: Seq<char>) -> bool {
    a == flag_short_target() || a == flag_long_target()
}

/// `s` with every leading repetition of `p` removed (what
/// `str::trim_start_matches` does with a string pattern).
pub open spec fn strip_repeated_prefix(s: Seq<char>, p: Seq<char>) -> Seq<char>
    decreases s.len(),
{
    if p.len() > 0 && p.is_prefix_of(s) {
        strip_repeated_prefix(s.skip(p.len() as int), p)
    } else {
        s
    }
}

pub open spec fn missing_target_message() -> Seq<char> {
    "missing value for --target"@
}

pub open spec fn positionals_message() -> Seq<char> {
    "expected positional arguments: <input> <prefix>"@
}

pub open spec fn empty_prefix_message() -> Seq<char> {
    "prefix cannot be empty"@
}

pub open spec fn unsafe_prefix_message() -> Seq<char> {
    "prefix must not contain path separators or \"..\""@
}

pub open spec fn input_not_found_message(input: Seq<char>) -> Seq<char> {
    "input file not found: "@ + input
}

pub open spec fn current_dir_message(err: Seq<char>) -> Seq<char> {
    "failed to read current directory: "@ + err
}

/// What the arguments from index `i` on come to, given the target folder named
/// so far and the positional arguments collected so far: `Ok(None)` for help,
/// `Ok(Some((target, positionals)))` when every argument was read, or the
/// message of the first error.
pub open spec fn scan_args(
    args: Seq<Seq<char>>,
    i: int,
    target: Option<Seq<char>>,
    positionals: Seq<Seq<char>>,
) -> Result<Option<(Option<Seq<char>>, Seq<Seq<char>>)>, Seq<char>>
    decreases args.len() - i,
{
    if i < 0 || i >= args.len() {
        Ok(Some((target, positionals)))
    } else if is_help_flag(args[i]) {
        Ok(None)
    } else if is_target_flag(args[i]) {
        if i + 1 >= args.len() {
            Err(missing_target_message())
        } else {
            scan_args(args, i + 2, Some(args[i + 1]), positionals)
        }
    } else if target_assignment().is_prefix_of(args[i]) {
        let value = strip_repeated_prefix(args[i], target_assignment());
        if value.len() == 0 {
            Err(missing_target_message())
        } else {
            scan_args(args, i + 1, Some(value), positionals)
        }
    } else {
        scan_args(args, i + 1, target, positionals.push(args[i]))
    }
}

/// The prefix that a raw prefix argument gives: trimmed, not empty, and free
/// of `/`, `\` and `..`.
pub open spec fn checked_prefix(raw: Seq<char>) -> Result<Seq<char>, Seq<char>> {
    let p = trimmed(raw);
    if p.len() == 0 {
        Err(empty_prefix_message())
    } else if p.contains('/') || p.contains('\\') || contains_run(p, seq!['.', '.']) {
        Err(unsafe_prefix_message())
    } else {
        Ok(p)
    }
}

pub open spec fn opt_text(o: Option<String>) -> Option<Seq<char>> {
    match o {
        Some(s) => Some(s@),
        None => None,
    }
}

/// The step ends the parse with the error `msg`.
pub open spec fn fails_with(step: CliStep, msg: Seq<char>) -> bool {
    step matches CliStep::Done(Err(e)) && e@ == msg
}

/// The step ends the parse with a run of the given values.
pub open spec fn runs_with(
    step: CliStep,
    input: Seq<char>,
    prefix: Seq<char>,
    target: Seq<char>,
    persist_target: bool,
) -> bool {
    match step {
        CliStep::Done(Ok(CliAction::Run { input: i, prefix: p, target: t, persist_target: k })) => {
            &&& i@ == input
            &&& p@ == prefix
            &&& t@ == target
            &&& k == persist_target
        },
        _ => false,
    }
}

impl CliParse {
    /// The parse keeps the values read from the arguments.
    pub open spec fn same_arguments(self, other: CliParse) -> bool {
        &&& self.input@ == other.input@
        &&& self.raw_prefix@ == other.raw_prefix@
        &&& opt_text(self.target) == opt_text(other.target)
        &&& self.persist_target == other.persist_target
    }
}

/// Reads `s` without its whitespace at both ends, refusing an empty prefix
/// and one holding `/`, `\` or `..`.
pub fn validate_prefix(raw: &str) -> (r: Result<String, String>)
    ensures
        match r {
            Ok(p) => checked_prefix(raw@) == Ok::<Seq<char>, Seq<char>>(p@),
            Err(e) => checked_prefix(raw@) == Err::<Seq<char>, Seq<char>>(e@),
        },
{
    let p = trim(&chars_of(raw));
    if p.len() == 0 {
        return Err(String::from_str("prefix cannot be empty"));
    }
    if contains_char(&p, '/') || contains_char(&p, '\\') || contains_double_dot(&p) {
        return Err(String::from_str("prefix must not contain path separators or \"..\""));
    }
    Ok(string_of(&p))
}

/// `s` with every leading repetition of `p` removed.
fn strip_repeated_prefix_chars(s: &[char], p: &[char]) -> (r: Vec<char>)
    requires
        p.len() > 0,
    ensures
        r@ == strip_repeated_prefix(s@, p@),
{
    let mut start: usize = 0;
    assert(s@.skip(0) =~= s@);
    while starts_with_at(s, start, p)
        invariant
            start <= s.len(),
            p.len() > 0,
            strip_repeated_prefix(s@, p@) == strip_repeated_prefix(s@.skip(start as int), p@),
        decreases s.len() - start,
    {
        assert(s@.skip(start as int).skip(p@.len() as int) =~= s@.skip(start + p@.len()));
        start = start + p.len();
    }
    let r = slice_chars(s, start, s.len());
    r
}

/// A parse that is over.
fn finished_parse() -> (p: CliParse)
    ensures
        p.stage is Finished,
{
    CliParse {
        input: String::new(),
        raw_prefix: String::new(),
        prefix: String::new(),
        target: None,
        persist_target: false,
        stage: CliStage::Finished,
    }
}

/// Reads the command-line arguments (without the program name).
///
/// `-h`/`--help` asks for help; `-t <folder>`, `--target <folder>` and
/// `--target=<folder>` name the target folder, which is then remembered, the
/// last one given counting; every other argument is positional, and there
/// must be exactly two: the input file and the prefix. The first error met
/// ends the parse. When the arguments are in order, the parse asks whether the
/// input is a file.
pub fn parse_cli(args: Vec<String>) -> (r: (CliParse, CliStep))
    ensures
        match scan_args(args.deep_view(), 0, None, Seq::empty()) {
            Err(m) => fails_with(r.1, m) && r.0.stage is Finished,
            Ok(None) => r.1 matches CliStep::Done(Ok(CliAction::Help)) && r.0.stage is Finished,
            Ok(Some((t, pos))) => if pos.len() != 2 {
                fails_with(r.1, positionals_message()) && r.0.stage is Finished
            } else {
                &&& r.1 matches CliStep::Ask(CliQuery::InputIsFile { input }) && input@ == pos[0]
                &&& r.0.stage is CheckingInput
                &&& r.0.input@ == pos[0]
                &&& r.0.raw_prefix@ == pos[1]
                &&& opt_text(r.0.target) == t
                &&& r.0.persist_target == t is Some
            },
        },
{
    let ghost a = args.deep_view();
    let short_help = ['-', 'h'];
    let long_help = ['-', '-', 'h', 'e', 'l', 'p'];
    let short_target = ['-', 't'];
    let long_target = ['-', '-', 't', 'a', 'r', 'g', 'e', 't'];
    let assignment = ['-', '-', 't', 'a', 'r', 'g', 'e', 't', '='];
    assert(short_help@ == flag_short_help());
    assert(long_help@ == flag_long_help());
    assert(short_target@ == flag_short_target());
    assert(long_target@ == flag_long_target());
    assert(assignment@ == target_assignment());
    let mut target: Option<String> = None;
    let mut positionals: Vec<String> = Vec::new();
    let mut i: usize = 0;
    assert(positionals.deep_view() =~= Seq::<Seq<char>>::empty());
    while i < args.len()
        invariant
            i <= args.len(),
            a == args.deep_view(),
            a.len() == args.len(),
            short_help@ == flag_short_help(),
            long_help@ == flag_long_help(),
            short_target@ == flag_short_target(),
            long_target@ == flag_long_target(),
            assignment@ == target_assignment(),
            scan_args(a, 0, None, Seq::empty()) == scan_args(a, i as int, opt_text(target), positionals.deep_view()),
        decreases args.len() - i,
    {
        let arg = chars_of(args[i].as_str());
        assert(arg@ == a[i as int]);
        if chars_equal(&arg, &short_help) || chars_equal(&arg, &long_help) {
            return (finished_parse(), CliStep::Done(Ok(CliAction::Help)));
        }
        if chars_equal(&arg, &short_target) || chars_equal(&arg, &long_target) {
            if i + 1 >= args.len() {
                return (finished_parse(), CliStep::Done(Err(String::from_str("missing value for --target"))));
            }
            target = Some(args[i + 1].clone());
            assert(opt_text(target) == Some(a[i + 1]));
            i = i + 2;
        } else if starts_with_at(&arg, 0, &assignment) {
            assert(arg@.skip(0) =~= arg@);
            let value = strip_repeated_prefix_chars(&arg, &assignment);
            if value.len() == 0 {
                return (finished_parse(), CliStep::Done(Err(String::from_str("missing value for --target"))));
            }
            target = Some(string_of(&value));
            i = i + 1;
        } else {
            let ghost before = positionals.deep_view();
            positionals.push(args[i].clone());
            assert(positionals.deep_view() =~= before.push(a[i as int]));
            i = i + 1;
        }
    }
    if positionals.len() != 2 {
        return (
            finished_parse(),
            CliStep::Done(Err(String::from_str("expected positional arguments: <input> <prefix>"))),
        );
    }
    let persist_target = target.is_some();
    let parse = CliParse {
        input: positionals[0].clone(),
        raw_prefix: positionals[1].clone(),
        prefix: String::new(),
        target,
        persist_target,
        stage: CliStage::CheckingInput,
    };
    let input = positionals[0].clone();
    (parse, CliStep::Ask(CliQuery::InputIsFile { input }))
}

impl CliParse {
    /// Takes the answer to `InputIsFile`. A missing input file ends the parse;
    /// otherwise the prefix is checked, and the target folder is the one given
    /// on the command line or, failing that, is asked for.
    pub fn input_checked(&mut self, is_file: bool) -> (step: CliStep)
        requires
            old(self).stage is CheckingInput,
        ensures
            !is_file ==> fails_with(step, input_not_found_message(old(self).input@)) && final(self).stage is Finished,
            is_file ==> match checked_prefix(old(self).raw_prefix@) {
                Err(m) => fails_with(step, m) && final(self).stage is Finished,
                Ok(p) => match opt_text(old(self).target) {
                    Some(t) => runs_with(step, old(self).input@, p, t, old(self).persist_target)
                        && final(self).stage is Finished,
                    None => {
                        &&& step matches CliStep::Ask(CliQuery::SavedTarget)
                        &&& final(self).stage is LoadingSavedTarget
                        &&& final(self).same_arguments(*old(self))
                        &&& final(self).prefix@ == p
                    },
                },
            },
    {
        if !is_file {
            let mut m = String::from_str("input file not found: ");
            m.append(self.input.as_str());
            self.stage = CliStage::Finished;
            return CliStep::Done(Err(m));
        }
        let prefix = match validate_prefix(self.raw_prefix.as_str()) {
            Ok(p) => p,
            Err(e) => {
                self.stage = CliStage::Finished;
                return CliStep::Done(Err(e));
            },
        };
        match &self.target {
            Some(t) => {
                let action = CliAction::Run {
                    input: self.input.clone(),
                    prefix,
                    target: t.clone(),
                    persist_target: self.persist_target,
                };
                self.stage = CliStage::Finished;
                CliStep::Done(Ok(action))
            },
            None => {
                self.prefix = prefix;
                self.stage = CliStage::LoadingSavedTarget;
                CliStep::Ask(CliQuery::SavedTarget)
            },
        }
    }

    /// Takes the answer to `SavedTarget`: a saved folder becomes the target; a
    /// failure to read it ends the parse; without one, the current directory
    /// is asked for.
    pub fn saved_target_loaded(&mut self, saved: Result<Option<String>, String>) -> (step: CliStep)
        requires
            old(self).stage is LoadingSavedTarget,
        ensures
            match saved {
                Err(e) => fails_with(step, e@) && final(self).stage is Finished,
                Ok(Some(t)) => runs_with(step, old(self).input@, old(self).prefix@, t@, old(self).persist_target)
                    && final(self).stage is Finished,
                Ok(None) => {
                    &&& step matches CliStep::Ask(CliQuery::CurrentDir)
                    &&& final(self).stage is ReadingCurrentDir
                    &&& final(self).same_arguments(*old(self))
                    &&& final(self).prefix@ == old(self).prefix@
                },
            },
    {
        match saved {
            Err(e) => {
                self.stage = CliStage::Finished;
                CliStep::Done(Err(e))
            },
            Ok(Some(t)) => {
                let action = CliAction::Run {
                    input: self.input.clone(),
                    prefix: self.prefix.clone(),
                    target: t,
                    persist_target: self.persist_target,
                };
                self.stage = CliStage::Finished;
                CliStep::Done(Ok(action))
            },
            Ok(None) => {
                self.stage = CliStage::ReadingCurrentDir;
                CliStep::Ask(CliQuery::CurrentDir)
            },
        }
    }

    /// Takes the answer to `CurrentDir`, which becomes the target folder.
    pub fn current_dir_read(&mut self, dir: Result<String, String>) -> (step: CliStep)
        requires
            old(self).stage is ReadingCurrentDir,
        ensures
            final(self).stage is Finished,
            match dir {
                Err(e) => fails_with(step, current_dir_message(e@)),
                Ok(d) => runs_with(step, old(self).input@, old(self).prefix@, d@, old(self).persist_target),
            },
    {
        self.stage = CliStage::Finished;
        match dir {
            Err(e) => {
                let mut m = String::from_str("failed to read current directory: ");
                m.append(e.as_str());
                CliStep::Done(Err(m))
            },
            Ok(d) => CliStep::Done(Ok(CliAction::Run {
                input: self.input.clone(),
                prefix: self.prefix.clone(),
                target: d,
                persist_target: self.persist_target,
            })),
        }
    }
}

/// `-h` or `--help` as the first argument asks for help, whatever follows.
pub proof fn law_help_first_wins(args: Seq<Seq<char>>)
    requires
        args.len() > 0,
        is_help_flag(args[0]),
    ensures
        scan_args(args, 0, None, Seq::empty()) == Ok::<Option<(Option<Seq<char>>, Seq<Seq<char>>)>, Seq<char>>(None),
{
}

/// Once the arguments ask for help, arguments added after them change nothing.
pub proof fn law_help_ignores_later_arguments(
    args: Seq<Seq<char>>,
    extra: Seq<Seq<char>>,
    i: int,
    target: Option<Seq<char>>,
    positionals: Seq<Seq<char>>,
)
    requires
        0 <= i,
        scan_args(args, i, target, positionals) == Ok::<Option<(Option<Seq<char>>, Seq<Seq<char>>)>, Seq<char>>(None),
    ensures
        scan_args(args + extra, i, target, positionals) == Ok::<Option<(Option<Seq<char>>, Seq<Seq<char>>)>, Seq<char>>(None),
    decreases args.len() - i,
{
    let all = args + extra;
    if i < args.len() {
        assert(all[i] == args[i]);
        if is_help_flag(args[i]) {
        } else if is_target_flag(args[i]) {
            assert(all[i + 1] == args[i + 1]);
            law_help_ignores_later_arguments(args, extra, i + 2, Some(args[i + 1]), positionals);
        } else if target_assignment().is_prefix_of(args[i]) {
            let value = strip_repeated_prefix(args[i], target_assignment());
            law_help_ignores_later_arguments(args, extra, i + 1, Some(value), positionals);
        } else {
            law_help_ignores_later_arguments(args, extra, i + 1, target, positionals.push(args[i]));
        }
    }
}

/// An accepted prefix is not empty, has no whitespace at either end, and
/// holds no `/`, `\` or `..`, so it names a file in the target folder and
/// nowhere else.
pub proof fn law_accepted_prefix_is_clean(raw: Seq<char>)
    requires
        checked_prefix(raw) is Ok,
    ensures
        ({
            let p = checked_prefix(raw)->Ok_0;
            &&& p.len() > 0
            &&& trimmed(p) == p
            &&& !p.contains('/')
            &&& !p.contains('\\')
            &&& !contains_run(p, seq!['.', '.'])
        }),
{
    lemma_trimmed_is_stable(raw);
}

/// Every raw prefix that trims to a non-empty text without `/`, `\` or
/// `..` is accepted, as that trimmed text.
pub proof fn law_clean_prefix_is_accepted(raw: Seq<char>)
    requires
        trimmed(raw).len() > 0,
        !trimmed(raw).contains('/'),
        !trimmed(raw).contains('\\'),
        !contains_run(trimmed(raw), seq!['.', '.']),
    ensures
        checked_prefix(raw) == Ok::<Seq<char>, Seq<char>>(trimmed(raw)),
{
}

/// Reading arguments placed after others is reading them on their own: the
/// scan of `pre + rest` from position `pre.len() + j` is the scan of `rest`
/// from `j`.
proof fn lemma_scan_shift(
    pre: Seq<Seq<char>>,
    rest: Seq<Seq<char>>,
    j: int,
    target: Option<Seq<char>>,
    positionals: Seq<Seq<char>>,
)
    requires
        0 <= j,
    ensures
        scan_args(pre + rest, pre.len() + j, target, positionals) == scan_args(rest, j, target, positionals),
    decreases rest.len() - j,
{
    let all = pre + rest;
    let i = pre.len() + j;
    if j < rest.len() {
        assert(all[i] == rest[j]);
        if is_help_flag(rest[j]) {
        } else if is_target_flag(rest[j]) {
            if j + 1 < rest.len() {
                assert(all[i + 1] == rest[j + 1]);
                lemma_scan_shift(pre, rest, j + 2, Some(rest[j + 1]), positionals);
            }
        } else if target_assignment().is_prefix_of(rest[j]) {
            let value = strip_repeated_prefix(rest[j], target_assignment());
            lemma_scan_shift(pre, rest, j + 1, Some(value), positionals);
        } else {
            lemma_scan_shift(pre, rest, j + 1, target, positionals.push(rest[j]));
        }
    }
}

/// The positionals collected before a point are kept: scanning with some
/// positionals already collected gives those followed by the ones the scan
/// collects by itself, with the same target and the same outcome otherwise.
pub proof fn law_positionals_accumulate(
    args: Seq<Seq<char>>,
    i: int,
    target: Option<Seq<char>>,
    before: Seq<Seq<char>>,
)
    requires
        0 <= i,
    ensures
        match scan_args(args, i, target, Seq::empty()) {
            Ok(Some((t, found))) => scan_args(args, i, target, before)
                == Ok::<Option<(Option<Seq<char>>, Seq<Seq<char>>)>, Seq<char>>(Some((t, before + found))),
            other => scan_args(args, i, target, before) == other,
        },
    decreases args.len() - i,
{
    if i >= args.len() {
        assert(before + Seq::<Seq<char>>::empty() =~= before);
    } else if is_help_flag(args[i]) {
    } else if is_target_flag(args[i]) {
        if i + 1 < args.len() {
            law_positionals_accumulate(args, i + 2, Some(args[i + 1]), before);
        }
    } else if target_assignment().is_prefix_of(args[i]) {
        let value = strip_repeated_prefix(args[i], target_assignment());
        if value.len() != 0 {
            law_positionals_accumulate(args, i + 1, Some(value), before);
        }
    } else {
        let a = args[i];
        law_positionals_accumulate(args, i + 1, target, before.push(a));
        law_positionals_accumulate(args, i + 1, target, seq![a]);
        law_positionals_accumulate(args, i + 1, target, Seq::empty());
        assert(Seq::<Seq<char>>::empty().push(a) =~= seq![a]);
        match scan_args(args, i + 1, target, Seq::empty()) {
            Ok(Some((t, found))) => {
                assert(before.push(a) + found =~= before + (seq![a] + found));
            },
            _ => {},
        }
    }
}

/// An argument that is neither a flag nor `--target=...` is a positional
/// argument, kept in order.
pub proof fn law_plain_argument_is_positional(
    a: Seq<char>,
    rest: Seq<Seq<char>>,
    target: Option<Seq<char>>,
    positionals: Seq<Seq<char>>,
)
    requires
        !is_help_flag(a),
        !is_target_flag(a),
        !target_assignment().is_prefix_of(a),
    ensures
        scan_args(seq![a] + rest, 0, target, positionals) == scan_args(rest, 0, target, positionals.push(a)),
{
    lemma_scan_shift(seq![a], rest, 0, target, positionals.push(a));
}

/// `-t <folder>` or `--target <folder>` names the target folder and leaves
/// the positionals collected before and after it as they are.
pub proof fn law_target_pair_keeps_positionals(
    flag: Seq<char>,
    value: Seq<char>,
    rest: Seq<Seq<char>>,
    target: Option<Seq<char>>,
    positionals: Seq<Seq<char>>,
)
    requires
        is_target_flag(flag),
    ensures
        scan_args(seq![flag, value] + rest, 0, target, positionals) == scan_args(rest, 0, Some(value), positionals),
{
    let all = seq![flag, value] + rest;
    assert(all[0] == flag);
    assert(all[1] == value);
    lemma_scan_shift(seq![flag, value], rest, 0, Some(value), positionals);
}

} // verus!
