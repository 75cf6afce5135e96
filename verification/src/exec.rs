//! Programs to run, and what their runs come to.
//!
//! Running a program is the caller's business; this module describes the
//! command lines ppgit runs and decides what each outcome means: whether it
//! counts as success, what text it yields, and which exit code and message a
//! failure turns into.
use vstd::prelude::*;

use crate::cli::{lossy_spec, lossy_text};
use crate::text::{cat2, cat3, cat4, join, join_spec, owned, signed_decimal, signed_text, string_views, trim, trim_spec};

verus! {

/// The argument that points git at the private git-dir.
pub const PRIVATE_GIT_ARG: &'static str = "--git-dir=.ppgit";

/// The argument that points git at the shared working tree.
pub const WORK_TREE_ARG: &'static str = "--work-tree=.";

/// The conventional exit code for success.
pub const EXIT_SUCCESS: u8 = 0;

/// The conventional exit code for failure.
pub const EXIT_FAILURE: u8 = 1;

/// A program and its arguments.
pub struct Command {
    pub program: String,
    pub args: Vec<String>,
}

impl View for Command {
    type V = (Seq<char>, Seq<Seq<char>>);

    /// The program and arguments, as text.
    open spec fn view(&self) -> (Seq<char>, Seq<Seq<char>>) {
        (self.program@, string_views(self.args@))
    }
}

/// A command line built from `program` and `args`.
pub fn command(program: &str, args: Vec<String>) -> (c: Command)
    ensures
        c.program@ == program@,
        c.args@ == args@,
{
    Command { program: owned(program), args }
}

/// How a run with captured output came out.
pub enum QuietOutcome {
    /// The program could not be started; `error` says why.
    NotLaunched { error: String },
    /// The program ran to its end.
    Finished {
        /// It exited successfully.
        success: bool,
        /// Its exit status, as text.
        status: String,
        /// What it wrote to standard output.
        stdout: Vec<u8>,
    },
}

/// Whether a quiet run both launched and exited successfully.
pub open spec fn quiet_ok_spec(o: QuietOutcome) -> bool {
    o matches QuietOutcome::Finished { success: true, .. }
}

/// Whether a quiet run both launched and exited successfully — for checks
/// where only a yes or no is needed.
pub fn run_quiet_ok(outcome: &QuietOutcome) -> (r: bool)
    ensures
        r == quiet_ok_spec(*outcome),
{
    match outcome {
        QuietOutcome::NotLaunched { .. } => false,
        QuietOutcome::Finished { success, .. } => *success,
    }
}

/// A result's text, whichever way it went.
pub open spec fn result_view(r: Result<String, String>) -> Result<Seq<char>, Seq<char>> {
    match r {
        Ok(s) => Ok(s@),
        Err(e) => Err(e@),
    }
}

/// The error text for a program that exited unsuccessfully.
pub open spec fn exited_with_spec(c: (Seq<char>, Seq<Seq<char>>), status: Seq<char>) -> Seq<char> {
    c.0 + " "@ + join_spec(c.1, " "@) + " exited with "@ + status
}

/// What a quiet run yields: its standard output as text (invalid UTF-8
/// replaced), trimmed, when it launched and succeeded; otherwise why it
/// could not be launched or how it failed.
pub open spec fn quiet_stdout_spec(c: (Seq<char>, Seq<Seq<char>>), o: QuietOutcome) -> Result<Seq<char>, Seq<char>> {
    match o {
        QuietOutcome::NotLaunched { error } => Err(error@),
        QuietOutcome::Finished { success, status, stdout } => if success {
            Ok(trim_spec(lossy_spec(stdout@)))
        } else {
            Err(exited_with_spec(c, status@))
        },
    }
}

/// The standard output of a quiet run of `command`, trimmed. An error
/// (rather than partial output) if the program could not be launched or
/// exited unsuccessfully.
pub fn run_quiet_stdout(command: &Command, outcome: &QuietOutcome) -> (r: Result<String, String>)
    ensures
        result_view(r) == quiet_stdout_spec(command@, *outcome),
{
    match outcome {
        QuietOutcome::NotLaunched { error } => Err(owned(error.as_str())),
        QuietOutcome::Finished { success, status, stdout } => {
            if *success {
                Ok(trim(lossy_text(stdout.as_slice()).as_str()))
            } else {
                let args = join(command.args.as_slice(), " ");
                let mut e = cat3(command.program.as_str(), " ", args.as_str());
                e.append(" exited with ");
                e.append(status.as_str());
                Err(e)
            }
        },
    }
}

/// How a program run with the terminal attached ended.
pub struct ExitStatusModel {
    /// Its exit code, if it exited.
    pub code: Option<i32>,
    /// The signal that ended it, if one did.
    pub signal: Option<i32>,
}

/// How a run with the terminal attached came out.
pub enum LoudOutcome {
    /// The program could not be started; `error` says why.
    NotLaunched { error: String },
    /// The program ran and ended as `status` says.
    Ended(ExitStatusModel),
}

/// An exit status is a success when the program exited with code 0.
pub open spec fn success_spec(s: ExitStatusModel) -> bool {
    s.code == Some(0i32)
}

/// The low eight bits of an exit code.
pub open spec fn low_byte(c: i32) -> u8 {
    (c as int % 256) as u8
}

/// A process's exit code as the code ppgit exits with: the low eight bits of
/// the code, or failure when there was none.
pub open spec fn status_code_spec(code: Option<i32>) -> u8 {
    match code {
        Some(c) => low_byte(c),
        None => EXIT_FAILURE,
    }
}

/// A process's exit code, if it has one, as the code to exit with —
/// failure if it was killed by a signal instead.
pub fn status_to_exit_code(code: Option<i32>) -> (r: u8)
    ensures
        r == status_code_spec(code),
{
    match code {
        Some(c) => {
            let r = c as u8;
            assert(r as int == c as int % 256) by (bit_vector)
                requires
                    r == c as u8,
            ;
            r
        },
        None => EXIT_FAILURE,
    }
}

/// An exit code, and what to tell the user before exiting with it.
pub struct Exit {
    pub code: u8,
    pub message: Option<String>,
}

/// An optional message, by its characters.
pub open spec fn message_view(m: Option<String>) -> Option<Seq<char>> {
    match m {
        Some(s) => Some(s@),
        None => None,
    }
}

/// The exit for a run that ended as `s`: its own code when it exited,
/// 128 plus the signal when a signal killed it, failure otherwise; the last
/// two are explained, since nothing else would tell the user.
pub open spec fn into_exit_spec(s: ExitStatusModel, program: Seq<char>) -> (u8, Option<Seq<char>>) {
    if success_spec(s) {
        (EXIT_SUCCESS, None)
    } else if s.code is Some {
        (status_code_spec(s.code), None)
    } else if s.signal is Some {
        let sig = s.signal->0;
        (
            (128 + low_byte(sig)) as u8,
            Some("ppgit: "@ + program + " was terminated by signal "@ + signed_decimal(sig as int)),
        )
    } else {
        (
            EXIT_FAILURE,
            Some("ppgit: "@ + program + " terminated abnormally, no exit code available"@),
        )
    }
}

/// The exit code for a run that ended as `status`, with an explanation when
/// it ended without exiting.
pub fn into_exit_code(status: &ExitStatusModel, program: &str) -> (r: Exit)
    requires
        status.code is None && status.signal is Some ==> low_byte(status.signal->0) < 128,
    ensures
        (r.code, message_view(r.message)) == into_exit_spec(*status, program@),
{
    if status.code == Some(0i32) {
        return Exit { code: EXIT_SUCCESS, message: None };
    }
    if status.code.is_some() {
        return Exit { code: status_to_exit_code(status.code), message: None };
    }
    match status.signal {
        Some(sig) => {
            let low = status_to_exit_code(Some(sig));
            let m = cat4("ppgit: ", program, " was terminated by signal ", signed_text(sig as i64).as_str());
            Exit { code: 128 + low, message: Some(m) }
        },
        None => {
            let m = cat3("ppgit: ", program, " terminated abnormally, no exit code available");
            Exit { code: EXIT_FAILURE, message: Some(m) }
        },
    }
}

/// The outcome of a checked run: success, or the exit to give up with —
/// the program's own code when it ran and failed, failure with an
/// explanation when it could not be launched.
pub open spec fn loud_checked_spec(program: Seq<char>, o: LoudOutcome) -> Option<(u8, Option<Seq<char>>)> {
    match o {
        LoudOutcome::NotLaunched { error } => Some(
            (EXIT_FAILURE, Some("ppgit: failed to launch "@ + program + ": "@ + error@)),
        ),
        LoudOutcome::Ended(s) => if success_spec(s) {
            None
        } else {
            Some((status_code_spec(s.code), None))
        },
    }
}

/// An optional exit, by its parts.
pub open spec fn exit_view(r: Result<(), Exit>) -> Option<(u8, Option<Seq<char>>)> {
    match r {
        Ok(()) => None,
        Err(e) => Some((e.code, message_view(e.message))),
    }
}

/// `Ok` only if `program` was launched and exited successfully; any other
/// outcome becomes the exit a top-level command should give up with.
pub fn run_loud_checked(program: &str, outcome: &LoudOutcome) -> (r: Result<(), Exit>)
    ensures
        exit_view(r) == loud_checked_spec(program@, *outcome),
{
    match outcome {
        LoudOutcome::NotLaunched { error } => {
            let m = cat4("ppgit: failed to launch ", program, ": ", error.as_str());
            Err(Exit { code: EXIT_FAILURE, message: Some(m) })
        },
        LoudOutcome::Ended(s) => {
            if s.code == Some(0i32) {
                Ok(())
            } else {
                Err(Exit { code: status_to_exit_code(s.code), message: None })
            }
        },
    }
}

/// A step's result, or the exit to give up with when it failed: failure,
/// saying "ppgit: failed to {context}: {error}".
pub fn io_checked(result: Result<String, String>, context: &str) -> (r: Result<String, Exit>)
    ensures
        match result {
            Ok(t) => r matches Ok(u) && u@ == t@,
            Err(e) => r matches Err(x) && x.code == EXIT_FAILURE && message_view(x.message) == Some(
                "ppgit: failed to "@ + context@ + ": "@ + e@,
            ),
        },
{
    match result {
        Ok(t) => Ok(t),
        Err(e) => Err(Exit { code: EXIT_FAILURE, message: Some(cat4("ppgit: failed to ", context, ": ", e.as_str())) }),
    }
}

/// The exit for the passthrough to git: git's own exit, or failure with an
/// explanation when git could not be launched.
pub open spec fn to_git_spec(o: LoudOutcome) -> (u8, Option<Seq<char>>) {
    match o {
        LoudOutcome::NotLaunched { error } => (
            EXIT_FAILURE,
            Some("ppgit: failed to launch git: "@ + error@),
        ),
        LoudOutcome::Ended(s) => into_exit_spec(s, "git"@),
    }
}

/// The exit for the passthrough to git, given how the run came out.
pub fn to_git(outcome: &LoudOutcome) -> (r: Exit)
    requires
        outcome matches LoudOutcome::Ended(s) ==> (s.code is None && s.signal is Some ==> low_byte(
            s.signal->0,
        ) < 128),
    ensures
        (r.code, message_view(r.message)) == to_git_spec(*outcome),
{
    match outcome {
        LoudOutcome::NotLaunched { error } => Exit {
            code: EXIT_FAILURE,
            message: Some(cat2("ppgit: failed to launch git: ", error.as_str())),
        },
        LoudOutcome::Ended(s) => into_exit_code(s, "git"),
    }
}

} // verus!
