//! Commands as conversations with the outside world.
//!
//! A command that alternates outside work (running programs, touching
//! files) with decisions is a function from the replies received so far to
//! the next action. The caller performs the action, appends the reply, and
//! asks again, until the action is `Finish`.
use vstd::prelude::*;

use crate::exec::{loud_checked_spec, Command, LoudOutcome, QuietOutcome, EXIT_FAILURE};
use crate::text::{string_views, owned, cat4};

verus! {

/// Outside work other than running a program.
pub enum IoStep {
    /// Regenerate both git-dirs' exclude files from `.ppgitignore`
    /// (see `ppgitignore::sync_excludes`); a no-op outside a project.
    SyncExcludes,
    /// The text of a quiet run of `ppgitignore::tracked_listing_command`
    /// (as `exec::run_quiet_stdout` makes of it), or empty outside a
    /// project; read with `ppgitignore::tracked_but_ignored`.
    TrackedListing,
    /// Create `.ppgitignore` with its template, unless it exists.
    CreateTemplate,
    /// The name of the current directory.
    ProjectName,
    /// Make this directory the current one.
    EnterDir(Vec<u8>),
    /// Write a file.
    WriteFile { path: String, contents: String },
    /// Remove a file, ignoring failure.
    RemoveFile(String),
    /// Whether both git-dirs are directories here: `Ok` if so.
    ProjectDirs,
    /// Whether `.ppgitignore` exists here: `Ok` if so.
    ListExists,
}

/// What the caller is to do next.
pub enum Action {
    /// Run a program with the terminal attached; reply `Ended`.
    Loud(Command),
    /// Run git with the terminal attached on arguments given as bytes;
    /// reply `Ended`.
    LoudGit(Vec<Vec<u8>>),
    /// Run a program with its output captured; reply `Output`.
    Quiet(Command),
    /// Print these lines on standard error; reply `Done`.
    Warn(Vec<String>),
    /// Print these lines on standard output; reply `Done`.
    Say(Vec<String>),
    /// Do this; reply `Io`.
    Io(IoStep),
    /// Stop, with this exit code.
    Finish(u8),
}

/// What came of an action.
pub enum Reply {
    Ended(LoudOutcome),
    Output(QuietOutcome),
    /// The outcome of an `Io` step: any text it yields, or the error.
    Io(Result<String, String>),
    Done,
}

/// An I/O step, by its parts.
pub enum IoStepView {
    SyncExcludes,
    TrackedListing,
    CreateTemplate,
    ProjectName,
    EnterDir(Seq<u8>),
    WriteFile(Seq<char>, Seq<char>),
    RemoveFile(Seq<char>),
    ProjectDirs,
    ListExists,
}

/// An action, by its parts.
pub enum ActionView {
    Loud((Seq<char>, Seq<Seq<char>>)),
    LoudGit(Seq<Seq<u8>>),
    Quiet((Seq<char>, Seq<Seq<char>>)),
    Warn(Seq<Seq<char>>),
    Say(Seq<Seq<char>>),
    Io(IoStepView),
    Finish(u8),
}

impl View for IoStep {
    type V = IoStepView;

    open spec fn view(&self) -> IoStepView {
        match self {
            IoStep::SyncExcludes => IoStepView::SyncExcludes,
            IoStep::TrackedListing => IoStepView::TrackedListing,
            IoStep::CreateTemplate => IoStepView::CreateTemplate,
            IoStep::ProjectName => IoStepView::ProjectName,
            IoStep::EnterDir(d) => IoStepView::EnterDir(d@),
            IoStep::WriteFile { path, contents } => IoStepView::WriteFile(path@, contents@),
            IoStep::RemoveFile(p) => IoStepView::RemoveFile(p@),
            IoStep::ProjectDirs => IoStepView::ProjectDirs,
            IoStep::ListExists => IoStepView::ListExists,
        }
    }
}

impl View for Action {
    type V = ActionView;

    open spec fn view(&self) -> ActionView {
        match self {
            Action::Loud(c) => ActionView::Loud(c@),
            Action::LoudGit(a) => ActionView::LoudGit(crate::cli::arg_views(a@)),
            Action::Quiet(c) => ActionView::Quiet(c@),
            Action::Warn(l) => ActionView::Warn(string_views(l@)),
            Action::Say(l) => ActionView::Say(string_views(l@)),
            Action::Io(s) => ActionView::Io(s@),
            Action::Finish(c) => ActionView::Finish(*c),
        }
    }
}

/// What a reply to a run with the terminal attached means for a step that
/// has to succeed: nothing when it did, otherwise the exit to give up with.
/// A reply of another kind counts as a failure.
pub open spec fn loud_exit(program: Seq<char>, r: Reply) -> Option<(u8, Option<Seq<char>>)> {
    match r {
        Reply::Ended(o) => loud_checked_spec(program, o),
        _ => Some((EXIT_FAILURE, None)),
    }
}

/// The text a reply to an `Io` step yields, or its error.
pub open spec fn io_result(r: Reply) -> Result<Seq<char>, Seq<char>> {
    match r {
        Reply::Io(Ok(t)) => Ok(t@),
        Reply::Io(Err(e)) => Err(e@),
        _ => Err(Seq::empty()),
    }
}

/// The text a reply to a quiet run yields (trimmed standard output), or why
/// it yields none.
pub open spec fn quiet_result(c: (Seq<char>, Seq<Seq<char>>), r: Reply) -> Result<Seq<char>, Seq<char>> {
    match r {
        Reply::Output(o) => crate::exec::quiet_stdout_spec(c, o),
        _ => Err(Seq::empty()),
    }
}

/// Whether a reply to a quiet run says it launched and succeeded.
pub open spec fn quiet_ok(r: Reply) -> bool {
    match r {
        Reply::Output(o) => crate::exec::quiet_ok_spec(o),
        _ => false,
    }
}

/// Giving up with `code` after telling the user `message`, if any: the
/// message first (its reply at `k`), then the exit.
pub open spec fn give_up(code: u8, message: Option<Seq<char>>, replies: Seq<Reply>, k: int) -> ActionView {
    match message {
        Some(m) => if k >= replies.len() {
            ActionView::Warn(seq![m])
        } else {
            ActionView::Finish(code)
        },
        None => ActionView::Finish(code),
    }
}

/// Gives up with `code` after telling the user `message`, if any.
pub fn give_up_exec(code: u8, message: Option<String>, replies: &[Reply], k: usize) -> (a: Action)
    ensures
        a@ == give_up(code, crate::exec::message_view(message), replies@, k as int),
{
    match message {
        Some(m) => {
            if k >= replies.len() {
                let l = vec![m];
                assert(string_views(l@) =~= seq![l@[0]@]);
                Action::Warn(l)
            } else {
                Action::Finish(code)
            }
        },
        None => Action::Finish(code),
    }
}

/// The reply to a run with the terminal attached, for a step that has to
/// succeed: `None` when it did, otherwise the exit to give up with.
pub fn loud_exit_exec(program: &str, r: &Reply) -> (e: Option<crate::exec::Exit>)
    ensures
        match e {
            None => loud_exit(program@, *r) is None,
            Some(x) => loud_exit(program@, *r) == Some(
                (x.code, crate::exec::message_view(x.message)),
            ),
        },
{
    match r {
        Reply::Ended(o) => match crate::exec::run_loud_checked(program, o) {
            Ok(()) => None,
            Err(x) => Some(x),
        },
        _ => Some(crate::exec::Exit { code: EXIT_FAILURE, message: None }),
    }
}

/// The text of a reply to an `Io` step, or its error.
pub fn io_result_exec(r: &Reply) -> (t: Result<String, String>)
    ensures
        crate::exec::result_view(t) == io_result(*r),
{
    match r {
        Reply::Io(Ok(t)) => Ok(owned(t.as_str())),
        Reply::Io(Err(e)) => Err(owned(e.as_str())),
        _ => {
            let e = String::new();
            Err(e)
        },
    }
}

/// The text of a reply to a quiet run of `c`, or why there is none.
pub fn quiet_result_exec(c: &Command, r: &Reply) -> (t: Result<String, String>)
    ensures
        crate::exec::result_view(t) == quiet_result(c@, *r),
{
    match r {
        Reply::Output(o) => crate::exec::run_quiet_stdout(c, o),
        _ => {
            let e = String::new();
            Err(e)
        },
    }
}

/// Whether a reply to a quiet run says it launched and succeeded.
pub fn quiet_ok_exec(r: &Reply) -> (b: bool)
    ensures
        b == quiet_ok(*r),
{
    match r {
        Reply::Output(o) => crate::exec::run_quiet_ok(o),
        _ => false,
    }
}

/// The message for a step that failed: "ppgit: failed to {context}: {error}".
pub open spec fn failed_to(context: Seq<char>, error: Seq<char>) -> Seq<char> {
    "ppgit: failed to "@ + context + ": "@ + error
}

/// The message for a step that failed.
pub fn failed_to_exec(context: &str, error: &str) -> (m: String)
    ensures
        m@ == failed_to(context@, error@),
{
    cat4("ppgit: failed to ", context, ": ", error)
}

/// A step that has to succeed: run `c` with the terminal attached (reply at
/// `k`), then carry on from the next reply, or give up as the run says.
pub open spec fn stage_loud(
    c: (Seq<char>, Seq<Seq<char>>),
    replies: Seq<Reply>,
    k: int,
    next: spec_fn(int) -> ActionView,
) -> ActionView {
    if k >= replies.len() {
        ActionView::Loud(c)
    } else {
        match loud_exit(c.0, replies[k]) {
            None => next(k + 1),
            Some((code, message)) => give_up(code, message, replies, k + 1),
        }
    }
}

/// An `Io` step that has to succeed (reply at `k`): carry on with the text
/// it yields, or give up, saying that `context` failed and why.
pub open spec fn stage_io(
    step: IoStepView,
    context: Seq<char>,
    replies: Seq<Reply>,
    k: int,
    next: spec_fn(int, Seq<char>) -> ActionView,
) -> ActionView {
    if k >= replies.len() {
        ActionView::Io(step)
    } else {
        match io_result(replies[k]) {
            Ok(t) => next(k + 1, t),
            Err(e) => give_up(EXIT_FAILURE, Some(failed_to(context, e)), replies, k + 1),
        }
    }
}

/// Confirming that gh is installed and logged in (reply at `k`).
pub open spec fn stage_gh_ready(replies: Seq<Reply>, k: int, next: spec_fn(int) -> ActionView) -> ActionView {
    if k >= replies.len() {
        ActionView::Quiet(crate::gh::auth_status_spec())
    } else if quiet_ok(replies[k]) {
        next(k + 1)
    } else {
        give_up(EXIT_FAILURE, Some(crate::gh::gh_not_ready_message()), replies, k + 1)
    }
}

/// Finding a repository's clone URL: gh's protocol (reply at `k`), then the
/// URL in it (reply at `k + 1`); carry on with the URL, or give up, saying
/// that `context` failed and why.
pub open spec fn stage_url(
    name: Seq<char>,
    context: Seq<char>,
    replies: Seq<Reply>,
    k: int,
    next: spec_fn(int, Seq<char>) -> ActionView,
) -> ActionView {
    if k >= replies.len() {
        ActionView::Quiet(crate::gh::protocol_command_spec())
    } else {
        let c = crate::gh::repo_url_spec(name, quiet_result(crate::gh::protocol_command_spec(), replies[k]));
        if k + 1 >= replies.len() {
            ActionView::Quiet(c)
        } else {
            match quiet_result(c, replies[k + 1]) {
                Ok(url) => next(k + 2, url),
                Err(e) => give_up(EXIT_FAILURE, Some(failed_to(context, e)), replies, k + 2),
            }
        }
    }
}

/// Takes the step `stage_loud(c, replies, k, ..)`: either where to carry on
/// from, or the action the stage comes to whatever follows it.
pub fn loud_step(c: Command, replies: &[Reply], k: usize) -> (r: Result<usize, Action>)
    ensures
        match r {
            Ok(k2) => k2 == k + 1 && k < replies.len() && forall|next: spec_fn(int) -> ActionView|
                #[trigger] stage_loud(c@, replies@, k as int, next) == next(k2 as int),
            Err(a) => forall|next: spec_fn(int) -> ActionView|
                #[trigger] stage_loud(c@, replies@, k as int, next) == a@,
        },
{
    if k >= replies.len() {
        return Err(Action::Loud(c));
    }
    match loud_exit_exec(c.program.as_str(), &replies[k]) {
        None => Ok(k + 1),
        Some(x) => Err(give_up_exec(x.code, x.message, replies, k + 1)),
    }
}

/// Takes the step `stage_io(step, context, replies, k, ..)`.
pub fn io_step(step: IoStep, context: &str, replies: &[Reply], k: usize) -> (r: Result<
    (usize, String),
    Action,
>)
    ensures
        match r {
            Ok((k2, t)) => k2 == k + 1 && k < replies.len() && forall|
                next: spec_fn(int, Seq<char>) -> ActionView,
            |
                #[trigger] stage_io(step@, context@, replies@, k as int, next) == next(k2 as int, t@),
            Err(a) => forall|next: spec_fn(int, Seq<char>) -> ActionView|
                #[trigger] stage_io(step@, context@, replies@, k as int, next) == a@,
        },
{
    if k >= replies.len() {
        return Err(Action::Io(step));
    }
    match crate::exec::io_checked(io_result_exec(&replies[k]), context) {
        Ok(t) => Ok((k + 1, t)),
        Err(x) => Err(give_up_exec(x.code, x.message, replies, k + 1)),
    }
}

/// Takes the step `stage_gh_ready(replies, k, ..)`.
pub fn gh_ready_step(replies: &[Reply], k: usize) -> (r: Result<usize, Action>)
    ensures
        match r {
            Ok(k2) => k2 == k + 1 && k < replies.len() && forall|next: spec_fn(int) -> ActionView|
                #[trigger] stage_gh_ready(replies@, k as int, next) == next(k2 as int),
            Err(a) => forall|next: spec_fn(int) -> ActionView|
                #[trigger] stage_gh_ready(replies@, k as int, next) == a@,
        },
{
    if k >= replies.len() {
        return Err(Action::Quiet(crate::gh::auth_status_command()));
    }
    let ready = match &replies[k] {
        Reply::Output(o) => crate::gh::ensure_gh_ready(o),
        _ => Err(
            crate::exec::Exit {
                code: EXIT_FAILURE,
                message: Some(owned("ppgit: `gh` is not installed or not logged in — run `gh auth login`")),
            },
        ),
    };
    match ready {
        Ok(()) => Ok(k + 1),
        Err(x) => Err(give_up_exec(x.code, x.message, replies, k + 1)),
    }
}

/// Takes the step `stage_url(name, context, replies, k, ..)`.
pub fn url_step(name: &str, context: &str, replies: &[Reply], k: usize) -> (r: Result<
    (usize, String),
    Action,
>)
    ensures
        match r {
            Ok((k2, t)) => k2 == k + 2 && k + 1 < replies.len() && forall|
                next: spec_fn(int, Seq<char>) -> ActionView,
            |
                #[trigger] stage_url(name@, context@, replies@, k as int, next) == next(k2 as int, t@),
            Err(a) => forall|next: spec_fn(int, Seq<char>) -> ActionView|
                #[trigger] stage_url(name@, context@, replies@, k as int, next) == a@,
        },
{
    let protocol = crate::gh::protocol_command();
    if k >= replies.len() {
        return Err(Action::Quiet(protocol));
    }
    let p = quiet_result_exec(&protocol, &replies[k]);
    let c = crate::gh::repo_url(name, &p);
    if k + 1 >= replies.len() {
        return Err(Action::Quiet(c));
    }
    match quiet_result_exec(&c, &replies[k + 1]) {
        Ok(url) => Ok((k + 2, url)),
        Err(e) => Err(give_up_exec(EXIT_FAILURE, Some(failed_to_exec(context, e.as_str())), replies, k + 2)),
    }
}

/// A run of git with the terminal attached on byte arguments that has to
/// succeed (reply at `k`).
pub open spec fn stage_loud_git(
    args: Seq<Seq<u8>>,
    replies: Seq<Reply>,
    k: int,
    next: spec_fn(int) -> ActionView,
) -> ActionView {
    if k >= replies.len() {
        ActionView::LoudGit(args)
    } else {
        match loud_exit("git"@, replies[k]) {
            None => next(k + 1),
            Some((code, message)) => give_up(code, message, replies, k + 1),
        }
    }
}

/// Takes the step `stage_loud_git(args, replies, k, ..)`.
pub fn loud_git_step(args: Vec<Vec<u8>>, replies: &[Reply], k: usize) -> (r: Result<usize, Action>)
    ensures
        match r {
            Ok(k2) => k2 == k + 1 && k < replies.len() && forall|next: spec_fn(int) -> ActionView|
                #[trigger] stage_loud_git(crate::cli::arg_views(args@), replies@, k as int, next)
                    == next(k2 as int),
            Err(a) => forall|next: spec_fn(int) -> ActionView|
                #[trigger] stage_loud_git(crate::cli::arg_views(args@), replies@, k as int, next) == a@,
        },
{
    if k >= replies.len() {
        return Err(Action::LoudGit(args));
    }
    match loud_exit_exec("git", &replies[k]) {
        None => Ok(k + 1),
        Some(x) => Err(give_up_exec(x.code, x.message, replies, k + 1)),
    }
}

/// A quiet run that has to yield text (reply at `k`): carry on with its
/// trimmed output, or give up, saying that `context` failed and why.
pub open spec fn stage_quiet_text(
    c: (Seq<char>, Seq<Seq<char>>),
    context: Seq<char>,
    replies: Seq<Reply>,
    k: int,
    next: spec_fn(int, Seq<char>) -> ActionView,
) -> ActionView {
    if k >= replies.len() {
        ActionView::Quiet(c)
    } else {
        match quiet_result(c, replies[k]) {
            Ok(t) => next(k + 1, t),
            Err(e) => give_up(EXIT_FAILURE, Some(failed_to(context, e)), replies, k + 1),
        }
    }
}

/// Takes the step `stage_quiet_text(c, context, replies, k, ..)`.
pub fn quiet_text_step(c: Command, context: &str, replies: &[Reply], k: usize) -> (r: Result<
    (usize, String),
    Action,
>)
    ensures
        match r {
            Ok((k2, t)) => k2 == k + 1 && k < replies.len() && forall|
                next: spec_fn(int, Seq<char>) -> ActionView,
            |
                #[trigger] stage_quiet_text(c@, context@, replies@, k as int, next) == next(
                    k2 as int,
                    t@,
                ),
            Err(a) => forall|next: spec_fn(int, Seq<char>) -> ActionView|
                #[trigger] stage_quiet_text(c@, context@, replies@, k as int, next) == a@,
        },
{
    if k >= replies.len() {
        return Err(Action::Quiet(c));
    }
    match quiet_result_exec(&c, &replies[k]) {
        Ok(t) => Ok((k + 1, t)),
        Err(e) => Err(give_up_exec(EXIT_FAILURE, Some(failed_to_exec(context, e.as_str())), replies, k + 1)),
    }
}

/// The exit for a passthrough to git, from its reply: git's own exit, or
/// failure when the reply is of another kind.
pub open spec fn git_exit(r: Reply) -> (u8, Option<Seq<char>>) {
    match r {
        Reply::Ended(o) => crate::exec::to_git_spec(o),
        _ => (EXIT_FAILURE, None),
    }
}

/// The exit for a passthrough to git, from its reply.
pub fn git_exit_exec(r: &Reply) -> (x: crate::exec::Exit)
    requires
        r matches Reply::Ended(LoudOutcome::Ended(s)) ==> (s.code is None && s.signal is Some
            ==> crate::exec::low_byte(s.signal->0) < 128),
    ensures
        (x.code, crate::exec::message_view(x.message)) == git_exit(*r),
{
    match r {
        Reply::Ended(o) => crate::exec::to_git(o),
        _ => crate::exec::Exit { code: EXIT_FAILURE, message: None },
    }
}

/// Handing `args` to git as they are, interactively (reply at `k`), and
/// exiting as git did, saying so first when it ended without an exit code.
pub open spec fn stage_git(args: Seq<Seq<u8>>, rs: Seq<Reply>, k: int) -> ActionView {
    if k >= rs.len() {
        ActionView::LoudGit(args)
    } else {
        let (code, message) = git_exit(rs[k]);
        give_up(code, message, rs, k + 1)
    }
}

/// Hands `args` to git (reply at `k`); see `stage_git`.
pub fn git_passthrough(args: Vec<Vec<u8>>, replies: &[Reply], k: usize) -> (a: Action)
    requires
        signals_fit(replies@),
    ensures
        a@ == stage_git(crate::cli::arg_views(args@), replies@, k as int),
{
    if k >= replies.len() {
        return Action::LoudGit(args);
    }
    let x = git_exit_exec(&replies[k]);
    give_up_exec(x.code, x.message, replies, k + 1)
}

/// Every run among the replies that was ended by a signal ended by one whose
/// low byte, added to 128, still fits in an exit code.
pub open spec fn signals_fit(replies: Seq<Reply>) -> bool {
    forall|i: int|
        0 <= i < replies.len() ==> (#[trigger] replies[i] matches Reply::Ended(LoudOutcome::Ended(s))
            ==> (s.code is None && s.signal is Some ==> crate::exec::low_byte(s.signal->0) < 128))
}

/// The replies from `k` on keep the signal bound of all of them.
pub proof fn lemma_signals_fit_skip(rs: Seq<Reply>, k: int)
    requires
        signals_fit(rs),
        0 <= k <= rs.len(),
    ensures
        signals_fit(rs.skip(k)),
{
    assert forall|i: int| 0 <= i < rs.skip(k).len() implies (#[trigger] rs.skip(k)[i] matches Reply::Ended(
        LoudOutcome::Ended(s),
    ) ==> (s.code is None && s.signal is Some ==> crate::exec::low_byte(s.signal->0) < 128)) by {
        assert(rs.skip(k)[i] == rs[k + i]);
    }
}

/// Telling the user `lines` (reply at `k`) and giving up.
pub open spec fn warn_then_fail(lines: Seq<Seq<char>>, rs: Seq<Reply>, k: int) -> ActionView {
    if k >= rs.len() {
        ActionView::Warn(lines)
    } else {
        ActionView::Finish(EXIT_FAILURE)
    }
}

/// Tells the user `lines` (reply at `k`) and gives up.
pub fn warn_then_fail_exec(lines: Vec<String>, replies: &[Reply], k: usize) -> (a: Action)
    ensures
        a@ == warn_then_fail(string_views(lines@), replies@, k as int),
{
    if k >= replies.len() {
        Action::Warn(lines)
    } else {
        Action::Finish(EXIT_FAILURE)
    }
}

} // verus!
