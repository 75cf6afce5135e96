//! The verified core of ppgit, a wrapper around git for projects with a
//! public half and a private half in one working directory.
//!
//! `run` is ppgit's entry point, written as a conversation (see `flow`):
//! given the replies so far, it names the next thing to do.
use vstd::prelude::*;

use crate::cli::{
    arg_is, arg_is_word, arg_views, dual_by_default, explicit_scope, is_branch_command, routed_command, is_push, is_push_spec, recognize, recognize_spec, refusal, refusal_spec, route,
    route_spec, Builtin, Route, RouteView, Scope,
};
use crate::commands::commit::{
    cmd_commit, commit_spec, private_args, private_prefix, run_on_both, run_on_both_spec,
};
use crate::commands::clone::{clone_spec, cmd_clone};
use crate::commands::doctor::{cmd_doctor, doctor_spec};
use crate::commands::init::{init_spec, try_init};
use crate::commands::{cmd_help, cmd_version, help_spec};
use crate::exec::{EXIT_FAILURE, EXIT_SUCCESS};
use crate::flow::{
    git_passthrough, give_up, lemma_signals_fit_skip, stage_git, warn_then_fail, warn_then_fail_exec, give_up_exec, io_result, io_result_exec, signals_fit, Action, ActionView, IoStep,
    Reply,
};
use crate::ppgitignore::{nonempty_lines, tracked_but_ignored, tracked_warning_spec, warn_tracked_but_ignored};
use crate::text::{cat2, owned, string_views};

pub mod cli;
pub mod commands;
pub mod exec;
pub mod flow;
pub mod gh;
pub mod ppgitignore;
pub mod text;

verus! {

/// What the command line asks for, once the exclude files are in order (the
/// replies from `k` on): a builtin — `clone` and `doctor` taking those
/// replies as their own — or a git command, sent where `routed_spec` says.
pub open spec fn dispatch_spec(
    args: Seq<Seq<u8>>,
    version: Seq<char>,
    repository: Seq<char>,
    rs: Seq<Reply>,
    k: int,
) -> ActionView {
    match recognize_spec(args) {
        Some(Builtin::Help) => if k >= rs.len() {
            ActionView::Say(seq![help_spec(version, repository)])
        } else {
            ActionView::Finish(EXIT_SUCCESS)
        },
        Some(Builtin::Version) => if k >= rs.len() {
            ActionView::Say(seq!["ppgit "@ + version])
        } else {
            ActionView::Finish(EXIT_SUCCESS)
        },
        Some(Builtin::Init) => init_spec(rs, k),
        Some(Builtin::Clone) => clone_spec(args.skip(1), rs.skip(k)),
        Some(Builtin::Doctor) => doctor_spec(args, rs.skip(k)),
        None => routed_spec(args, rs, k),
    }
}

/// A command line that is not a builtin, from the reply at `k`, sent where
/// `route_spec` says: a refused branch command is refused with failure; a
/// `commit` is carried out as `commit_spec` says for its scope; anything
/// else is handed to git — as it is for the public repository, behind the
/// private prefix for the private one, and to both in turn, the private
/// one deciding the exit, for both.
pub open spec fn routed_spec(args: Seq<Seq<u8>>, rs: Seq<Reply>, k: int) -> ActionView {
    match route_spec(args) {
        RouteView::Refuse(cmd) => warn_then_fail(seq![refusal_spec(cmd)], rs, k),
        RouteView::Run(scope, rest) => if rest.len() > 0 && arg_is(rest[0], "commit"@) {
            commit_spec(scope, rest, rs.skip(k))
        } else {
            match scope {
                Scope::Public => stage_git(rest, rs, k),
                Scope::Private => stage_git(private_prefix() + rest, rs, k),
                Scope::Both => run_on_both_spec(rest, rs.skip(k)),
            }
        },
    }
}

/// A whole run of ppgit, given the replies so far. Before anything else the
/// exclude files are synced, so an edit to `.ppgitignore` takes effect on
/// the very next command; failing that is fatal, since a `git add` could
/// then leak private paths. Then files still tracked publicly despite the
/// list are warned about, and a `push` is refused while there are any; a
/// failure to check only costs a warning. Then the command runs.
pub open spec fn run_spec(args: Seq<Seq<u8>>, version: Seq<char>, repository: Seq<char>, rs: Seq<Reply>) -> ActionView {
    if rs.len() == 0 {
        ActionView::Io(crate::flow::IoStepView::SyncExcludes)
    } else {
        match io_result(rs[0]) {
            Err(e) => give_up(
                EXIT_FAILURE,
                Some("ppgit: failed to sync exclude files: "@ + e),
                rs,
                1,
            ),
            Ok(_) => if rs.len() == 1 {
                ActionView::Io(crate::flow::IoStepView::TrackedListing)
            } else {
                match io_result(rs[1]) {
                    Ok(listing) => {
                        let conflicts = nonempty_lines(listing);
                        if conflicts.len() == 0 {
                            dispatch_spec(args, version, repository, rs, 2)
                        } else if rs.len() == 2 {
                            ActionView::Warn(tracked_warning_spec(conflicts))
                        } else if is_push_spec(args) {
                            give_up(
                                EXIT_FAILURE,
                                Some("ppgit: refusing to push until the above is resolved"@),
                                rs,
                                3,
                            )
                        } else {
                            dispatch_spec(args, version, repository, rs, 3)
                        }
                    },
                    Err(e) => if rs.len() == 2 {
                        ActionView::Warn(
                            seq![
                                "ppgit: warning: could not check for .ppgitignore conflicts: "@ + e,
                            ],
                        )
                    } else {
                        dispatch_spec(args, version, repository, rs, 3)
                    },
                }
            },
        }
    }
}

/// Sends a command line that is not a builtin where it goes; see
/// `routed_spec`.
fn routed(args: &[Vec<u8>], replies: &[Reply], k: usize) -> (a: Action)
    requires
        signals_fit(replies@),
        k <= replies.len(),
    ensures
        a@ == routed_spec(arg_views(args@), replies@, k as int),
{
    match route(args) {
        Route::Refuse(cmd) => {
            let l = vec![refusal(cmd.as_str())];
            assert(string_views(l@) =~= seq![refusal_spec(cmd@)]);
            warn_then_fail_exec(l, replies, k)
        },
        Route::Run(scope, rest) => {
            let rs = vstd::slice::slice_subrange(replies, k, replies.len());
            assert(rs@ =~= replies@.skip(k as int));
            proof {
                lemma_signals_fit_skip(replies@, k as int);
            }
            let is_commit = rest.len() > 0 && arg_is_word(rest[0].as_slice(), "commit");
            assert(rest.len() > 0 ==> arg_views(rest@)[0] == rest@[0]@);
            if is_commit {
                cmd_commit(scope, rest.as_slice(), rs)
            } else {
                match scope {
                    Scope::Public => git_passthrough(rest, replies, k),
                    Scope::Private => git_passthrough(private_args(rest.as_slice()), replies, k),
                    Scope::Both => run_on_both(rest.as_slice(), rs),
                }
            }
        },
    }
}

/// Runs what the command line asks for.
fn dispatch(args: &[Vec<u8>], version: &str, repository: &str, replies: &[Reply], k: usize) -> (a:
    Action)
    requires
        signals_fit(replies@),
        k <= replies.len(),
    ensures
        a@ == dispatch_spec(arg_views(args@), version@, repository@, replies@, k as int),
{
    match recognize(args) {
        Some(Builtin::Help) => if k >= replies.len() {
            let l = vec![cmd_help(version, repository)];
            assert(string_views(l@) =~= seq![help_spec(version@, repository@)]);
            Action::Say(l)
        } else {
            Action::Finish(EXIT_SUCCESS)
        },
        Some(Builtin::Version) => if k >= replies.len() {
            let l = vec![cmd_version(version)];
            assert(string_views(l@) =~= seq!["ppgit "@ + version@]);
            Action::Say(l)
        } else {
            Action::Finish(EXIT_SUCCESS)
        },
        Some(Builtin::Init) => try_init(replies, k),
        Some(Builtin::Clone) => {
            let rest = vstd::slice::slice_subrange(replies, k, replies.len());
            assert(rest@ =~= replies@.skip(k as int));
            cmd_clone(args, rest)
        },
        Some(Builtin::Doctor) => {
            let rest = vstd::slice::slice_subrange(replies, k, replies.len());
            assert(rest@ =~= replies@.skip(k as int));
            cmd_doctor(args, rest)
        },
        None => routed(args, replies, k),
    }
}

/// The next action of a whole run of ppgit; see `run_spec`. `version` and
/// `repository` are what the help text names.
pub fn run(args: &[Vec<u8>], version: &str, repository: &str, replies: &[Reply]) -> (a: Action)
    requires
        signals_fit(replies@),
    ensures
        a@ == run_spec(arg_views(args@), version@, repository@, replies@),
{
    if replies.len() == 0 {
        return Action::Io(IoStep::SyncExcludes);
    }
    match io_result_exec(&replies[0]) {
        Err(e) => {
            let m = cat2("ppgit: failed to sync exclude files: ", e.as_str());
            give_up_exec(EXIT_FAILURE, Some(m), replies, 1)
        },
        Ok(_) => {
            if replies.len() == 1 {
                return Action::Io(IoStep::TrackedListing);
            }
            match io_result_exec(&replies[1]) {
                Ok(listing) => {
                    let conflicts = tracked_but_ignored(listing.as_str());
                    if conflicts.len() == 0 {
                        dispatch(args, version, repository, replies, 2)
                    } else if replies.len() == 2 {
                        Action::Warn(warn_tracked_but_ignored(conflicts.as_slice()))
                    } else if is_push(args) {
                        let m = owned("ppgit: refusing to push until the above is resolved");
                        give_up_exec(EXIT_FAILURE, Some(m), replies, 3)
                    } else {
                        dispatch(args, version, repository, replies, 3)
                    }
                },
                Err(e) => {
                    if replies.len() == 2 {
                        let l = vec![
                            cat2("ppgit: warning: could not check for .ppgitignore conflicts: ", e.as_str()),
                        ];
                        assert(string_views(l@) =~= seq![
                            "ppgit: warning: could not check for .ppgitignore conflicts: "@ + e@,
                        ]);
                        Action::Warn(l)
                    } else {
                        dispatch(args, version, repository, replies, 3)
                    }
                },
            }
        },
    }
}


/// While files listed as private are still tracked publicly, a push is
/// refused: git is never run, and ppgit gives up with failure after saying
/// why.
pub proof fn lemma_push_refused(args: Seq<Seq<u8>>, version: Seq<char>, repository: Seq<char>, rs: Seq<Reply>)
    requires
        is_push_spec(args),
        rs.len() >= 3,
        io_result(rs[0]) is Ok,
        io_result(rs[1]) matches Ok(listing) && nonempty_lines(listing).len() > 0,
    ensures
        run_spec(args, version, repository, rs) == give_up(
            EXIT_FAILURE,
            Some("ppgit: refusing to push until the above is resolved"@),
            rs,
            3,
        ),
        !(run_spec(args, version, repository, rs) is LoudGit),
{
}


/// A command that describes history goes to the public repository alone,
/// as it is: a bare `ppgit log` does what a bare `git log` would.
pub proof fn lemma_history_goes_public(args: Seq<Seq<u8>>, rs: Seq<Reply>, k: int)
    requires
        explicit_scope(args) is None,
        routed_command(args) matches Some(c) && !dual_by_default(c) && !is_branch_command(c) && c
            != "checkout"@,
    ensures
        routed_spec(args, rs, k) == stage_git(args, rs, k),
{
}

} // verus!
