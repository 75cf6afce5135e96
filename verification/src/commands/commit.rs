//! `ppgit commit`: one editor session for both repositories.
use vstd::prelude::*;

use crate::cli::{arg_text, arg_text_spec, arg_views, copy_args, Scope};
use crate::exec::{command, Command, EXIT_FAILURE, EXIT_SUCCESS, PRIVATE_GIT_ARG, WORK_TREE_ARG};
use crate::flow::{git_exit, git_exit_exec, git_passthrough, stage_git, give_up, give_up_exec, signals_fit, warn_then_fail, warn_then_fail_exec, io_result, io_result_exec, quiet_result, quiet_result_exec, Action, ActionView, IoStep, IoStepView, Reply};
use crate::ppgitignore::{PRIVATE_GIT_DIR, PUBLIC_GIT_DIR};
use crate::text::{
    cat2, cat3, chars_eq, chars_of, index_of, index_of_from, owned, starts_with,
    starts_with_spec, string_views,
};

verus! {

/// Kept inside the private git-dir rather than the working tree: that is
/// excluded from both repositories, so a stray message file can never be
/// picked up by a commit or shown by `status`.
pub const MESSAGE_FILE: &'static str = ".ppgit/PPGIT_COMMIT_MSG";

/// A long option that says where the commit message comes from.
pub open spec fn is_message_option(head: Seq<char>) -> bool {
    ||| head == "--message"@
    ||| head == "--file"@
    ||| head == "--reuse-message"@
    ||| head == "--reedit-message"@
    ||| head == "--template"@
    ||| head == "--fixup"@
    ||| head == "--squash"@
    ||| head == "--no-edit"@
}

/// A short option letter that says where the commit message comes from.
pub open spec fn is_message_letter(c: char) -> bool {
    c == 'm' || c == 'F' || c == 'C' || c == 'c' || c == 't'
}

/// Whether an argument says where the commit message comes from: a long
/// option from the list (with or without `=value`), or a cluster of short
/// options holding one of the letters (`-am` is `-a -m`).
pub open spec fn names_message(a: Seq<u8>) -> bool {
    match arg_text_spec(a) {
        Some(t) => if starts_with_spec(t, "--"@) {
            is_message_option(t.take(index_of(t, '=')))
        } else if starts_with_spec(t, "-"@) {
            exists|k: int| 1 <= k < t.len() && is_message_letter(#[trigger] t[k])
        } else {
            false
        },
        None => false,
    }
}

/// The part of an option before its `=`: the option itself, when the
/// option holds no `=`.
proof fn lemma_option_head(o: Seq<char>, v: Seq<char>, with_value: bool)
    requires
        forall|j: int| 0 <= j < o.len() ==> o[j] != '=',
    ensures
        ({
            let t = if with_value {
                o + "="@ + v
            } else {
                o
            };
            t.take(index_of(t, '=')) == o
        }),
{
    reveal_strlit("=");
    let t = if with_value {
        o + "="@ + v
    } else {
        o
    };
    crate::text::lemma_index_of(t, '=');
    let i = index_of(t, '=');
    if i < o.len() {
        assert(t[i] == o[i]);
    }
    if with_value {
        assert(t[o.len() as int] == '=');
    } else {
        assert(!t.contains('='));
    }
    assert(i == o.len());
    assert(t.take(i) =~= o);
}

/// Git opens no editor, and the repositories get the same arguments, when
/// some argument already says where the message comes from: one of
/// `--message`, `--file`, `--reuse-message`, `--reedit-message`,
/// `--template`, `--fixup`, `--squash` and `--no-edit`, alone or with
/// `=value`.
pub proof fn lemma_long_message_options(args: Seq<Seq<u8>>, i: int, o: Seq<char>, v: Seq<char>, with_value: bool)
    requires
        0 <= i < args.len(),
        o == "--message"@ || o == "--file"@ || o == "--reuse-message"@ || o == "--reedit-message"@ || o
            == "--template"@ || o == "--fixup"@ || o == "--squash"@ || o == "--no-edit"@,
        arg_text_spec(args[i]) == Some(
            if with_value {
                o + "="@ + v
            } else {
                o
            },
        ),
    ensures
        !opens_an_editor_spec(args),
{
    reveal_strlit("--message");
    reveal_strlit("--file");
    reveal_strlit("--reuse-message");
    reveal_strlit("--reedit-message");
    reveal_strlit("--template");
    reveal_strlit("--fixup");
    reveal_strlit("--squash");
    reveal_strlit("--no-edit");
    reveal_strlit("--");
    reveal_strlit("=");
    assert forall|j: int| 0 <= j < o.len() implies o[j] != '=' by {}
    lemma_option_head(o, v, with_value);
    let t = if with_value {
        o + "="@ + v
    } else {
        o
    };
    assert(t.take(2) =~= "--"@);
    assert(names_message(args[i]));
}

/// A cluster of short options holding one of `m`, `F`, `C`, `c` and `t`
/// (so `-m`, `-am`, `-F`) also says where the message comes from, and git
/// opens no editor.
pub proof fn lemma_short_message_options(args: Seq<Seq<u8>>, i: int, t: Seq<char>, k: int)
    requires
        0 <= i < args.len(),
        arg_text_spec(args[i]) == Some(t),
        t.len() >= 2,
        t[0] == '-',
        t[1] != '-',
        1 <= k < t.len(),
        t[k] == 'm' || t[k] == 'F' || t[k] == 'C' || t[k] == 'c' || t[k] == 't',
    ensures
        !opens_an_editor_spec(args),
{
    reveal_strlit("--");
    reveal_strlit("-");
    assert(!starts_with_spec(t, "--"@)) by {
        if starts_with_spec(t, "--"@) {
            assert(t.take(2)[1] == t[1]);
        }
    }
    assert(t.take(1) =~= "-"@);
    assert(is_message_letter(t[k]));
    assert(names_message(args[i]));
}

/// Git would open an editor: no argument says where the message comes from.
pub open spec fn opens_an_editor_spec(args: Seq<Seq<u8>>) -> bool {
    forall|i: int| 0 <= i < args.len() ==> !names_message(#[trigger] args[i])
}

fn is_message_option_exec(head: &[char]) -> (r: bool)
    ensures
        r == is_message_option(head@),
{
    let a = chars_of("--message");
    let b = chars_of("--file");
    let c = chars_of("--reuse-message");
    let d = chars_of("--reedit-message");
    let e = chars_of("--template");
    let f = chars_of("--fixup");
    let g = chars_of("--squash");
    let h = chars_of("--no-edit");
    chars_eq(head, a.as_slice()) || chars_eq(head, b.as_slice()) || chars_eq(head, c.as_slice())
        || chars_eq(head, d.as_slice()) || chars_eq(head, e.as_slice()) || chars_eq(
        head,
        f.as_slice(),
    ) || chars_eq(head, g.as_slice()) || chars_eq(head, h.as_slice())
}

fn names_message_exec(a: &[u8]) -> (r: bool)
    ensures
        r == names_message(a@),
{
    match arg_text(a) {
        Some(text) => {
            let t = chars_of(text.as_str());
            let dd = chars_of("--");
            let d = chars_of("-");
            proof {
                reveal_strlit("--");
                reveal_strlit("-");
            }
            if starts_with(t.as_slice(), dd.as_slice()) {
                let stop = index_of_from(t.as_slice(), 0, '=');
                assert(t@.skip(0) =~= t@);
                let mut head: Vec<char> = Vec::new();
                let mut i: usize = 0;
                while i < stop
                    invariant
                        0 <= i <= stop <= t.len(),
                        head@ == t@.take(i as int),
                    decreases stop - i,
                {
                    head.push(t[i]);
                    assert(t@.take(i + 1) =~= t@.take(i as int).push(t@[i as int]));
                    i += 1;
                }
                is_message_option_exec(head.as_slice())
            } else if starts_with(t.as_slice(), d.as_slice()) {
                let mut k: usize = 1;
                while k < t.len()
                    invariant
                        1 <= k <= t.len(),
                        arg_text_spec(a@) == Some(t@),
                        !starts_with_spec(t@, "--"@),
                        starts_with_spec(t@, "-"@),
                        forall|j: int| 1 <= j < k ==> !is_message_letter(#[trigger] t@[j]),
                    decreases t.len() - k,
                {
                    let c = t[k];
                    if c == 'm' || c == 'F' || c == 'C' || c == 'c' || c == 't' {
                        assert(is_message_letter(t@[k as int]));
                        assert(arg_text_spec(a@) == Some(t@));
                        assert(!starts_with_spec(t@, "--"@));
                        assert(exists|j: int| 1 <= j < t@.len() && is_message_letter(#[trigger] t@[j]));
                        return true;
                    }
                    k += 1;
                }
                false
            } else {
                false
            }
        },
        None => false,
    }
}

/// Whether git would open an editor for this commit — whether the user has
/// *not* already said where the message comes from. When they have, both
/// repositories can simply be handed the same arguments.
pub fn opens_an_editor(args: &[Vec<u8>]) -> (r: bool)
    ensures
        r == opens_an_editor_spec(arg_views(args@)),
{
    let mut i: usize = 0;
    while i < args.len()
        invariant
            0 <= i <= args.len(),
            forall|j: int| 0 <= j < i ==> !names_message(#[trigger] arg_views(args@)[j]),
        decreases args.len() - i,
    {
        assert(arg_views(args@)[i as int] == args@[i as int]@);
        if names_message_exec(args[i].as_slice()) {
            return false;
        }
        i += 1;
    }
    true
}

/// How a commit is carried out.
#[derive(PartialEq, Eq, Structural, Debug, Clone, Copy)]
pub enum CommitPlan {
    /// Passed through to the public repository alone.
    Public,
    /// Passed through to the private repository alone.
    Private,
    /// Committed privately with the editor, then publicly with the same
    /// message.
    SharedEditor,
    /// Both repositories handed the same arguments.
    Both,
}

/// How a commit in `scope` is carried out: ordinary passthrough for a single
/// repository; for both, one editor session when git would open an editor,
/// and otherwise the same arguments for each.
pub open spec fn commit_plan_spec(scope: Scope, args: Seq<Seq<u8>>) -> CommitPlan {
    match scope {
        Scope::Public => CommitPlan::Public,
        Scope::Private => CommitPlan::Private,
        Scope::Both => if opens_an_editor_spec(args) {
            CommitPlan::SharedEditor
        } else {
            CommitPlan::Both
        },
    }
}

/// How a commit in `scope` is carried out.
pub fn commit_plan(scope: Scope, args: &[Vec<u8>]) -> (r: CommitPlan)
    ensures
        r == commit_plan_spec(scope, arg_views(args@)),
{
    match scope {
        Scope::Public => CommitPlan::Public,
        Scope::Private => CommitPlan::Private,
        Scope::Both => if opens_an_editor(args) {
            CommitPlan::SharedEditor
        } else {
            CommitPlan::Both
        },
    }
}

/// `git --git-dir=.ppgit log -1 --format=%B`: the message of the private
/// commit just made.
pub fn commit_message_command() -> (c: Command)
    ensures
        c@ == commit_message_spec(),
{
    let c = command(
        "git",
        vec![owned(PRIVATE_GIT_ARG), owned("log"), owned("-1"), owned("--format=%B")],
    );
    assert(string_views(c.args@) =~= seq![PRIVATE_GIT_ARG@, "log"@, "-1"@, "--format=%B"@]);
    c
}

/// The bytes of a text (`str::as_bytes`).
pub fn text_bytes(s: &str) -> (r: Vec<u8>)
    ensures
        r@ == vstd::utf8::encode_utf8(s@),
{
    let b = s.as_bytes();
    let mut r: Vec<u8> = Vec::new();
    let mut i: usize = 0;
    while i < b.len()
        invariant
            0 <= i <= b.len(),
            r@ == b@.take(i as int),
        decreases b.len() - i,
    {
        r.push(b[i]);
        assert(b@.take(i + 1) =~= b@.take(i as int).push(b@[i as int]));
        i += 1;
    }
    assert(b@.take(b.len() as int) =~= b@);
    r
}

/// The arguments for the public commit: the user's, then `-F` and the file
/// holding the private commit's message.
pub open spec fn public_commit_args_spec(args: Seq<Seq<u8>>) -> Seq<Seq<u8>> {
    args + seq![vstd::utf8::encode_utf8("-F"@), vstd::utf8::encode_utf8(MESSAGE_FILE@)]
}

/// The arguments for the public commit.
pub fn public_commit_args(args: &[Vec<u8>]) -> (r: Vec<Vec<u8>>)
    ensures
        arg_views(r@) == public_commit_args_spec(arg_views(args@)),
{
    let mut r: Vec<Vec<u8>> = Vec::new();
    let mut i: usize = 0;
    while i < args.len()
        invariant
            0 <= i <= args.len(),
            arg_views(r@) == arg_views(args@).take(i as int),
        decreases args.len() - i,
    {
        let ghost before = arg_views(r@);
        r.push(args[i].clone());
        assert(arg_views(r@) =~= before.push(args@[i as int]@));
        assert(arg_views(args@).take(i + 1) =~= arg_views(args@).take(i as int).push(
            args@[i as int]@,
        ));
        i += 1;
    }
    let ghost before = arg_views(r@);
    r.push(text_bytes("-F"));
    r.push(text_bytes(MESSAGE_FILE));
    assert(arg_views(args@).take(args.len() as int) =~= arg_views(args@));
    assert(arg_views(r@) =~= public_commit_args_spec(arg_views(args@)));
    r
}

/// The line that says which repository the output below belongs to.
pub open spec fn announce_spec(git_dir: Seq<char>) -> Seq<char> {
    "ppgit: ["@ + git_dir + "]"@
}

/// The line that says which repository the output below belongs to.
pub fn announce(git_dir: &str) -> (r: Vec<String>)
    ensures
        string_views(r@) == seq![announce_spec(git_dir@)],
{
    let r = vec![cat3("ppgit: [", git_dir, "]")];
    assert(string_views(r@) =~= seq![announce_spec(git_dir@)]);
    r
}

/// The arguments that address the private repository over the shared
/// working tree, ahead of the user's own.
pub open spec fn private_prefix() -> Seq<Seq<u8>> {
    seq![vstd::utf8::encode_utf8(PRIVATE_GIT_ARG@), vstd::utf8::encode_utf8(WORK_TREE_ARG@)]
}

/// Arguments for the private repository: the private prefix, then the
/// user's.
pub fn private_args(args: &[Vec<u8>]) -> (r: Vec<Vec<u8>>)
    ensures
        arg_views(r@) == private_prefix() + arg_views(args@),
{
    let mut r: Vec<Vec<u8>> = vec![text_bytes(PRIVATE_GIT_ARG), text_bytes(WORK_TREE_ARG)];
    assert(arg_views(r@) =~= private_prefix());
    let mut i: usize = 0;
    while i < args.len()
        invariant
            0 <= i <= args.len(),
            arg_views(r@) == private_prefix() + arg_views(args@).take(i as int),
        decreases args.len() - i,
    {
        let ghost before = arg_views(r@);
        r.push(args[i].clone());
        assert(arg_views(r@) =~= before.push(args@[i as int]@));
        assert(arg_views(args@).take(i + 1) =~= arg_views(args@).take(i as int).push(
            args@[i as int]@,
        ));
        i += 1;
    }
    assert(arg_views(args@).take(args.len() as int) =~= arg_views(args@));
    r
}

/// What is said after the private commit when its message cannot be carried
/// over, and why.
pub open spec fn carry_failed(what: Seq<char>, e: Seq<char>) -> Seq<Seq<char>> {
    seq![
        "ppgit: committed privately, but could not "@ + what + ": "@ + e,
        "ppgit: commit the public half yourself with the same message"@,
    ]
}

/// Commits to both repositories from a single editor session, given the
/// replies so far: the private (superset) commit goes first and
/// interactively; if it fails, nothing is carried over and its exit is
/// ppgit's. Otherwise its message is read back, written to `MESSAGE_FILE`,
/// and handed to the public commit with `-F`; the file is removed, and the
/// private result alone decides the exit — the public repository having
/// nothing to commit is the normal outcome of a private-only change.
pub open spec fn commit_on_both_spec(args: Seq<Seq<u8>>, rs: Seq<Reply>) -> ActionView {
    if rs.len() == 0 {
        ActionView::Say(seq![announce_spec(PRIVATE_GIT_DIR@)])
    } else if rs.len() == 1 {
        ActionView::LoudGit(private_prefix() + args)
    } else {
        let (code, message) = git_exit(rs[1]);
        match message {
            Some(m) => if rs.len() == 2 {
                ActionView::Warn(seq![m])
            } else {
                after_private(args, code, rs, 3)
            },
            None => after_private(args, code, rs, 2),
        }
    }
}

/// After the private commit: stop on its failure, or carry its message over.
pub open spec fn after_private(args: Seq<Seq<u8>>, code: u8, rs: Seq<Reply>, k: int) -> ActionView {
    if code != EXIT_SUCCESS {
        ActionView::Finish(code)
    } else if k >= rs.len() {
        ActionView::Quiet(commit_message_spec())
    } else {
        match quiet_result(commit_message_spec(), rs[k]) {
            Err(e) => warn_then_fail(carry_failed("read the message back"@, e), rs, k + 1),
            Ok(message) => if k + 1 >= rs.len() {
                ActionView::Io(IoStepView::WriteFile(MESSAGE_FILE@, message))
            } else {
                match io_result(rs[k + 1]) {
                    Err(e) => warn_then_fail(
                        carry_failed("stage the message for reuse"@, e),
                        rs,
                        k + 2,
                    ),
                    Ok(_) => public_commit(args, rs, k + 2),
                }
            },
        }
    }
}

/// The public commit with the carried-over message, then the cleanup.
pub open spec fn public_commit(args: Seq<Seq<u8>>, rs: Seq<Reply>, k: int) -> ActionView {
    if k >= rs.len() {
        ActionView::Say(seq![announce_spec(PUBLIC_GIT_DIR@)])
    } else if k + 1 >= rs.len() {
        ActionView::LoudGit(public_commit_args_spec(args))
    } else {
        let (code, message) = git_exit(rs[k + 1]);
        match message {
            Some(m) => if k + 2 >= rs.len() {
                ActionView::Warn(seq![m])
            } else {
                cleanup(rs, k + 3)
            },
            None => cleanup(rs, k + 2),
        }
    }
}

/// Removing the message file, then exiting as the private commit did.
pub open spec fn cleanup(rs: Seq<Reply>, k: int) -> ActionView {
    if k >= rs.len() {
        ActionView::Io(IoStepView::RemoveFile(MESSAGE_FILE@))
    } else {
        ActionView::Finish(EXIT_SUCCESS)
    }
}

/// The command line of `commit_message_command`.
pub open spec fn commit_message_spec() -> (Seq<char>, Seq<Seq<char>>) {
    ("git"@, seq![PRIVATE_GIT_ARG@, "log"@, "-1"@, "--format=%B"@])
}

fn carry_failed_exec(what: &str, e: &str) -> (r: Vec<String>)
    ensures
        string_views(r@) == carry_failed(what@, e@),
{
    let mut first = cat3("ppgit: committed privately, but could not ", what, ": ");
    first.append(e);
    let r = vec![first, owned("ppgit: commit the public half yourself with the same message")];
    assert(string_views(r@) =~= carry_failed(what@, e@));
    r
}

/// The next action of a commit to both repositories; see
/// `commit_on_both_spec`.
pub fn commit_on_both(args: &[Vec<u8>], replies: &[Reply]) -> (a: Action)
    requires
        signals_fit(replies@),
    ensures
        a@ == commit_on_both_spec(arg_views(args@), replies@),
{
    if replies.len() == 0 {
        return Action::Say(announce(PRIVATE_GIT_DIR));
    }
    if replies.len() == 1 {
        return Action::LoudGit(private_args(args));
    }
    assert(signals_fit(replies@) ==> (replies@[1] matches Reply::Ended(
        crate::exec::LoudOutcome::Ended(s),
    ) ==> (s.code is None && s.signal is Some ==> crate::exec::low_byte(s.signal->0) < 128)));
    let x = git_exit_exec(&replies[1]);
    match x.message {
        Some(m) => if replies.len() == 2 {
            let l = vec![m];
            assert(string_views(l@) =~= seq![l@[0]@]);
            Action::Warn(l)
        } else {
            after_private_exec(args, x.code, replies, 3)
        },
        None => after_private_exec(args, x.code, replies, 2),
    }
}

fn after_private_exec(args: &[Vec<u8>], code: u8, replies: &[Reply], k: usize) -> (a: Action)
    requires
        signals_fit(replies@),
    ensures
        a@ == after_private(arg_views(args@), code, replies@, k as int),
{
    if code != EXIT_SUCCESS {
        return Action::Finish(code);
    }
    let c = commit_message_command();
    if k >= replies.len() {
        return Action::Quiet(c);
    }
    match quiet_result_exec(&c, &replies[k]) {
        Err(e) => warn_then_fail_exec(carry_failed_exec("read the message back", e.as_str()), replies, k + 1),
        Ok(message) => {
            if k + 1 >= replies.len() {
                return Action::Io(IoStep::WriteFile { path: owned(MESSAGE_FILE), contents: message });
            }
            match io_result_exec(&replies[k + 1]) {
                Err(e) => warn_then_fail_exec(
                    carry_failed_exec("stage the message for reuse", e.as_str()),
                    replies,
                    k + 2,
                ),
                Ok(_) => public_commit_exec(args, replies, k + 2),
            }
        },
    }
}

fn public_commit_exec(args: &[Vec<u8>], replies: &[Reply], k: usize) -> (a: Action)
    requires
        signals_fit(replies@),
        k <= replies.len(),
    ensures
        a@ == public_commit(arg_views(args@), replies@, k as int),
{
    if k >= replies.len() {
        return Action::Say(announce(PUBLIC_GIT_DIR));
    }
    if k + 1 >= replies.len() {
        return Action::LoudGit(public_commit_args(args));
    }
    assert(signals_fit(replies@) ==> (replies@[k + 1] matches Reply::Ended(
        crate::exec::LoudOutcome::Ended(s),
    ) ==> (s.code is None && s.signal is Some ==> crate::exec::low_byte(s.signal->0) < 128)));
    let x = git_exit_exec(&replies[k + 1]);
    match x.message {
        Some(m) => if k + 2 >= replies.len() {
            let l = vec![m];
            assert(string_views(l@) =~= seq![l@[0]@]);
            Action::Warn(l)
        } else if k + 3 >= replies.len() {
            Action::Io(IoStep::RemoveFile(owned(MESSAGE_FILE)))
        } else {
            Action::Finish(EXIT_SUCCESS)
        },
        None => if k + 2 >= replies.len() {
            Action::Io(IoStep::RemoveFile(owned(MESSAGE_FILE)))
        } else {
            Action::Finish(EXIT_SUCCESS)
        },
    }
}


/// When the private commit fails, its exit is ppgit's and nothing is
/// carried over to the public half.
pub proof fn lemma_private_failure_decides(args: Seq<Seq<u8>>, rs: Seq<Reply>)
    requires
        rs.len() >= 3,
        git_exit(rs[1]).0 != EXIT_SUCCESS,
    ensures
        commit_on_both_spec(args, rs) == ActionView::Finish(git_exit(rs[1]).0),
{
}

/// The public commit never decides the exit: once the private commit has
/// succeeded and its message was carried over, ppgit exits successfully
/// whatever the public repository made of it — having nothing to commit is
/// its ordinary outcome for a private-only change.
pub proof fn lemma_public_outcome_ignored(args: Seq<Seq<u8>>, rs: Seq<Reply>, k: int)
    ensures
        public_commit(args, rs, k) matches ActionView::Finish(c) ==> c == EXIT_SUCCESS,
{
}


/// A command run against both repositories with the same arguments, given
/// the replies so far: the private (superset) repository first, then the
/// public one, each announced and each interactive; the private result
/// alone decides the exit, since the public repository cannot see every
/// file and having nothing to do there is an ordinary outcome.
pub open spec fn run_on_both_spec(args: Seq<Seq<u8>>, rs: Seq<Reply>) -> ActionView {
    if rs.len() == 0 {
        ActionView::Say(seq![announce_spec(PRIVATE_GIT_DIR@)])
    } else if rs.len() == 1 {
        ActionView::LoudGit(private_prefix() + args)
    } else {
        let (code, message) = git_exit(rs[1]);
        let k: int = if message is Some {
            3
        } else {
            2
        };
        if message is Some && rs.len() == 2 {
            ActionView::Warn(seq![message->0])
        } else if k >= rs.len() {
            ActionView::Say(seq![announce_spec(PUBLIC_GIT_DIR@)])
        } else if k + 1 >= rs.len() {
            ActionView::LoudGit(args)
        } else {
            match git_exit(rs[k + 1]).1 {
                Some(m) => if k + 2 >= rs.len() {
                    ActionView::Warn(seq![m])
                } else {
                    ActionView::Finish(code)
                },
                None => ActionView::Finish(code),
            }
        }
    }
}

/// The next action of a command run against both repositories; see
/// `run_on_both_spec`.
pub fn run_on_both(args: &[Vec<u8>], replies: &[Reply]) -> (a: Action)
    requires
        signals_fit(replies@),
    ensures
        a@ == run_on_both_spec(arg_views(args@), replies@),
{
    if replies.len() == 0 {
        return Action::Say(announce(PRIVATE_GIT_DIR));
    }
    if replies.len() == 1 {
        return Action::LoudGit(private_args(args));
    }
    let x = git_exit_exec(&replies[1]);
    let k: usize = match &x.message {
        Some(_) => 3,
        None => 2,
    };
    match x.message {
        Some(m) => if replies.len() == 2 {
            let l = vec![m];
            assert(string_views(l@) =~= seq![l@[0]@]);
            return Action::Warn(l);
        },
        None => {},
    }
    if k >= replies.len() {
        return Action::Say(announce(PUBLIC_GIT_DIR));
    }
    if k + 1 >= replies.len() {
        return Action::LoudGit(copy_args(args));
    }
    let y = git_exit_exec(&replies[k + 1]);
    match y.message {
        Some(m) => if k + 2 >= replies.len() {
            let l = vec![m];
            assert(string_views(l@) =~= seq![l@[0]@]);
            Action::Warn(l)
        } else {
            Action::Finish(x.code)
        },
        None => Action::Finish(x.code),
    }
}

/// A commit in `scope`, given the replies so far: ordinary passthrough for
/// a single repository (the private one addressed over the shared working
/// tree), and for both either one shared editor session or the same
/// arguments run against each; see `commit_plan_spec`.
pub open spec fn commit_spec(scope: Scope, args: Seq<Seq<u8>>, rs: Seq<Reply>) -> ActionView {
    match commit_plan_spec(scope, args) {
        CommitPlan::Public => stage_git(args, rs, 0),
        CommitPlan::Private => stage_git(private_prefix() + args, rs, 0),
        CommitPlan::SharedEditor => commit_on_both_spec(args, rs),
        CommitPlan::Both => run_on_both_spec(args, rs),
    }
}

/// The next action of a commit in `scope`; see `commit_spec`.
pub fn cmd_commit(scope: Scope, args: &[Vec<u8>], replies: &[Reply]) -> (a: Action)
    requires
        signals_fit(replies@),
    ensures
        a@ == commit_spec(scope, arg_views(args@), replies@),
{
    match commit_plan(scope, args) {
        CommitPlan::Public => git_passthrough(copy_args(args), replies, 0),
        CommitPlan::Private => git_passthrough(private_args(args), replies, 0),
        CommitPlan::SharedEditor => commit_on_both(args, replies),
        CommitPlan::Both => run_on_both(args, replies),
    }
}

/// In a run against both repositories the private result alone decides the
/// exit: whenever the run finishes, it is with the private repository's
/// exit, whatever the public one did.
pub proof fn lemma_dual_run_private_decides(args: Seq<Seq<u8>>, rs: Seq<Reply>)
    ensures
        run_on_both_spec(args, rs) matches ActionView::Finish(c) ==> rs.len() >= 2 && c == git_exit(rs[1]).0,
{
}

} // verus!
