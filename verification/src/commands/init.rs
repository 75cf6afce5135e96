//! `ppgit init`: setting up both halves, locally and on GitHub.
//!
//! Every step is safe to run more than once: nothing that already exists
//! is recreated or duplicated.
use vstd::prelude::*;

use crate::exec::{command, success_spec, Command, LoudOutcome, EXIT_SUCCESS, PRIVATE_GIT_ARG, WORK_TREE_ARG};
use crate::flow::{
    gh_ready_step, io_result, io_step, loud_step, quiet_ok, quiet_result, quiet_ok_exec, stage_gh_ready, stage_io,
    stage_loud, stage_url, url_step, Action, ActionView, IoStep, IoStepView, Reply,
};
use crate::ppgitignore::{PRIVATE_GIT_DIR, PUBLIC_GIT_DIR};
use crate::text::{cat2, owned, string_views};

verus! {

/// What a new `.ppgitignore` holds.
pub const PPGITIGNORE_TEMPLATE: &'static str = "# List the files or directories below that should be excluded from the\n# public repository and kept only in the private one.\n";

/// The arguments that point git at one repository: none for the public one
/// (plain `.git`), `--git-dir=.ppgit` for the private one.
pub open spec fn git_dir_args(private: bool) -> Seq<Seq<char>> {
    if private {
        seq![PRIVATE_GIT_ARG@]
    } else {
        seq![]
    }
}

/// A git command line against one repository.
pub fn git_command(private: bool, args: Vec<String>) -> (c: Command)
    ensures
        c@ == ("git"@, git_dir_args(private) + string_views(args@)),
{
    let mut full: Vec<String> = Vec::new();
    if private {
        full.push(owned(PRIVATE_GIT_ARG));
    }
    assert(string_views(full@) =~= git_dir_args(private));
    crate::text::extend_strings(&mut full, args);
    command("git", full)
}

/// The command line of `ensure_auto_upstream`.
pub open spec fn auto_upstream_spec(private: bool) -> (Seq<char>, Seq<Seq<char>>) {
    ("git"@, git_dir_args(private) + seq!["config"@, "push.autoSetupRemote"@, "true"@])
}

/// Spares the user a `--set-upstream` on the first push of every branch:
/// `git [<git-dir>] config push.autoSetupRemote true`. Both repositories
/// have exactly one remote each, so what a new branch tracks is never in
/// doubt.
pub fn ensure_auto_upstream(private: bool) -> (c: Command)
    ensures
        c@ == auto_upstream_spec(private),
{
    let args = vec![owned("config"), owned("push.autoSetupRemote"), owned("true")];
    assert(string_views(args@) =~= seq!["config"@, "push.autoSetupRemote"@, "true"@]);
    git_command(private, args)
}

/// Creating the GitHub repository `name` unless it already exists: look it
/// up (reply at `k`), and only if that fails, create it.
pub open spec fn stage_repo(
    name: Seq<char>,
    private: bool,
    replies: Seq<Reply>,
    k: int,
    next: spec_fn(int) -> ActionView,
) -> ActionView {
    if k >= replies.len() {
        ActionView::Quiet(crate::gh::repo_view_spec(name))
    } else if quiet_ok(replies[k]) {
        next(k + 1)
    } else {
        stage_loud(crate::gh::repo_create_spec(name, private), replies, k + 1, next)
    }
}

/// Takes the step `stage_repo(name, private, replies, k, ..)`.
pub fn ensure_repo(name: &str, private: bool, replies: &[Reply], k: usize) -> (r: Result<usize, Action>)
    ensures
        match r {
            Ok(k2) => k < k2 <= replies.len() && forall|next: spec_fn(int) -> ActionView|
                #[trigger] stage_repo(name@, private, replies@, k as int, next) == next(k2 as int),
            Err(a) => forall|next: spec_fn(int) -> ActionView|
                #[trigger] stage_repo(name@, private, replies@, k as int, next) == a@,
        },
{
    if k >= replies.len() {
        return Err(Action::Quiet(crate::gh::repo_view_command(name)));
    }
    let exists = match &replies[k] {
        Reply::Output(o) => crate::gh::repo_exists(o),
        _ => false,
    };
    if exists {
        return Ok(k + 1);
    }
    loud_step(crate::gh::repo_create(name, private), replies, k + 1)
}

/// The command line that asks whether a repository has an `origin`.
pub open spec fn get_url_spec(private: bool) -> (Seq<char>, Seq<Seq<char>>) {
    ("git"@, git_dir_args(private) + seq!["remote"@, "get-url"@, "origin"@])
}

/// The command line that adds an `origin`.
pub open spec fn add_remote_spec(private: bool, url: Seq<char>) -> (Seq<char>, Seq<Seq<char>>) {
    ("git"@, git_dir_args(private) + seq!["remote"@, "add"@, "origin"@, url])
}

/// Pointing `origin` at `url` unless it is already configured: ask (reply
/// at `k`), and only if there is none, add it.
pub open spec fn stage_remote(
    private: bool,
    url: Seq<char>,
    replies: Seq<Reply>,
    k: int,
    next: spec_fn(int) -> ActionView,
) -> ActionView {
    if k >= replies.len() {
        ActionView::Quiet(get_url_spec(private))
    } else if quiet_ok(replies[k]) {
        next(k + 1)
    } else {
        stage_loud(add_remote_spec(private, url), replies, k + 1, next)
    }
}

/// Takes the step `stage_remote(private, url, replies, k, ..)`.
pub fn ensure_remote(private: bool, url: &str, replies: &[Reply], k: usize) -> (r: Result<usize, Action>)
    ensures
        match r {
            Ok(k2) => k < k2 <= replies.len() && forall|next: spec_fn(int) -> ActionView|
                #[trigger] stage_remote(private, url@, replies@, k as int, next) == next(k2 as int),
            Err(a) => forall|next: spec_fn(int) -> ActionView|
                #[trigger] stage_remote(private, url@, replies@, k as int, next) == a@,
        },
{
    if k >= replies.len() {
        let args = vec![owned("remote"), owned("get-url"), owned("origin")];
        assert(string_views(args@) =~= seq!["remote"@, "get-url"@, "origin"@]);
        return Err(Action::Quiet(git_command(private, args)));
    }
    if quiet_ok_exec(&replies[k]) {
        return Ok(k + 1);
    }
    let args = vec![owned("remote"), owned("add"), owned("origin"), owned(url)];
    assert(string_views(args@) =~= seq!["remote"@, "add"@, "origin"@, url@]);
    loud_step(git_command(private, args), replies, k + 1)
}

/// The whole of `ppgit init`, given the replies from `k0` on: `git init`; the
/// `.ppgitignore` template; the private git-dir (see `stage_private`); the
/// exclude files; the auto-upstream setting in both; then, named after the
/// current directory, the public repository and its `pp-` private
/// counterpart on GitHub, and each git-dir's `origin` pointed at the right
/// one. The first step that fails ends it.
pub open spec fn init_spec(rs: Seq<Reply>, k0: int) -> ActionView {
    stage_loud(
        ("git"@, seq!["init"@]),
        rs,
        k0,
        |k1: int|
            stage_io(
                IoStepView::CreateTemplate,
                "create .ppgitignore"@,
                rs,
                k1,
                |k2: int, t: Seq<char>| stage_private(rs, k2, |k3: int| init_local(rs, k3)),
            ),
    )
}

/// `git --git-dir=.ppgit rev-parse --git-dir`: whether the private git-dir
/// is already a repository.
pub open spec fn private_exists_spec() -> (Seq<char>, Seq<Seq<char>>) {
    ("git"@, seq![PRIVATE_GIT_ARG@, "rev-parse"@, "--git-dir"@])
}

/// `git rev-parse --verify --quiet HEAD`: whether the public repository
/// already has history.
pub open spec fn public_history_spec() -> (Seq<char>, Seq<Seq<char>>) {
    ("git"@, seq!["rev-parse"@, "--verify"@, "--quiet"@, "HEAD"@])
}

/// `git init --bare .ppgit`: an empty private git-dir (or, where there is
/// one, the same one reinitialised).
pub open spec fn bare_init_spec() -> (Seq<char>, Seq<Seq<char>>) {
    ("git"@, seq!["init"@, "--bare"@, PRIVATE_GIT_DIR@])
}

/// `git clone --bare --quiet .git .ppgit`: the private git-dir as a copy of
/// the public history.
pub open spec fn bare_clone_spec() -> (Seq<char>, Seq<Seq<char>>) {
    ("git"@, seq!["clone"@, "--bare"@, "--quiet"@, PUBLIC_GIT_DIR@, PRIVATE_GIT_DIR@])
}

/// `git --git-dir=.ppgit remote remove origin`: the clone's `origin` points
/// at `.git`; the private half's own `origin` is set further on.
pub open spec fn drop_origin_spec() -> (Seq<char>, Seq<Seq<char>>) {
    ("git"@, seq![PRIVATE_GIT_ARG@, "remote"@, "remove"@, "origin"@])
}

/// `git --git-dir=.ppgit --work-tree=. reset --quiet`: an index for the
/// private half from its HEAD, leaving the working tree as it is, so that
/// the files the public history tracks do not read as deleted.
pub open spec fn private_index_spec() -> (Seq<char>, Seq<Seq<char>>) {
    ("git"@, seq![PRIVATE_GIT_ARG@, WORK_TREE_ARG@, "reset"@, "--quiet"@])
}

/// The private git-dir, from the reply at `k` on. Where it already is a
/// repository it is only reinitialised. Otherwise, in a project whose public
/// repository already has history, the private half starts as a bare clone
/// of that history — so the two share an ancestry — with the clone's
/// `origin` removed and an index made; in a new project it starts empty.
pub open spec fn stage_private(rs: Seq<Reply>, k: int, next: spec_fn(int) -> ActionView) -> ActionView {
    if k >= rs.len() {
        ActionView::Quiet(private_exists_spec())
    } else if quiet_ok(rs[k]) {
        stage_loud(bare_init_spec(), rs, k + 1, next)
    } else if k + 1 >= rs.len() {
        ActionView::Quiet(public_history_spec())
    } else if quiet_ok(rs[k + 1]) {
        stage_loud(
            bare_clone_spec(),
            rs,
            k + 2,
            |k1: int|
                stage_loud(
                    drop_origin_spec(),
                    rs,
                    k1,
                    |k2: int| stage_loud(private_index_spec(), rs, k2, next),
                ),
        )
    } else {
        stage_loud(bare_init_spec(), rs, k + 2, next)
    }
}

/// Takes the step `stage_private(replies, k, ..)`.
pub fn private_step(replies: &[Reply], k: usize) -> (r: Result<usize, Action>)
    ensures
        match r {
            Ok(k2) => k < k2 <= replies.len() && forall|next: spec_fn(int) -> ActionView|
                #[trigger] stage_private(replies@, k as int, next) == next(k2 as int),
            Err(a) => forall|next: spec_fn(int) -> ActionView|
                #[trigger] stage_private(replies@, k as int, next) == a@,
        },
{
    let exists = command("git", vec![owned(PRIVATE_GIT_ARG), owned("rev-parse"), owned("--git-dir")]);
    assert(string_views(exists.args@) =~= private_exists_spec().1);
    if k >= replies.len() {
        return Err(Action::Quiet(exists));
    }
    let bare = command("git", vec![owned("init"), owned("--bare"), owned(PRIVATE_GIT_DIR)]);
    assert(string_views(bare.args@) =~= bare_init_spec().1);
    if quiet_ok_exec(&replies[k]) {
        return loud_step(bare, replies, k + 1);
    }
    let history = command("git", vec![owned("rev-parse"), owned("--verify"), owned("--quiet"), owned("HEAD")]);
    assert(string_views(history.args@) =~= public_history_spec().1);
    if k + 1 >= replies.len() {
        return Err(Action::Quiet(history));
    }
    if !quiet_ok_exec(&replies[k + 1]) {
        return loud_step(bare, replies, k + 2);
    }
    let clone = command(
        "git",
        vec![owned("clone"), owned("--bare"), owned("--quiet"), owned(PUBLIC_GIT_DIR), owned(PRIVATE_GIT_DIR)],
    );
    assert(string_views(clone.args@) =~= bare_clone_spec().1);
    let k1 = loud_step(clone, replies, k + 2)?;
    let drop = command("git", vec![owned(PRIVATE_GIT_ARG), owned("remote"), owned("remove"), owned("origin")]);
    assert(string_views(drop.args@) =~= drop_origin_spec().1);
    let k2 = loud_step(drop, replies, k1)?;
    let index = command("git", vec![owned(PRIVATE_GIT_ARG), owned(WORK_TREE_ARG), owned("reset"), owned("--quiet")]);
    assert(string_views(index.args@) =~= private_index_spec().1);
    loud_step(index, replies, k2)
}

/// `ppgit init` from syncing the exclude files on.
pub open spec fn init_local(rs: Seq<Reply>, k3: int) -> ActionView {
    stage_io(
        IoStepView::SyncExcludes,
        "sync exclude files"@,
        rs,
        k3,
        |k4: int, u: Seq<char>|
            stage_loud(
                auto_upstream_spec(false),
                rs,
                k4,
                |k5: int| stage_loud(auto_upstream_spec(true), rs, k5, |k6: int| init_rest(rs, k6)),
            ),
    )
}

/// `ppgit init` from naming the project on.
pub open spec fn init_rest(rs: Seq<Reply>, k6: int) -> ActionView {
    stage_io(
        IoStepView::ProjectName,
        "determine project name"@,
        rs,
        k6,
        |k7: int, name: Seq<char>|
            stage_gh_ready(
                rs,
                k7,
                |k8: int|
                    stage_repo(
                        name,
                        false,
                        rs,
                        k8,
                        |k9: int|
                            stage_repo("pp-"@ + name, true, rs, k9, |k10: int| init_remotes(rs, k10, name)),
                    ),
            ),
    )
}

/// `ppgit init` from finding the repositories' URLs on.
pub open spec fn init_remotes(rs: Seq<Reply>, k10: int, name: Seq<char>) -> ActionView {
    stage_url(
        name,
        "get public repo URL"@,
        rs,
        k10,
        |k11: int, public_url: Seq<char>|
            stage_url(
                "pp-"@ + name,
                "get private repo URL"@,
                rs,
                k11,
                |k12: int, private_url: Seq<char>|
                    stage_remote(
                        false,
                        public_url,
                        rs,
                        k12,
                        |k13: int|
                            stage_remote(true, private_url, rs, k13, |k14: int| ActionView::Finish(EXIT_SUCCESS)),
                    ),
            ),
    )
}

/// The next action of `ppgit init`, given its replies so far; see
/// `init_spec`.
pub fn cmd_init(replies: &[Reply]) -> (a: Action)
    ensures
        a@ == init_spec(replies@, 0),
{
    try_init(replies, 0)
}

/// The next action of `ppgit init`, given the replies from `k0` on; see
/// `init_spec`.
#[verifier::rlimit(30)]
pub fn try_init(replies: &[Reply], k0: usize) -> (a: Action)
    ensures
        a@ == init_spec(replies@, k0 as int),
{
    let init = command("git", vec![owned("init")]);
    assert(init@ == ("git"@, seq!["init"@]));
    let k1 = match loud_step(init, replies, k0) {
        Ok(k) => k,
        Err(a) => return a,
    };
    let (k2, _t) = match io_step(IoStep::CreateTemplate, "create .ppgitignore", replies, k1) {
        Ok(x) => x,
        Err(a) => return a,
    };
    let k3 = match private_step(replies, k2) {
        Ok(k) => k,
        Err(a) => return a,
    };
    init_local_exec(replies, k3)
}

fn init_local_exec(replies: &[Reply], k3: usize) -> (a: Action)
    ensures
        a@ == init_local(replies@, k3 as int),
{
    let (k4, _u) = match io_step(IoStep::SyncExcludes, "sync exclude files", replies, k3) {
        Ok(x) => x,
        Err(a) => return a,
    };
    let k5 = match loud_step(ensure_auto_upstream(false), replies, k4) {
        Ok(k) => k,
        Err(a) => return a,
    };
    let k6 = match loud_step(ensure_auto_upstream(true), replies, k5) {
        Ok(k) => k,
        Err(a) => return a,
    };
    init_rest_exec(replies, k6)
}

fn init_rest_exec(replies: &[Reply], k6: usize) -> (a: Action)
    ensures
        a@ == init_rest(replies@, k6 as int),
{
    let (k7, name) = match io_step(IoStep::ProjectName, "determine project name", replies, k6) {
        Ok(x) => x,
        Err(a) => return a,
    };
    let k8 = match gh_ready_step(replies, k7) {
        Ok(k) => k,
        Err(a) => return a,
    };
    let k9 = match ensure_repo(name.as_str(), false, replies, k8) {
        Ok(k) => k,
        Err(a) => return a,
    };
    let private_name = cat2("pp-", name.as_str());
    let k10 = match ensure_repo(private_name.as_str(), true, replies, k9) {
        Ok(k) => k,
        Err(a) => return a,
    };
    init_remotes_exec(replies, k10, name.as_str())
}

fn init_remotes_exec(replies: &[Reply], k10: usize, name: &str) -> (a: Action)
    ensures
        a@ == init_remotes(replies@, k10 as int, name@),
{
    let (k11, public_url) = match url_step(name, "get public repo URL", replies, k10) {
        Ok(x) => x,
        Err(a) => return a,
    };
    let private_name = cat2("pp-", name);
    let (k12, private_url) = match url_step(private_name.as_str(), "get private repo URL", replies, k11) {
        Ok(x) => x,
        Err(a) => return a,
    };
    let k13 = match ensure_remote(false, public_url.as_str(), replies, k12) {
        Ok(k) => k,
        Err(a) => return a,
    };
    match ensure_remote(true, private_url.as_str(), replies, k13) {
        Ok(_) => Action::Finish(EXIT_SUCCESS),
        Err(a) => a,
    }
}


/// Running `init` again creates nothing on GitHub that is already there: a
/// repository that the lookup finds is not created a second time.
pub proof fn lemma_existing_repo_kept(
    name: Seq<char>,
    private: bool,
    rs: Seq<Reply>,
    k: int,
    next: spec_fn(int) -> ActionView,
)
    requires
        0 <= k < rs.len(),
        quiet_ok(rs[k]),
    ensures
        stage_repo(name, private, rs, k, next) == next(k + 1),
{
}

/// Running `init` again leaves an `origin` that is already configured as it
/// is, whatever it points at.
pub proof fn lemma_existing_remote_kept(
    private: bool,
    url: Seq<char>,
    rs: Seq<Reply>,
    k: int,
    next: spec_fn(int) -> ActionView,
)
    requires
        0 <= k < rs.len(),
        quiet_ok(rs[k]),
    ensures
        stage_remote(private, url, rs, k, next) == next(k + 1),
{
}


/// How an already-initialised project answers the `i`th step of `init`:
/// every git run succeeds (`git init` only reinitialises), every file step
/// succeeds (the template is left as it is, the exclude files already hold
/// their blocks), and every query succeeds — the private git-dir is a
/// repository, gh is ready, both repositories exist, gh names their URLs,
/// and both `origin`s are set.
pub open spec fn initialised_answer(i: int, r: Reply) -> bool {
    if i == 0 || i == 3 || i == 5 || i == 6 {
        r matches Reply::Ended(LoudOutcome::Ended(s)) && success_spec(s)
    } else if i == 1 || i == 4 || i == 7 {
        r matches Reply::Io(Ok(_))
    } else {
        quiet_ok(r)
    }
}

/// The project name an `init` run read (its eighth reply).
pub open spec fn name_read(rs: Seq<Reply>) -> Seq<char> {
    match io_result(rs[7]) {
        Ok(t) => t,
        Err(_) => Seq::empty(),
    }
}

/// The query for a repository's clone URL, given the reply about gh's
/// protocol: `sshUrl` when gh answered `ssh`, otherwise the HTTPS `url`.
pub open spec fn url_query(name: Seq<char>, protocol: Reply) -> (Seq<char>, Seq<Seq<char>>) {
    let field = if quiet_result(("gh"@, seq!["config"@, "get"@, "git_protocol"@]), protocol) == Ok::<
        Seq<char>,
        Seq<char>,
    >("ssh"@) {
        "sshUrl"@
    } else {
        "url"@
    };
    ("gh"@, seq!["repo"@, "view"@, name, "--json"@, field, "-q"@, "."@ + field])
}

/// `url_query` is the query `stage_url` makes.
proof fn lemma_url_query(name: Seq<char>, r: Reply)
    ensures
        crate::gh::repo_url_spec(name, quiet_result(crate::gh::protocol_command_spec(), r)) == url_query(name, r),
{
    assert(crate::gh::protocol_command_spec() == ("gh"@, seq!["config"@, "get"@, "git_protocol"@]));
}

/// What a second `init` asks for, step by step: the same local steps as the
/// first, with the existing private git-dir only reinitialised, the
/// lookups, the URLs and the `origin` checks, and then success — with no
/// `gh repo create`, no `git remote add` and no clone anywhere.
pub open spec fn second_init_step(rs: Seq<Reply>) -> ActionView {
    let n = rs.len();
    if n == 0 {
        ActionView::Loud(("git"@, seq!["init"@]))
    } else if n == 1 {
        ActionView::Io(IoStepView::CreateTemplate)
    } else if n == 2 {
        ActionView::Quiet(("git"@, seq!["--git-dir=.ppgit"@, "rev-parse"@, "--git-dir"@]))
    } else if n == 3 {
        ActionView::Loud(("git"@, seq!["init"@, "--bare"@, ".ppgit"@]))
    } else if n == 4 {
        ActionView::Io(IoStepView::SyncExcludes)
    } else if n == 5 {
        ActionView::Loud(("git"@, seq!["config"@, "push.autoSetupRemote"@, "true"@]))
    } else if n == 6 {
        ActionView::Loud(("git"@, seq!["--git-dir=.ppgit"@, "config"@, "push.autoSetupRemote"@, "true"@]))
    } else if n == 7 {
        ActionView::Io(IoStepView::ProjectName)
    } else if n == 8 {
        ActionView::Quiet(("gh"@, seq!["auth"@, "status"@]))
    } else if n == 9 {
        ActionView::Quiet(("gh"@, seq!["repo"@, "view"@, name_read(rs)]))
    } else if n == 10 {
        ActionView::Quiet(("gh"@, seq!["repo"@, "view"@, "pp-"@ + name_read(rs)]))
    } else if n == 11 || n == 13 {
        ActionView::Quiet(("gh"@, seq!["config"@, "get"@, "git_protocol"@]))
    } else if n == 12 {
        ActionView::Quiet(url_query(name_read(rs), rs[11]))
    } else if n == 14 {
        ActionView::Quiet(url_query("pp-"@ + name_read(rs), rs[13]))
    } else if n == 15 {
        ActionView::Quiet(("git"@, seq!["remote"@, "get-url"@, "origin"@]))
    } else if n == 16 {
        ActionView::Quiet(("git"@, seq!["--git-dir=.ppgit"@, "remote"@, "get-url"@, "origin"@]))
    } else {
        ActionView::Finish(EXIT_SUCCESS)
    }
}

/// Running `init` again in a project it has already set up creates nothing
/// and changes nothing: answered as such a project answers, it takes
/// exactly the steps of `second_init_step` — no repository is created, no
/// `origin` is added, the private half is not cloned again, and it ends in
/// success. (That the sync writes nothing the second time is
/// `lemma_sync_settles`; the template is only ever created where there is
/// none.)
pub proof fn lemma_second_init(rs: Seq<Reply>)
    requires
        forall|i: int| 0 <= i < rs.len() && i < 17 ==> initialised_answer(i, #[trigger] rs[i]),
    ensures
        init_spec(rs, 0) == second_init_step(rs),
        forall|name: Seq<char>, private: bool|
            init_spec(rs, 0) != ActionView::Loud(#[trigger] crate::gh::repo_create_spec(name, private)),
        forall|private: bool, url: Seq<char>|
            init_spec(rs, 0) != ActionView::Loud(#[trigger] add_remote_spec(private, url)),
        init_spec(rs, 0) != ActionView::Loud(bare_clone_spec()),
{
    assert forall|i: int| 0 <= i < rs.len() && i < 17 implies initialised_answer(i, rs[i]) by {}
    assert(auto_upstream_spec(false).1 =~= seq!["config"@, "push.autoSetupRemote"@, "true"@]);
    assert(auto_upstream_spec(true).1 =~= seq!["--git-dir=.ppgit"@, "config"@, "push.autoSetupRemote"@, "true"@]);
    assert(get_url_spec(false).1 =~= seq!["remote"@, "get-url"@, "origin"@]);
    assert(get_url_spec(true).1 =~= seq!["--git-dir=.ppgit"@, "remote"@, "get-url"@, "origin"@]);
    if rs.len() > 11 {
        lemma_url_query(name_read(rs), rs[11]);
    }
    if rs.len() > 13 {
        lemma_url_query("pp-"@ + name_read(rs), rs[13]);
    }
    assert(init_spec(rs, 0) == second_init_step(rs));
    reveal_strlit("gh");
    reveal_strlit("git");
    reveal_strlit("config");
    reveal_strlit("add");
    reveal_strlit("init");
    reveal_strlit("clone");
    assert forall|name: Seq<char>, private: bool|
        second_init_step(rs) != ActionView::Loud(#[trigger] crate::gh::repo_create_spec(name, private)) by {
        assert("gh"@[1] != "git"@[1]);
    }
    assert forall|private: bool, url: Seq<char>|
        second_init_step(rs) != ActionView::Loud(#[trigger] add_remote_spec(private, url)) by {
        let c = add_remote_spec(private, url);
        if private {
            assert(c.1.len() == 5);
        } else {
            assert(c.1.len() == 4);
            assert(c.1[1] == "add"@);
            assert("add"@.len() != "config"@.len());
        }
    }
    assert(bare_clone_spec().1.len() == 5);
    assert(auto_upstream_spec(true).1.len() == 4);
    assert(auto_upstream_spec(false).1.len() == 3);
}


/// On GitHub, `init` creates what the lookups did not find, the project's
/// own name as a public repository and its `pp-` name as a private one:
/// after the local steps, with the project named `name`, a failed
/// `gh repo view name` is followed by `gh repo create name --public`, and a
/// failed `gh repo view pp-name` by `gh repo create pp-name --private`.
pub proof fn lemma_init_creates_public_and_private(rs: Seq<Reply>, name: Seq<char>)
    requires
        rs.len() >= 10,
        forall|i: int| 0 <= i < 9 ==> initialised_answer(i, #[trigger] rs[i]),
        io_result(rs[7]) == Ok::<Seq<char>, Seq<char>>(name),
    ensures
        rs.len() == 10 && !quiet_ok(rs[9]) ==> init_spec(rs, 0) == ActionView::Loud(
            ("gh"@, seq!["repo"@, "create"@, name, "--public"@]),
        ),
        rs.len() == 11 && quiet_ok(rs[9]) && !quiet_ok(rs[10]) ==> init_spec(rs, 0) == ActionView::Loud(
            ("gh"@, seq!["repo"@, "create"@, "pp-"@ + name, "--private"@]),
        ),
        rs.len() == 12 && !quiet_ok(rs[9]) && (rs[10] matches Reply::Ended(LoudOutcome::Ended(s))
            && success_spec(s)) && !quiet_ok(rs[11]) ==> init_spec(rs, 0) == ActionView::Loud(
            ("gh"@, seq!["repo"@, "create"@, "pp-"@ + name, "--private"@]),
        ),
{
    assert forall|i: int| 0 <= i < 9 implies initialised_answer(i, rs[i]) by {}
}

/// The private git-dir `init` makes, after `git init` and the template:
/// an existing private repository is only reinitialised; otherwise a public
/// repository with history is cloned bare into `.ppgit` — then the clone's
/// `origin` removed and an index made over the shared working tree — and a
/// new project gets an empty `.ppgit`.
pub proof fn lemma_init_private_half(rs: Seq<Reply>)
    requires
        rs.len() >= 3,
        initialised_answer(0, rs[0]),
        initialised_answer(1, rs[1]),
    ensures
        rs.len() == 3 && quiet_ok(rs[2]) ==> init_spec(rs, 0) == ActionView::Loud(
            ("git"@, seq!["init"@, "--bare"@, ".ppgit"@]),
        ),
        rs.len() == 4 && !quiet_ok(rs[2]) && !quiet_ok(rs[3]) ==> init_spec(rs, 0) == ActionView::Loud(
            ("git"@, seq!["init"@, "--bare"@, ".ppgit"@]),
        ),
        rs.len() == 4 && !quiet_ok(rs[2]) && quiet_ok(rs[3]) ==> init_spec(rs, 0) == ActionView::Loud(
            ("git"@, seq!["clone"@, "--bare"@, "--quiet"@, ".git"@, ".ppgit"@]),
        ),
        rs.len() == 5 && !quiet_ok(rs[2]) && quiet_ok(rs[3]) && initialised_answer(0, rs[4]) ==> init_spec(
            rs,
            0,
        ) == ActionView::Loud(("git"@, seq!["--git-dir=.ppgit"@, "remote"@, "remove"@, "origin"@])),
        rs.len() == 6 && !quiet_ok(rs[2]) && quiet_ok(rs[3]) && initialised_answer(0, rs[4])
            && initialised_answer(0, rs[5]) ==> init_spec(rs, 0) == ActionView::Loud(
            ("git"@, seq!["--git-dir=.ppgit"@, "--work-tree=."@, "reset"@, "--quiet"@]),
        ),
{
}
} // verus!
