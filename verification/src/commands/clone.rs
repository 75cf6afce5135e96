//! `ppgit clone`: setting an existing project up from either of its halves.
use vstd::prelude::*;
use vstd::utf8::encode_utf8;

use crate::cli::{arg_text, arg_text_spec, arg_views, lossy_spec, lossy_text};
use crate::commands::commit::{announce, announce_spec};
use crate::commands::init::{auto_upstream_spec, ensure_auto_upstream};
use crate::exec::{EXIT_FAILURE, EXIT_SUCCESS};
use crate::flow::{
    failed_to, failed_to_exec, give_up, give_up_exec, gh_ready_step, io_step, loud_git_step,
    loud_step, quiet_ok, quiet_ok_exec, quiet_result, quiet_result_exec, quiet_text_step,
    stage_gh_ready, stage_io, stage_loud, stage_loud_git, stage_quiet_text, stage_url,
    url_step, warn_then_fail, warn_then_fail_exec, Action, ActionView, IoStep, IoStepView, Reply,
};
use crate::commands::commit::text_bytes;
use crate::exec::{command, Command, PRIVATE_GIT_ARG, WORK_TREE_ARG};
use crate::gh::{RepoIdentity, PRIVATE_NAME_PREFIX};
use crate::ppgitignore::{PRIVATE_GIT_DIR, PUBLIC_GIT_DIR};
use crate::text::{
    cat2, cat3, cat4, chars_of, last_index, last_index_of, lemma_last_index_of, owned, push_range,
    starts_with, starts_with_spec, str_eq, string_of_range, string_views,
};

verus! {

/// The two halves of the project that `identity` belongs to, as
/// `(public, private)`. A private repository whose name starts with `pp-` is
/// the private half, whose public counterpart is the name without the
/// prefix; anything else is the public half, whose private counterpart is
/// the name with `pp-` in front. A name without an owner is an error.
pub open spec fn halves_spec(name_with_owner: Seq<char>, is_private: bool) -> Result<
    (Seq<char>, Seq<char>),
    Seq<char>,
> {
    let i = last_index_of(name_with_owner, '/');
    if i < 0 {
        Err("gh returned a repository name without an owner: "@ + name_with_owner)
    } else {
        let owner = name_with_owner.take(i);
        let name = name_with_owner.skip(i + 1);
        if starts_with_spec(name, PRIVATE_NAME_PREFIX@) && is_private {
            Ok((owner + "/"@ + name.skip(PRIVATE_NAME_PREFIX@.len() as int), name_with_owner))
        } else {
            Ok((name_with_owner, owner + "/"@ + PRIVATE_NAME_PREFIX@ + name))
        }
    }
}

/// A pair of strings, by their characters.
pub open spec fn pair_view(r: Result<(String, String), String>) -> Result<
    (Seq<char>, Seq<char>),
    Seq<char>,
> {
    match r {
        Ok((a, b)) => Ok((a@, b@)),
        Err(e) => Err(e@),
    }
}

/// Works out the two repositories a ppgit project is made of, given either
/// one of them. The visibility check keeps a public repository that is
/// legitimately called `pp-something` its own project's public half.
pub fn halves(identity: &RepoIdentity) -> (r: Result<(String, String), String>)
    ensures
        pair_view(r) == halves_spec(identity.name_with_owner@, identity.is_private),
{
    let nwo = identity.name_with_owner.as_str();
    let v = chars_of(nwo);
    proof {
        lemma_last_index_of(v@, '/');
    }
    match last_index(v.as_slice(), '/') {
        None => Err(cat2("gh returned a repository name without an owner: ", nwo)),
        Some(i) => {
            assert(i < v.len());
            let ghost owner = v@.take(i as int);
            let ghost name = v@.skip(i + 1);
            let prefix = chars_of(PRIVATE_NAME_PREFIX);
            let name_v = crate::text::slice_vec(v.as_slice(), i + 1, v.len());
            assert(name_v@ =~= name);
            if starts_with(name_v.as_slice(), prefix.as_slice()) && identity.is_private {
                let mut public = string_of_range(v.as_slice(), 0, i);
                public.append("/");
                push_range(&mut public, name_v.as_slice(), prefix.len(), name_v.len());
                assert(v@.subrange(0, i as int) =~= owner);
                assert(name_v@.subrange(prefix.len() as int, name_v.len() as int) =~= name.skip(
                    PRIVATE_NAME_PREFIX@.len() as int,
                ));
                Ok((public, owned(nwo)))
            } else {
                let mut private = string_of_range(v.as_slice(), 0, i);
                private.append("/");
                private.append(PRIVATE_NAME_PREFIX);
                push_range(&mut private, name_v.as_slice(), 0, name_v.len());
                assert(v@.subrange(0, i as int) =~= owner);
                assert(name_v@.subrange(0, name_v.len() as int) =~= name);
                Ok((owned(nwo), private))
            }
        },
    }
}

/// Looking a project up by either half gives the same pair: the public
/// repository `owner/name` and the private repository `owner/pp-name`, for
/// any name without a `/`.
pub proof fn lemma_halves_agree(owner: Seq<char>, name: Seq<char>)
    requires
        !name.contains('/'),
    ensures
        halves_spec(owner + "/"@ + name, false) == Ok::<(Seq<char>, Seq<char>), Seq<char>>(
            (owner + "/"@ + name, owner + "/"@ + PRIVATE_NAME_PREFIX@ + name),
        ),
        halves_spec(owner + "/"@ + PRIVATE_NAME_PREFIX@ + name, true) == Ok::<
            (Seq<char>, Seq<char>),
            Seq<char>,
        >((owner + "/"@ + name, owner + "/"@ + PRIVATE_NAME_PREFIX@ + name)),
{
    reveal_strlit("/");
    reveal_strlit("pp-");
    let pub_full = owner + "/"@ + name;
    let priv_full = owner + "/"@ + PRIVATE_NAME_PREFIX@ + name;
    lemma_last_slash(owner, name);
    lemma_last_slash(owner, PRIVATE_NAME_PREFIX@ + name);
    assert(priv_full =~= owner + "/"@ + (PRIVATE_NAME_PREFIX@ + name));
    assert(pub_full.take(owner.len() as int) =~= owner);
    assert(pub_full.skip(owner.len() + 1int) =~= name);
    assert(priv_full.take(owner.len() as int) =~= owner);
    assert(priv_full.skip(owner.len() + 1int) =~= PRIVATE_NAME_PREFIX@ + name);
    assert((PRIVATE_NAME_PREFIX@ + name).take(3) =~= PRIVATE_NAME_PREFIX@);
    assert((PRIVATE_NAME_PREFIX@ + name).skip(3) =~= name);
    assert(owner + "/"@ + PRIVATE_NAME_PREFIX@ + name =~= priv_full);
}

/// The last `/` in `owner + "/" + name` is the one between them.
proof fn lemma_last_slash(owner: Seq<char>, name: Seq<char>)
    requires
        !name.contains('/'),
    ensures
        last_index_of(owner + "/"@ + name, '/') == owner.len(),
{
    reveal_strlit("/");
    let s = owner + "/"@ + name;
    lemma_last_index_of(s, '/');
    let k = last_index_of(s, '/');
    assert(s[owner.len() as int] == '/');
    if k > owner.len() {
        assert(name[k - owner.len() - 1] == s[k]);
    }
}

/// Where the clone lands: the directory the user named, or the public
/// repository's name without its owner.
pub open spec fn destination_spec(explicit: Option<Seq<u8>>, public: Seq<char>) -> Seq<u8> {
    match explicit {
        Some(d) => d,
        None => encode_utf8(public.skip(last_index_of(public, '/') + 1)),
    }
}

/// An optional argument, by its bytes.
pub open spec fn opt_bytes(o: Option<Vec<u8>>) -> Option<Seq<u8>> {
    match o {
        Some(v) => Some(v@),
        None => None,
    }
}

/// Where the clone lands. Whether that already exists is left for git to
/// judge — it refuses a non-empty destination itself.
pub fn destination_dir(explicit: Option<Vec<u8>>, public: &str) -> (r: Vec<u8>)
    ensures
        r@ == destination_spec(opt_bytes(explicit), public@),
{
    match explicit {
        Some(d) => d,
        None => {
            let v = chars_of(public);
            proof {
                lemma_last_index_of(v@, '/');
            }
            let start = match last_index(v.as_slice(), '/') {
                Some(i) => i + 1,
                None => 0,
            };
            let tail = string_of_range(v.as_slice(), start, v.len());
            assert(v@.subrange(start as int, v.len() as int) =~= v@.skip(
                last_index_of(public@, '/') + 1,
            ));
            text_bytes(tail.as_str())
        },
    }
}

/// Whether an argument looks like an option: its first byte is `-`.
pub open spec fn is_option(a: Seq<u8>) -> bool {
    a.len() > 0 && a[0] == 45u8
}

/// The repository and optional destination directory of a command line of
/// one or two arguments, none of them an option.
pub open spec fn parse_spec(args: Seq<Seq<u8>>) -> Option<(Seq<u8>, Option<Seq<u8>>)> {
    if exists|i: int| 0 <= i < args.len() && is_option(#[trigger] args[i]) {
        None
    } else if args.len() == 1 {
        Some((args[0], None))
    } else if args.len() == 2 {
        Some((args[0], Some(args[1])))
    } else {
        None
    }
}

/// A parsed command line, by its bytes.
pub open spec fn parsed_view(r: Option<(Vec<u8>, Option<Vec<u8>>)>) -> Option<
    (Seq<u8>, Option<Seq<u8>>),
> {
    match r {
        Some((a, b)) => Some((a@, opt_bytes(b))),
        None => None,
    }
}

/// Splits the command line into the repository and the optional destination
/// directory. Options are refused rather than forwarded: `git clone`'s
/// flags mostly concern a single repository's layout, and ppgit has
/// definite plans for that layout in both halves.
pub fn parse(args: &[Vec<u8>]) -> (r: Option<(Vec<u8>, Option<Vec<u8>>)>)
    ensures
        parsed_view(r) == parse_spec(arg_views(args@)),
{
    let ghost a = arg_views(args@);
    let mut i: usize = 0;
    while i < args.len()
        invariant
            0 <= i <= args.len(),
            a == arg_views(args@),
            forall|j: int| 0 <= j < i ==> !is_option(#[trigger] a[j]),
        decreases args.len() - i,
    {
        assert(a[i as int] == args@[i as int]@);
        if args[i].len() > 0 && args[i][0] == 45u8 {
            assert(is_option(a[i as int]));
            return None;
        }
        i += 1;
    }
    if args.len() == 1 {
        assert(a[0] == args@[0]@);
        Some((args[0].clone(), None))
    } else if args.len() == 2 {
        assert(a[0] == args@[0]@);
        assert(a[1] == args@[1]@);
        Some((args[0].clone(), Some(args[1].clone())))
    } else {
        None
    }
}

/// The usage text for `ppgit clone`.
pub open spec fn clone_usage_spec() -> Seq<char> {
    "usage: ppgit clone <repository> [<directory>]

Sets up both halves of a ppgit project in one working directory. The
repository can be named any way `gh` accepts one — `name`, `owner/name`
or a URL — and can be either half: ppgit finds the other itself.

Takes none of `git clone`'s options."@
}

/// The usage text for `ppgit clone`.
pub fn clone_usage() -> (r: String)
    ensures
        r@ == clone_usage_spec(),
{
    owned(
        "usage: ppgit clone <repository> [<directory>]

Sets up both halves of a ppgit project in one working directory. The
repository can be named any way `gh` accepts one — `name`, `owner/name`
or a URL — and can be either half: ppgit finds the other itself.

Takes none of `git clone`'s options.",
    )
}

/// The half that was not looked up: whichever of the pair the looked-up
/// repository is not.
pub open spec fn counterpart_spec(looked_up: Seq<char>, public: Seq<char>, private: Seq<char>) -> Seq<
    char,
> {
    if looked_up == private {
        public
    } else {
        private
    }
}

/// The half that has to exist alongside the one looked up.
pub fn counterpart(looked_up: &str, public: &str, private: &str) -> (r: String)
    ensures
        r@ == counterpart_spec(looked_up@, public@, private@),
{
    if str_eq(looked_up, private) {
        owned(public)
    } else {
        owned(private)
    }
}

/// What is said when the counterpart is missing.
pub open spec fn missing_counterpart_spec(counterpart: Seq<char>, looked_up: Seq<char>) -> Seq<
    Seq<char>,
> {
    seq![
        "ppgit: "@ + counterpart + " does not exist, or isn't visible to the account"@,
        "  gh is logged in as — so "@ + looked_up + " has no counterpart."@,
        "  `ppgit clone` sets up a project made by `ppgit init`, which always creates"@,
        "  the pair <name> and "@ + PRIVATE_NAME_PREFIX@ + "<name>. A repository that stands on"@,
        "  its own is `git clone`'s business, not ppgit's."@,
    ]
}

/// What is said when the counterpart is missing.
pub fn missing_counterpart(counterpart: &str, looked_up: &str) -> (r: Vec<String>)
    ensures
        string_views(r@) == missing_counterpart_spec(counterpart@, looked_up@),
{
    let r = vec![
        cat3("ppgit: ", counterpart, " does not exist, or isn't visible to the account"),
        cat3("  gh is logged in as — so ", looked_up, " has no counterpart."),
        owned("  `ppgit clone` sets up a project made by `ppgit init`, which always creates"),
        cat3("  the pair <name> and ", PRIVATE_NAME_PREFIX, "<name>. A repository that stands on"),
        owned("  its own is `git clone`'s business, not ppgit's."),
    ];
    assert(string_views(r@) =~= missing_counterpart_spec(counterpart@, looked_up@));
    r
}

/// The command line of `current_branch`.
pub open spec fn current_branch_spec(private: bool) -> (Seq<char>, Seq<Seq<char>>) {
    (
        "git"@,
        (if private {
            seq![PRIVATE_GIT_ARG@]
        } else {
            Seq::<Seq<char>>::empty()
        }) + seq!["symbolic-ref"@, "--short"@, "HEAD"@],
    )
}

/// `git [<git-dir>] symbolic-ref --short HEAD`: the branch a git-dir has
/// checked out.
pub fn current_branch(private: bool) -> (c: Command)
    ensures
        c@ == current_branch_spec(private),
{
    let mut args: Vec<String> = Vec::new();
    if private {
        args.push(owned(PRIVATE_GIT_ARG));
    }
    args.push(owned("symbolic-ref"));
    args.push(owned("--short"));
    args.push(owned("HEAD"));
    let c = command("git", args);
    assert(string_views(c.args@) =~= (if private {
        seq![PRIVATE_GIT_ARG@]
    } else {
        Seq::<Seq<char>>::empty()
    }) + seq!["symbolic-ref"@, "--short"@, "HEAD"@]);
    c
}

/// What is said when the two halves came down on different branches:
/// nothing when either branch is unknown or they agree.
pub open spec fn branch_warning_spec(
    public: Result<Seq<char>, Seq<char>>,
    private: Result<Seq<char>, Seq<char>>,
) -> Seq<Seq<char>> {
    match (public, private) {
        (Ok(p), Ok(q)) => if p == q {
            seq![]
        } else {
            seq![
                "ppgit: warning: the two halves came down on different branches"@,
                "    public ("@ + PUBLIC_GIT_DIR@ + "):   "@ + p,
                "    private ("@ + PRIVATE_GIT_DIR@ + "): "@ + q,
                "  They share one working tree, so ppgit needs them on the same branch."@,
                "  `pp checkout "@ + q + "` puts them in step — the work tree already holds"@,
                "  the private half's files."@,
            ]
        },
        _ => seq![],
    }
}

/// The two halves are cloned separately, each landing on whichever branch
/// GitHub calls its default; they share one working tree, so a disagreement
/// is reported rather than guessed at.
pub fn warn_if_branches_differ(public: &Result<String, String>, private: &Result<String, String>) -> (r:
    Vec<String>)
    ensures
        string_views(r@) == branch_warning_spec(
            crate::exec::result_view(*public),
            crate::exec::result_view(*private),
        ),
{
    match (public, private) {
        (Ok(p), Ok(q)) => {
            if str_eq(p.as_str(), q.as_str()) {
                let r: Vec<String> = Vec::new();
                assert(string_views(r@) =~= Seq::<Seq<char>>::empty());
                r
            } else {
                let mut l1 = cat3("    public (", PUBLIC_GIT_DIR, "):   ");
                l1.append(p.as_str());
                let mut l2 = cat3("    private (", PRIVATE_GIT_DIR, "): ");
                l2.append(q.as_str());
                let r = vec![
                    owned("ppgit: warning: the two halves came down on different branches"),
                    l1,
                    l2,
                    owned("  They share one working tree, so ppgit needs them on the same branch."),
                    cat3(
                        "  `pp checkout ",
                        q.as_str(),
                        "` puts them in step — the work tree already holds",
                    ),
                    owned("  the private half's files."),
                ];
                assert(string_views(r@) =~= branch_warning_spec(
                    crate::exec::result_view(*public),
                    crate::exec::result_view(*private),
                ));
                r
            }
        },
        _ => {
            let r: Vec<String> = Vec::new();
            assert(string_views(r@) =~= Seq::<Seq<char>>::empty());
            r
        },
    }
}

// ---------------------------------------------------------------------------
// The clone itself
// ---------------------------------------------------------------------------

/// The identity of `repo` on GitHub (reply at `k`): carry on with its full
/// name and visibility, or give up.
pub open spec fn stage_identity(
    repo: Seq<char>,
    rs: Seq<Reply>,
    k: int,
    next: spec_fn(int, Seq<char>, bool) -> ActionView,
) -> ActionView {
    let c = crate::gh::identity_command_spec(repo);
    let context = "look up "@ + repo + " on GitHub"@;
    if k >= rs.len() {
        ActionView::Quiet(c)
    } else {
        match quiet_result(c, rs[k]) {
            Err(e) => give_up(EXIT_FAILURE, Some(failed_to(context, e)), rs, k + 1),
            Ok(out) => match crate::gh::identity_spec(out) {
                None => give_up(
                    EXIT_FAILURE,
                    Some(failed_to(context, crate::gh::bad_identity_message(out))),
                    rs,
                    k + 1,
                ),
                Some((nwo, private)) => next(k + 1, nwo, private),
            },
        }
    }
}

/// The whole of `ppgit clone <repository> [<directory>]`, given the
/// arguments after `clone` and the replies so far: the command line is
/// checked; gh is checked; the repository is looked up and the project's
/// two halves worked out; the other half must exist too, or this is not a
/// ppgit project and nothing is built; then both URLs are found, the public
/// half is cloned normally, the private half is cloned bare into `.ppgit`
/// over the same working tree and settled, the exclude files are synced,
/// auto-upstream is set in both, and differing branches are reported.
pub open spec fn clone_spec(args: Seq<Seq<u8>>, rs: Seq<Reply>) -> ActionView {
    match parse_spec(args) {
        None => warn_then_fail(seq![clone_usage_spec()], rs, 0),
        Some((repo_bytes, directory)) => match arg_text_spec(repo_bytes) {
            None => warn_then_fail(seq!["ppgit: repository name is not valid UTF-8"@], rs, 0),
            Some(repo) => stage_gh_ready(
                rs,
                0,
                |k1: int|
                    stage_identity(
                        repo,
                        rs,
                        k1,
                        |k2: int, nwo: Seq<char>, private: bool|
                            clone_halves(directory, nwo, private, rs, k2),
                    ),
            ),
        },
    }
}

/// Once the repository is identified: its two halves, the check that the
/// other one exists, and both URLs.
pub open spec fn clone_halves(
    directory: Option<Seq<u8>>,
    nwo: Seq<char>,
    is_private: bool,
    rs: Seq<Reply>,
    k: int,
) -> ActionView {
    match halves_spec(nwo, is_private) {
        Err(e) => give_up(
            EXIT_FAILURE,
            Some(failed_to("work out the project's two halves"@, e)),
            rs,
            k,
        ),
        Ok((public, private)) => {
            let other = counterpart_spec(nwo, public, private);
            if k >= rs.len() {
                ActionView::Quiet(crate::gh::repo_view_spec(other))
            } else if !quiet_ok(rs[k]) {
                warn_then_fail(missing_counterpart_spec(other, nwo), rs, k + 1)
            } else {
                stage_url(
                    public,
                    "get the public repository's URL"@,
                    rs,
                    k + 1,
                    |k2: int, public_url: Seq<char>|
                        stage_url(
                            private,
                            "get the private repository's URL"@,
                            rs,
                            k2,
                            |k3: int, private_url: Seq<char>|
                                clone_public(directory, public, private, public_url, private_url, rs, k3),
                        ),
                )
            }
        },
    }
}

/// Cloning the public half into the destination and entering it.
pub open spec fn clone_public(
    directory: Option<Seq<u8>>,
    public: Seq<char>,
    private: Seq<char>,
    public_url: Seq<char>,
    private_url: Seq<char>,
    rs: Seq<Reply>,
    k: int,
) -> ActionView {
    let dest = destination_spec(directory, public);
    if k >= rs.len() {
        ActionView::Say(seq![announce_spec(PUBLIC_GIT_DIR@)])
    } else {
        stage_loud_git(
            seq![encode_utf8("clone"@), encode_utf8(public_url), dest],
            rs,
            k + 1,
            |k2: int|
                stage_io(
                    IoStepView::EnterDir(dest),
                    "enter the cloned directory"@,
                    rs,
                    k2,
                    |k3: int, t: Seq<char>|
                        if k3 >= rs.len() {
                            ActionView::Say(seq![announce_spec(PRIVATE_GIT_DIR@)])
                        } else {
                            clone_private_spec(
                                private_url,
                                rs,
                                k3 + 1,
                                |k4: int| clone_finish(public, private, dest, rs, k4),
                            )
                        },
                ),
        )
    }
}

/// The command lines that settle a bare clone of the private half.
pub open spec fn fetch_refspec_spec() -> (Seq<char>, Seq<Seq<char>>) {
    (
        "git"@,
        seq![
            PRIVATE_GIT_ARG@,
            "config"@,
            "remote.origin.fetch"@,
            "+refs/heads/*:refs/remotes/origin/*"@,
        ],
    )
}

/// Clones the private half into the bare `.ppgit` git-dir and settles it
/// into a working state, given the replies from `k` on. A bare clone is
/// only nearly right: it has no fetch refspec, so no branch would ever have
/// an upstream, and no index, so every tracked file would read as deleted.
/// Both are put back: the refspec, a fetch, the branch's upstream, and an
/// index and work tree from the private HEAD — safe despite `--hard`, since
/// the public clone made this directory moments ago, and the private half,
/// the superset, is the one entitled to say what the tree holds.
pub open spec fn clone_private_spec(
    url: Seq<char>,
    rs: Seq<Reply>,
    k: int,
    next: spec_fn(int) -> ActionView,
) -> ActionView {
    stage_loud(
        ("git"@, seq!["clone"@, "--bare"@, url, PRIVATE_GIT_DIR@]),
        rs,
        k,
        |k1: int|
            stage_loud(
                fetch_refspec_spec(),
                rs,
                k1,
                |k2: int|
                    stage_loud(
                        ("git"@, seq![PRIVATE_GIT_ARG@, "fetch"@, "--quiet"@, "origin"@]),
                        rs,
                        k2,
                        |k3: int| clone_private_settle(rs, k3, next),
                    ),
            ),
    )
}

/// Settling the private half works on the private git-dir throughout:
/// apart from the bare clone into `.ppgit` itself, every git command it
/// runs or asks — the refspec, the fetch, the branch, its upstream, the
/// reset — begins with `--git-dir=.ppgit`.
pub proof fn lemma_clone_private_addresses_private(url: Seq<char>, rs: Seq<Reply>, k: int)
    ensures
        ({
            let a = clone_private_spec(url, rs, k, |j: int| ActionView::Finish(EXIT_SUCCESS));
            &&& a matches ActionView::Loud(c) ==> c == ("git"@, seq!["clone"@, "--bare"@, url, ".ppgit"@]) || (
            c.0 == "git"@ && c.1.len() > 0 && c.1[0] == "--git-dir=.ppgit"@)
            &&& a matches ActionView::Quiet(c) ==> c.0 == "git"@ && c.1.len() > 0 && c.1[0]
                == "--git-dir=.ppgit"@
        }),
{
}

/// Once the bare clone and the fetch refspec are in place, the private half
/// fetches from its own `origin`: `git --git-dir=.ppgit fetch --quiet
/// origin`.
pub proof fn lemma_clone_private_fetches_privately(
    url: Seq<char>,
    rs: Seq<Reply>,
    k: int,
    next: spec_fn(int) -> ActionView,
)
    requires
        0 <= k,
        rs.len() == k + 2,
        rs[k] matches Reply::Ended(crate::exec::LoudOutcome::Ended(s)) && crate::exec::success_spec(s),
        rs[k + 1] matches Reply::Ended(crate::exec::LoudOutcome::Ended(s)) && crate::exec::success_spec(s),
    ensures
        clone_private_spec(url, rs, k, next) == ActionView::Loud(
            ("git"@, seq!["--git-dir=.ppgit"@, "fetch"@, "--quiet"@, "origin"@]),
        ),
{
}

/// Whether a reply says a run with the terminal attached succeeded.
pub open spec fn ran_ok(r: Reply) -> bool {
    r matches Reply::Ended(crate::exec::LoudOutcome::Ended(s)) && crate::exec::success_spec(s)
}

/// When every step succeeds, settling the private half takes exactly these
/// steps, in this order: `git clone --bare <url> .ppgit`; the fetch refspec
/// `+refs/heads/*:refs/remotes/origin/*`; `fetch --quiet origin`; asking the
/// private branch; setting its upstream to `origin/<branch>`; and `reset
/// --quiet --hard` over the shared working tree — each after the bare clone
/// addressed to `.ppgit` — and then carries on.
pub proof fn lemma_clone_private_steps(
    url: Seq<char>,
    rs: Seq<Reply>,
    k: int,
    branch: Seq<char>,
    next: spec_fn(int) -> ActionView,
)
    requires
        0 <= k,
        rs.len() > k ==> ran_ok(rs[k]),
        rs.len() > k + 1 ==> ran_ok(rs[k + 1]),
        rs.len() > k + 2 ==> ran_ok(rs[k + 2]),
        rs.len() > k + 3 ==> quiet_result(
            ("git"@, seq!["--git-dir=.ppgit"@, "symbolic-ref"@, "--short"@, "HEAD"@]),
            rs[k + 3],
        ) == Ok::<Seq<char>, Seq<char>>(branch),
        rs.len() > k + 4 ==> ran_ok(rs[k + 4]),
        rs.len() > k + 5 ==> ran_ok(rs[k + 5]),
    ensures
        rs.len() == k ==> clone_private_spec(url, rs, k, next) == ActionView::Loud(
            ("git"@, seq!["clone"@, "--bare"@, url, ".ppgit"@]),
        ),
        rs.len() == k + 1 ==> clone_private_spec(url, rs, k, next) == ActionView::Loud(
            (
                "git"@,
                seq![
                    "--git-dir=.ppgit"@,
                    "config"@,
                    "remote.origin.fetch"@,
                    "+refs/heads/*:refs/remotes/origin/*"@,
                ],
            ),
        ),
        rs.len() == k + 2 ==> clone_private_spec(url, rs, k, next) == ActionView::Loud(
            ("git"@, seq!["--git-dir=.ppgit"@, "fetch"@, "--quiet"@, "origin"@]),
        ),
        rs.len() == k + 3 ==> clone_private_spec(url, rs, k, next) == ActionView::Quiet(
            ("git"@, seq!["--git-dir=.ppgit"@, "symbolic-ref"@, "--short"@, "HEAD"@]),
        ),
        rs.len() == k + 4 ==> clone_private_spec(url, rs, k, next) == ActionView::Loud(
            (
                "git"@,
                seq!["--git-dir=.ppgit"@, "branch"@, "--quiet"@, "--set-upstream-to=origin/"@ + branch, branch],
            ),
        ),
        rs.len() == k + 5 ==> clone_private_spec(url, rs, k, next) == ActionView::Loud(
            ("git"@, seq!["--git-dir=.ppgit"@, "--work-tree=."@, "reset"@, "--quiet"@, "--hard"@]),
        ),
        rs.len() >= k + 6 ==> clone_private_spec(url, rs, k, next) == next(k + 6),
{
    assert(current_branch_spec(true).1 =~= seq!["--git-dir=.ppgit"@, "symbolic-ref"@, "--short"@, "HEAD"@]);
}

/// Setting the private branch's upstream and filling the index and tree.
pub open spec fn clone_private_settle(rs: Seq<Reply>, k3: int, next: spec_fn(int) -> ActionView) -> ActionView {
    stage_quiet_text(
        current_branch_spec(true),
        "read the private repository's branch"@,
        rs,
        k3,
        |k4: int, branch: Seq<char>|
            stage_loud(
                (
                    "git"@,
                    seq![
                        PRIVATE_GIT_ARG@,
                        "branch"@,
                        "--quiet"@,
                        "--set-upstream-to=origin/"@ + branch,
                        branch,
                    ],
                ),
                rs,
                k4,
                |k5: int|
                    stage_loud(
                        (
                            "git"@,
                            seq![PRIVATE_GIT_ARG@, WORK_TREE_ARG@, "reset"@, "--quiet"@, "--hard"@],
                        ),
                        rs,
                        k5,
                        next,
                    ),
            ),
    )
}

/// After both clones: the exclude files, auto-upstream in both halves, the
/// branch check and the closing line.
pub open spec fn clone_finish(public: Seq<char>, private: Seq<char>, dest: Seq<u8>, rs: Seq<Reply>, k: int) -> ActionView {
    stage_io(
        IoStepView::SyncExcludes,
        "sync exclude files"@,
        rs,
        k,
        |k1: int, t: Seq<char>|
            stage_loud(
                auto_upstream_spec(false),
                rs,
                k1,
                |k2: int| stage_loud(auto_upstream_spec(true), rs, k2, |k3: int| clone_report(public, private, dest, rs, k3)),
            ),
    )
}

/// The line that closes a successful clone.
pub open spec fn cloned_line(public: Seq<char>, private: Seq<char>, dest: Seq<u8>) -> Seq<char> {
    "ppgit: cloned "@ + public + " and "@ + private + " into "@ + lossy_spec(dest)
}

/// Reporting differing branches, then the closing line.
pub open spec fn clone_report(public: Seq<char>, private: Seq<char>, dest: Seq<u8>, rs: Seq<Reply>, k: int) -> ActionView {
    if k >= rs.len() {
        ActionView::Quiet(current_branch_spec(false))
    } else if k + 1 >= rs.len() {
        ActionView::Quiet(current_branch_spec(true))
    } else {
        let w = branch_warning_spec(
            quiet_result(current_branch_spec(false), rs[k]),
            quiet_result(current_branch_spec(true), rs[k + 1]),
        );
        let j = if w.len() > 0 {
            k + 3
        } else {
            k + 2
        };
        if w.len() > 0 && k + 2 >= rs.len() {
            ActionView::Warn(w)
        } else if j >= rs.len() {
            ActionView::Say(seq![cloned_line(public, private, dest)])
        } else {
            ActionView::Finish(EXIT_SUCCESS)
        }
    }
}

/// The identity step.
fn identity_step(repo: &str, replies: &[Reply], k: usize) -> (r: Result<(usize, String, bool), Action>)
    ensures
        match r {
            Ok((k2, nwo, private)) => k2 == k + 1 && k < replies.len() && forall|
                next: spec_fn(int, Seq<char>, bool) -> ActionView,
            |
                #[trigger] stage_identity(repo@, replies@, k as int, next) == next(
                    k2 as int,
                    nwo@,
                    private,
                ),
            Err(a) => forall|next: spec_fn(int, Seq<char>, bool) -> ActionView|
                #[trigger] stage_identity(repo@, replies@, k as int, next) == a@,
        },
{
    let c = crate::gh::repo_identity_command(repo);
    if k >= replies.len() {
        return Err(Action::Quiet(c));
    }
    let context = cat3("look up ", repo, " on GitHub");
    match quiet_result_exec(&c, &replies[k]) {
        Err(e) => Err(
            give_up_exec(EXIT_FAILURE, Some(failed_to_exec(context.as_str(), e.as_str())), replies, k + 1),
        ),
        Ok(out) => match crate::gh::parse_repo_identity(out.as_str()) {
            Err(e) => Err(
                give_up_exec(EXIT_FAILURE, Some(failed_to_exec(context.as_str(), e.as_str())), replies, k + 1),
            ),
            Ok(id) => Ok((k + 1, id.name_with_owner, id.is_private)),
        },
    }
}

/// The next action of `ppgit clone`, given the arguments after `clone`;
/// see `clone_spec`.
pub fn try_clone(args: &[Vec<u8>], replies: &[Reply]) -> (a: Action)
    ensures
        a@ == clone_spec(arg_views(args@), replies@),
{
    let (repo_bytes, directory) = match parse(args) {
        None => {
            let l = vec![clone_usage()];
            assert(string_views(l@) =~= seq![clone_usage_spec()]);
            return warn_then_fail_exec(l, replies, 0);
        },
        Some(x) => x,
    };
    let repo = match arg_text(repo_bytes.as_slice()) {
        None => {
            let l = vec![owned("ppgit: repository name is not valid UTF-8")];
            assert(string_views(l@) =~= seq!["ppgit: repository name is not valid UTF-8"@]);
            return warn_then_fail_exec(l, replies, 0);
        },
        Some(r) => r,
    };
    let k1 = match gh_ready_step(replies, 0) {
        Ok(k) => k,
        Err(a) => return a,
    };
    let (k2, nwo, private) = match identity_step(repo.as_str(), replies, k1) {
        Ok(x) => x,
        Err(a) => return a,
    };
    clone_halves_exec(directory, nwo.as_str(), private, replies, k2)
}

fn clone_halves_exec(directory: Option<Vec<u8>>, nwo: &str, is_private: bool, replies: &[Reply], k: usize) -> (a:
    Action)
    ensures
        a@ == clone_halves(opt_bytes(directory), nwo@, is_private, replies@, k as int),
{
    let id = RepoIdentity { name_with_owner: owned(nwo), is_private };
    let (public, private) = match halves(&id) {
        Err(e) => {
            let m = failed_to_exec("work out the project's two halves", e.as_str());
            return give_up_exec(EXIT_FAILURE, Some(m), replies, k);
        },
        Ok(x) => x,
    };
    let other = counterpart(nwo, public.as_str(), private.as_str());
    if k >= replies.len() {
        return Action::Quiet(crate::gh::repo_view_command(other.as_str()));
    }
    let exists = match &replies[k] {
        Reply::Output(o) => crate::gh::repo_exists(o),
        _ => false,
    };
    if !exists {
        return warn_then_fail_exec(missing_counterpart(other.as_str(), nwo), replies, k + 1);
    }
    let (k2, public_url) = match url_step(public.as_str(), "get the public repository's URL", replies, k + 1) {
        Ok(x) => x,
        Err(a) => return a,
    };
    let (k3, private_url) = match url_step(private.as_str(), "get the private repository's URL", replies, k2) {
        Ok(x) => x,
        Err(a) => return a,
    };
    clone_public_exec(directory, public.as_str(), private.as_str(), public_url.as_str(), private_url.as_str(), replies, k3)
}

fn clone_public_exec(
    directory: Option<Vec<u8>>,
    public: &str,
    private: &str,
    public_url: &str,
    private_url: &str,
    replies: &[Reply],
    k: usize,
) -> (a: Action)
    ensures
        a@ == clone_public(opt_bytes(directory), public@, private@, public_url@, private_url@, replies@, k as int),
{
    let dest = destination_dir(directory, public);
    if k >= replies.len() {
        return Action::Say(announce(PUBLIC_GIT_DIR));
    }
    let clone_args = vec![text_bytes("clone"), text_bytes(public_url), dest.clone()];
    proof {
        reveal_strlit("clone");
    }
    assert(arg_views(clone_args@) =~= seq![encode_utf8("clone"@), encode_utf8(public_url@), dest@]);
    let k2 = match loud_git_step(clone_args, replies, k + 1) {
        Ok(x) => x,
        Err(a) => return a,
    };
    let (k3, _t) = match io_step(IoStep::EnterDir(dest.clone()), "enter the cloned directory", replies, k2) {
        Ok(x) => x,
        Err(a) => return a,
    };
    if k3 >= replies.len() {
        return Action::Say(announce(PRIVATE_GIT_DIR));
    }
    let k4 = match clone_private(private_url, replies, k3 + 1) {
        Ok(x) => x,
        Err(a) => return a,
    };
    clone_finish_exec(public, private, &dest, replies, k4)
}

/// Takes the step `clone_private_spec(url, replies, k, ..)`.
pub fn clone_private(url: &str, replies: &[Reply], k: usize) -> (r: Result<usize, Action>)
    ensures
        match r {
            Ok(k2) => k < k2 <= replies.len() && forall|next: spec_fn(int) -> ActionView|
                #[trigger] clone_private_spec(url@, replies@, k as int, next) == next(k2 as int),
            Err(a) => forall|next: spec_fn(int) -> ActionView|
                #[trigger] clone_private_spec(url@, replies@, k as int, next) == a@,
        },
{
    let bare = command("git", vec![owned("clone"), owned("--bare"), owned(url), owned(PRIVATE_GIT_DIR)]);
    assert(string_views(bare.args@) =~= seq!["clone"@, "--bare"@, url@, PRIVATE_GIT_DIR@]);
    let k1 = match loud_step(bare, replies, k) {
        Ok(x) => x,
        Err(a) => return Err(a),
    };
    let refspec = command(
        "git",
        vec![
            owned(PRIVATE_GIT_ARG),
            owned("config"),
            owned("remote.origin.fetch"),
            owned("+refs/heads/*:refs/remotes/origin/*"),
        ],
    );
    assert(refspec@ =~= fetch_refspec_spec());
    let k2 = match loud_step(refspec, replies, k1) {
        Ok(x) => x,
        Err(a) => return Err(a),
    };
    let fetch = command("git", vec![owned(PRIVATE_GIT_ARG), owned("fetch"), owned("--quiet"), owned("origin")]);
    assert(string_views(fetch.args@) =~= seq![PRIVATE_GIT_ARG@, "fetch"@, "--quiet"@, "origin"@]);
    let k3 = match loud_step(fetch, replies, k2) {
        Ok(x) => x,
        Err(a) => return Err(a),
    };
    clone_private_settle_exec(replies, k3)
}

fn clone_private_settle_exec(replies: &[Reply], k3: usize) -> (r: Result<usize, Action>)
    ensures
        match r {
            Ok(k2) => k3 < k2 <= replies.len() && forall|next: spec_fn(int) -> ActionView|
                #[trigger] clone_private_settle(replies@, k3 as int, next) == next(k2 as int),
            Err(a) => forall|next: spec_fn(int) -> ActionView|
                #[trigger] clone_private_settle(replies@, k3 as int, next) == a@,
        },
{
    let (k4, branch) = match quiet_text_step(current_branch(true), "read the private repository's branch", replies, k3) {
        Ok(x) => x,
        Err(a) => return Err(a),
    };
    let upstream = cat2("--set-upstream-to=origin/", branch.as_str());
    let set = command(
        "git",
        vec![owned(PRIVATE_GIT_ARG), owned("branch"), owned("--quiet"), upstream, owned(branch.as_str())],
    );
    assert(string_views(set.args@) =~= seq![
        PRIVATE_GIT_ARG@,
        "branch"@,
        "--quiet"@,
        "--set-upstream-to=origin/"@ + branch@,
        branch@,
    ]);
    let k5 = match loud_step(set, replies, k4) {
        Ok(x) => x,
        Err(a) => return Err(a),
    };
    let reset = command(
        "git",
        vec![owned(PRIVATE_GIT_ARG), owned(WORK_TREE_ARG), owned("reset"), owned("--quiet"), owned("--hard")],
    );
    assert(string_views(reset.args@) =~= seq![PRIVATE_GIT_ARG@, WORK_TREE_ARG@, "reset"@, "--quiet"@, "--hard"@]);
    loud_step(reset, replies, k5)
}

fn clone_finish_exec(public: &str, private: &str, dest: &Vec<u8>, replies: &[Reply], k: usize) -> (a: Action)
    ensures
        a@ == clone_finish(public@, private@, dest@, replies@, k as int),
{
    let (k1, _t) = match io_step(IoStep::SyncExcludes, "sync exclude files", replies, k) {
        Ok(x) => x,
        Err(a) => return a,
    };
    let k2 = match loud_step(ensure_auto_upstream(false), replies, k1) {
        Ok(x) => x,
        Err(a) => return a,
    };
    let k3 = match loud_step(ensure_auto_upstream(true), replies, k2) {
        Ok(x) => x,
        Err(a) => return a,
    };
    clone_report_exec(public, private, dest, replies, k3)
}

fn clone_report_exec(public: &str, private: &str, dest: &Vec<u8>, replies: &[Reply], k: usize) -> (a: Action)
    ensures
        a@ == clone_report(public@, private@, dest@, replies@, k as int),
{
    let pc = current_branch(false);
    if k >= replies.len() {
        return Action::Quiet(pc);
    }
    let qc = current_branch(true);
    if k + 1 >= replies.len() {
        return Action::Quiet(qc);
    }
    let p = quiet_result_exec(&pc, &replies[k]);
    let q = quiet_result_exec(&qc, &replies[k + 1]);
    let w = warn_if_branches_differ(&p, &q);
    if w.len() > 0 && k + 2 >= replies.len() {
        return Action::Warn(w);
    }
    let j = if w.len() > 0 {
        k + 3
    } else {
        k + 2
    };
    if j >= replies.len() {
        let mut line = cat4("ppgit: cloned ", public, " and ", private);
        line.append(" into ");
        let shown = lossy_text(dest.as_slice());
        line.append(shown.as_str());
        let l = vec![line];
        assert(string_views(l@) =~= seq![cloned_line(public@, private@, dest@)]);
        return Action::Say(l);
    }
    Action::Finish(EXIT_SUCCESS)
}

/// The next action of `ppgit clone`, given the whole command line (`clone`
/// first); see `clone_spec`.
pub fn cmd_clone(args: &[Vec<u8>], replies: &[Reply]) -> (a: Action)
    requires
        args.len() >= 1,
    ensures
        a@ == clone_spec(arg_views(args@).skip(1), replies@),
{
    let mut rest: Vec<Vec<u8>> = Vec::new();
    let mut i: usize = 1;
    while i < args.len()
        invariant
            1 <= i <= args.len(),
            arg_views(rest@) == arg_views(args@).subrange(1, i as int),
        decreases args.len() - i,
    {
        let ghost before = arg_views(rest@);
        rest.push(args[i].clone());
        assert(arg_views(rest@) =~= before.push(args@[i as int]@));
        assert(arg_views(args@).subrange(1, i + 1) =~= arg_views(args@).subrange(1, i as int).push(
            args@[i as int]@,
        ));
        i += 1;
    }
    assert(arg_views(args@).subrange(1, args.len() as int) =~= arg_views(args@).skip(1));
    try_clone(rest.as_slice(), replies)
}

} // verus!
