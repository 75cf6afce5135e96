//! What ppgit asks of `gh`, the GitHub command line tool, and how it reads
//! the answers.
use vstd::prelude::*;

use crate::exec::{
    command, quiet_ok_spec, run_quiet_ok, Command, Exit, QuietOutcome, EXIT_FAILURE, message_view,
};
use crate::text::{chars_eq, chars_of, cat2, lines, lines_spec, owned, string_of, string_views, views};

verus! {

/// The prefix that turns a public repository's name into its private
/// counterpart's.
pub const PRIVATE_NAME_PREFIX: &'static str = "pp-";

/// A GitHub repository as `gh` identifies it.
pub struct RepoIdentity {
    /// `owner/name`.
    pub name_with_owner: String,
    /// Whether the repository is private.
    pub is_private: bool,
}

/// The command line of `auth_status_command`.
pub open spec fn auth_status_spec() -> (Seq<char>, Seq<Seq<char>>) {
    ("gh"@, seq!["auth"@, "status"@])
}

/// `gh auth status`: whether gh is installed and logged in.
pub fn auth_status_command() -> (c: Command)
    ensures
        c@ == auth_status_spec(),
{
    let c = command("gh", vec![owned("auth"), owned("status")]);
    assert(string_views(c.args@) =~= seq!["auth"@, "status"@]);
    c
}

/// The message given when gh cannot be used.
pub open spec fn gh_not_ready_message() -> Seq<char> {
    "ppgit: `gh` is not installed or not logged in — run `gh auth login`"@
}

/// Confirms, from the outcome of `auth_status_command`, that gh is installed
/// and logged in; otherwise the exit to give up with. Only once this has
/// succeeded does a repository not being found actually mean it does not
/// exist.
pub fn ensure_gh_ready(outcome: &QuietOutcome) -> (r: Result<(), Exit>)
    ensures
        quiet_ok_spec(*outcome) ==> r is Ok,
        !quiet_ok_spec(*outcome) ==> (r matches Err(e) && e.code == EXIT_FAILURE && message_view(
            e.message,
        ) == Some(gh_not_ready_message())),
{
    if run_quiet_ok(outcome) {
        Ok(())
    } else {
        Err(
            Exit {
                code: EXIT_FAILURE,
                message: Some(
                    owned("ppgit: `gh` is not installed or not logged in — run `gh auth login`"),
                ),
            },
        )
    }
}

/// The command line of `repo_view_command`.
pub open spec fn repo_view_spec(name: Seq<char>) -> (Seq<char>, Seq<Seq<char>>) {
    ("gh"@, seq!["repo"@, "view"@, name])
}

/// `gh repo view <name>`.
pub fn repo_view_command(name: &str) -> (c: Command)
    ensures
        c@ == repo_view_spec(name@),
{
    let c = command("gh", vec![owned("repo"), owned("view"), owned(name)]);
    assert(string_views(c.args@) =~= seq!["repo"@, "view"@, name@]);
    c
}

/// Whether a GitHub repository exists under the authenticated account,
/// given the outcome of `repo_view_command` for it. Only meaningful once
/// `ensure_gh_ready` has succeeded.
pub fn repo_exists(view_outcome: &QuietOutcome) -> (r: bool)
    ensures
        r == quiet_ok_spec(*view_outcome),
{
    run_quiet_ok(view_outcome)
}

/// The command line of `repo_create`.
pub open spec fn repo_create_spec(name: Seq<char>, private: bool) -> (Seq<char>, Seq<Seq<char>>) {
    (
        "gh"@,
        seq![
            "repo"@,
            "create"@,
            name,
            if private {
                "--private"@
            } else {
                "--public"@
            },
        ],
    )
}

/// `gh repo create <name> --private` or `--public`: a new, empty repository,
/// with the remote left for ppgit to wire up itself.
pub fn repo_create(name: &str, private: bool) -> (c: Command)
    ensures
        c@ == repo_create_spec(name@, private),
{
    let visibility = if private {
        "--private"
    } else {
        "--public"
    };
    let c = command("gh", vec![owned("repo"), owned("create"), owned(name), owned(visibility)]);
    assert(string_views(c.args@) =~= seq!["repo"@, "create"@, name@, visibility@]);
    c
}

/// The command line of `protocol_command`.
pub open spec fn protocol_command_spec() -> (Seq<char>, Seq<Seq<char>>) {
    ("gh"@, seq!["config"@, "get"@, "git_protocol"@])
}

/// `gh config get git_protocol`: the protocol gh uses for git operations.
pub fn protocol_command() -> (c: Command)
    ensures
        c@ == protocol_command_spec(),
{
    let c = command("gh", vec![owned("config"), owned("get"), owned("git_protocol")]);
    assert(string_views(c.args@) =~= seq!["config"@, "get"@, "git_protocol"@]);
    c
}

/// The field of `gh repo view --json` that holds the clone URL in the
/// protocol gh is configured for: `sshUrl` for SSH, and `url` (HTTPS)
/// otherwise, including when gh cannot say.
pub open spec fn url_field_spec(protocol: Result<Seq<char>, Seq<char>>) -> Seq<char> {
    if protocol == Ok::<Seq<char>, Seq<char>>("ssh"@) {
        "sshUrl"@
    } else {
        "url"@
    }
}

/// The command line of `repo_url`.
pub open spec fn repo_url_spec(name: Seq<char>, protocol: Result<Seq<char>, Seq<char>>) -> (
    Seq<char>,
    Seq<Seq<char>>,
) {
    (
        "gh"@,
        seq![
            "repo"@,
            "view"@,
            name,
            "--json"@,
            url_field_spec(protocol),
            "-q"@,
            "."@ + url_field_spec(protocol),
        ],
    )
}

/// The command that prints a repository's clone URL, given the answer to
/// `protocol_command` — the same choice `gh repo clone` would make.
pub fn repo_url(name: &str, protocol: &Result<String, String>) -> (c: Command)
    ensures
        c@ == repo_url_spec(name@, crate::exec::result_view(*protocol)),
{
    let ssh = match protocol {
        Ok(p) => {
            let a = chars_of(p.as_str());
            let b = chars_of("ssh");
            chars_eq(a.as_slice(), b.as_slice())
        },
        Err(_) => false,
    };
    let field = if ssh {
        "sshUrl"
    } else {
        "url"
    };
    proof {
        reveal_strlit("ssh");
    }
    assert(field@ == url_field_spec(crate::exec::result_view(*protocol)));
    let c = command(
        "gh",
        vec![
            owned("repo"),
            owned("view"),
            owned(name),
            owned("--json"),
            owned(field),
            owned("-q"),
            cat2(".", field),
        ],
    );
    assert(string_views(c.args@) =~= seq![
        "repo"@,
        "view"@,
        name@,
        "--json"@,
        field@,
        "-q"@,
        "."@ + field@,
    ]);
    c
}

/// The command line of `repo_identity_command`.
pub open spec fn identity_command_spec(repo: Seq<char>) -> (Seq<char>, Seq<Seq<char>>) {
    (
        "gh"@,
        seq![
            "repo"@,
            "view"@,
            repo,
            "--json"@,
            "nameWithOwner,isPrivate"@,
            "--jq"@,
            ".nameWithOwner, .isPrivate"@,
        ],
    )
}

/// `gh repo view <repo> --json nameWithOwner,isPrivate --jq '.nameWithOwner, .isPrivate'`:
/// the repository's full name and visibility, one per line. `repo` may be
/// given any way gh accepts: `name`, `owner/name` or a URL.
pub fn repo_identity_command(repo: &str) -> (c: Command)
    ensures
        c@ == identity_command_spec(repo@),
{
    let c = command(
        "gh",
        vec![
            owned("repo"),
            owned("view"),
            owned(repo),
            owned("--json"),
            owned("nameWithOwner,isPrivate"),
            owned("--jq"),
            owned(".nameWithOwner, .isPrivate"),
        ],
    );
    assert(string_views(c.args@) =~= seq![
        "repo"@,
        "view"@,
        repo@,
        "--json"@,
        "nameWithOwner,isPrivate"@,
        "--jq"@,
        ".nameWithOwner, .isPrivate"@,
    ]);
    c
}

/// The identity in the output of `repo_identity_command`: exactly two
/// lines, the full name and then `true` or `false`.
pub open spec fn identity_spec(out: Seq<char>) -> Option<(Seq<char>, bool)> {
    let l = lines_spec(out);
    if l.len() == 2 && (l[1] == "true"@ || l[1] == "false"@) {
        Some((l[0], l[1] == "true"@))
    } else {
        None
    }
}

/// The message for output that is not an identity.
pub open spec fn bad_identity_message(out: Seq<char>) -> Seq<char> {
    "gh returned an unexpected repository description: "@ + out
}

/// Reads the output of `repo_identity_command`.
pub fn parse_repo_identity(out: &str) -> (r: Result<RepoIdentity, String>)
    ensures
        match identity_spec(out@) {
            Some((name, private)) => (r matches Ok(id) && id.name_with_owner@ == name
                && id.is_private == private),
            None => (r matches Err(e) && e@ == bad_identity_message(out@)),
        },
{
    let o = chars_of(out);
    let l = lines(o.as_slice());
    proof {
        reveal_strlit("true");
        reveal_strlit("false");
    }
    if l.len() == 2 {
        let t = chars_of("true");
        let f = chars_of("false");
        let is_true = chars_eq(l[1].as_slice(), t.as_slice());
        let is_false = chars_eq(l[1].as_slice(), f.as_slice());
        assert(views(l@)[1] == l@[1]@);
        if is_true || is_false {
            assert(views(l@)[0] == l@[0]@);
            return Ok(RepoIdentity { name_with_owner: string_of(l[0].as_slice()), is_private: is_true });
        }
    }
    Err(cat2("gh returned an unexpected repository description: ", out))
}

} // verus!
