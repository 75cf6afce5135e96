//! ppgit's own commands.
use vstd::prelude::*;

use crate::text::{cat5, owned};

pub mod clone;
pub mod commit;
pub mod doctor;
pub mod init;

verus! {

/// The text `ppgit --help` prints, for the given version and project URL.
pub open spec fn help_spec(version: Seq<char>, repository: Seq<char>) -> Seq<char> {
    "ppgit "@ + version + " — passthrough wrapper around git

Usage:
ppgit <git-command> [args...]
pp <git-command> [args...]      (alias for ppgit)

Every command is forwarded to git as-is — `ppgit status` is exactly
`git status`. Run `git --help` for git's own commands and flags.

"@ + repository
}

/// What `ppgit --help` prints.
pub fn cmd_help(version: &str, repository: &str) -> (r: String)
    ensures
        r@ == help_spec(version@, repository@),
{
    let mut r = owned("ppgit ");
    r.append(version);
    r.append(
        " — passthrough wrapper around git

Usage:
ppgit <git-command> [args...]
pp <git-command> [args...]      (alias for ppgit)

Every command is forwarded to git as-is — `ppgit status` is exactly
`git status`. Run `git --help` for git's own commands and flags.

",
    );
    r.append(repository);
    r
}

/// What `ppgit --version` prints.
pub fn cmd_version(version: &str) -> (r: String)
    ensures
        r@ == "ppgit "@ + version@,
{
    let mut r = owned("ppgit ");
    r.append(version);
    r
}

} // verus!
