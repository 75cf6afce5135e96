//! Reading ppgit's own command line.
//!
//! An argument is held as the bytes the operating system gave for it, so
//! that arguments that are not valid UTF-8 pass through untouched; where an
//! argument is read as text, an argument that is not valid UTF-8 has none.
use vstd::prelude::*;
use vstd::utf8::{decode_utf8, valid_utf8};

use crate::text::str_eq;

verus! {

/// The text that displaying the bytes `b` shows: each byte sequence that is
/// not valid UTF-8 replaced by U+FFFD (`String::from_utf8_lossy`).
pub uninterp spec fn lossy_spec(b: Seq<u8>) -> Seq<char>;

/// The bytes `b` as text for display.
///
/// Trusted: calls `String::from_utf8_lossy`. The contract claims that the
/// text is `lossy_spec` of the bytes (the same bytes always give the same
/// text), and that bytes that are valid UTF-8 come out as the text they
/// encode; what replaces invalid sequences is left unsaid.
#[verifier::external_body]
pub(crate) fn lossy_text(b: &[u8]) -> (r: String)
    ensures
        r@ == lossy_spec(b@),
        valid_utf8(b@) ==> r@ == decode_utf8(b@),
{
    String::from_utf8_lossy(b).into_owned()
}

/// The text of an argument, if its bytes are valid UTF-8.
///
/// Trusted: calls `std::str::from_utf8`. The contract claims that it
/// succeeds exactly when the bytes are valid UTF-8, and then gives the text
/// they encode.
#[verifier::external_body]
fn utf8_text(bytes: &[u8]) -> (r: Option<String>)
    ensures
        r is Some <==> valid_utf8(bytes@),
        r matches Some(s) ==> s@ == decode_utf8(bytes@),
{
    std::str::from_utf8(bytes).ok().map(|s| s.to_string())
}

/// The text of an argument, if it has one (`OsStr::to_str`).
pub open spec fn arg_text_spec(a: Seq<u8>) -> Option<Seq<char>> {
    if valid_utf8(a) {
        Some(decode_utf8(a))
    } else {
        None
    }
}

/// An optional string, by its characters.
pub open spec fn text_view(o: Option<String>) -> Option<Seq<char>> {
    match o {
        Some(s) => Some(s@),
        None => None,
    }
}

/// The text of an argument, if its bytes are valid UTF-8.
pub fn arg_text(a: &[u8]) -> (r: Option<String>)
    ensures
        text_view(r) == arg_text_spec(a@),
{
    utf8_text(a)
}

/// The arguments, by their bytes.
pub open spec fn arg_views(args: Seq<Vec<u8>>) -> Seq<Seq<u8>> {
    args.map_values(|a: Vec<u8>| a@)
}

/// A copy of the arguments.
pub fn copy_args(args: &[Vec<u8>]) -> (r: Vec<Vec<u8>>)
    ensures
        arg_views(r@) == arg_views(args@),
{
    let r = copy_args_from(args, 0);
    assert(arg_views(args@).skip(0) =~= arg_views(args@));
    r
}

/// Whether an argument reads as exactly `word`.
pub open spec fn arg_is(a: Seq<u8>, word: Seq<char>) -> bool {
    arg_text_spec(a) == Some(word)
}

/// Whether an argument reads as exactly `word`.
pub fn arg_is_word(a: &[u8], word: &str) -> (r: bool)
    ensures
        r == arg_is(a@, word@),
{
    match arg_text(a) {
        Some(t) => str_eq(t.as_str(), word),
        None => false,
    }
}

/// ppgit's own commands.
#[derive(PartialEq, Eq, Structural, Debug, Clone, Copy)]
pub enum Builtin {
    Help,
    Version,
    Init,
    Clone,
    Doctor,
}

/// Which repositories a command addresses.
#[derive(PartialEq, Eq, Structural, Debug, Clone, Copy)]
pub enum Scope {
    Public,
    Private,
    Both,
}

/// The builtin a command line asks for: help for a bare `ppgit` and for
/// `help`, `--help` or `-h`; the version for `--version` or `-V`; `init`,
/// `clone` and `doctor`; and nothing else, which goes to git.
pub open spec fn recognize_spec(args: Seq<Seq<u8>>) -> Option<Builtin> {
    if args.len() == 0 {
        Some(Builtin::Help)
    } else {
        let a = args[0];
        if arg_is(a, "help"@) || arg_is(a, "--help"@) || arg_is(a, "-h"@) {
            Some(Builtin::Help)
        } else if arg_is(a, "--version"@) || arg_is(a, "-V"@) {
            Some(Builtin::Version)
        } else if arg_is(a, "init"@) {
            Some(Builtin::Init)
        } else if arg_is(a, "clone"@) {
            Some(Builtin::Clone)
        } else if arg_is(a, "doctor"@) {
            Some(Builtin::Doctor)
        } else {
            None
        }
    }
}

/// The builtin the command line asks for, if any.
pub fn recognize(args: &[Vec<u8>]) -> (r: Option<Builtin>)
    ensures
        r == recognize_spec(arg_views(args@)),
{
    if args.len() == 0 {
        return Some(Builtin::Help);
    }
    let a = args[0].as_slice();
    assert(arg_views(args@)[0] == args@[0]@);
    if arg_is_word(a, "help") || arg_is_word(a, "--help") || arg_is_word(a, "-h") {
        Some(Builtin::Help)
    } else if arg_is_word(a, "--version") || arg_is_word(a, "-V") {
        Some(Builtin::Version)
    } else if arg_is_word(a, "init") {
        Some(Builtin::Init)
    } else if arg_is_word(a, "clone") {
        Some(Builtin::Clone)
    } else if arg_is_word(a, "doctor") {
        Some(Builtin::Doctor)
    } else {
        None
    }
}

/// The scope a leading flag names: `--public`, `--private` or `--both`.
pub open spec fn scope_flag_spec(a: Seq<u8>) -> Option<Scope> {
    if arg_is(a, "--public"@) {
        Some(Scope::Public)
    } else if arg_is(a, "--private"@) {
        Some(Scope::Private)
    } else if arg_is(a, "--both"@) {
        Some(Scope::Both)
    } else {
        None
    }
}

/// The scope a leading flag names.
pub fn scope_flag(a: &[u8]) -> (r: Option<Scope>)
    ensures
        r == scope_flag_spec(a@),
{
    if arg_is_word(a, "--public") {
        Some(Scope::Public)
    } else if arg_is_word(a, "--private") {
        Some(Scope::Private)
    } else if arg_is_word(a, "--both") {
        Some(Scope::Both)
    } else {
        None
    }
}

/// The scope the command line names with a leading flag, if any.
pub open spec fn explicit_scope(args: Seq<Seq<u8>>) -> Option<Scope> {
    if args.len() > 0 {
        scope_flag_spec(args[0])
    } else {
        None
    }
}

/// The command line without its leading scope flag.
pub open spec fn routed_args(args: Seq<Seq<u8>>) -> Seq<Seq<u8>> {
    if explicit_scope(args) is Some {
        args.skip(1)
    } else {
        args
    }
}

/// The git command named after any leading scope flag, as text.
pub open spec fn routed_command(args: Seq<Seq<u8>>) -> Option<Seq<char>> {
    let rest = routed_args(args);
    if rest.len() > 0 {
        arg_text_spec(rest[0])
    } else {
        None
    }
}

/// The commands that change the working tree or its state, which run
/// against both repositories unless a flag says otherwise.
pub open spec fn dual_by_default(cmd: Seq<char>) -> bool {
    ||| cmd == "add"@
    ||| cmd == "commit"@
    ||| cmd == "status"@
    ||| cmd == "rm"@
    ||| cmd == "mv"@
    ||| cmd == "restore"@
    ||| cmd == "push"@
    ||| cmd == "pull"@
    ||| cmd == "fetch"@
}

/// The commands that move branches.
pub open spec fn is_branch_command(cmd: Seq<char>) -> bool {
    cmd == "branch"@ || cmd == "checkout"@ || cmd == "switch"@ || cmd == "merge"@
}

/// Whether the arguments hold the `--` that starts a list of paths.
pub open spec fn has_separator(args: Seq<Seq<u8>>) -> bool {
    exists|i: int| 0 <= i < args.len() && arg_is(#[trigger] args[i], "--"@)
}

/// Where a command goes.
pub enum Route {
    /// Run the arguments against the repositories of the scope.
    Run(Scope, Vec<Vec<u8>>),
    /// Refuse the named branch command, which a scope flag tried to confine
    /// to one repository.
    Refuse(String),
}

/// A route, by its parts.
pub enum RouteView {
    Run(Scope, Seq<Seq<u8>>),
    Refuse(Seq<char>),
}

impl View for Route {
    type V = RouteView;

    open spec fn view(&self) -> RouteView {
        match self {
            Route::Run(s, a) => RouteView::Run(*s, arg_views(a@)),
            Route::Refuse(c) => RouteView::Refuse(c@),
        }
    }
}

/// Where a command line goes. A leading `--public`, `--private` or `--both`
/// names the repositories; without one, the commands of `dual_by_default`
/// go to both and everything else, which describes history, to the public
/// one. Branch commands always go to both — the two share one working
/// tree, so a branch in one alone would send the next commit where the
/// other cannot follow — and refuse `--public` and `--private`; a
/// `checkout` with `--` is a file operation rather than a branch one, goes
/// to both like `restore`, and takes scope flags as usual.
pub open spec fn route_spec(args: Seq<Seq<u8>>) -> RouteView {
    let rest = routed_args(args);
    let explicit = explicit_scope(args);
    match routed_command(args) {
        Some(cmd) => if is_branch_command(cmd) && !(cmd == "checkout"@ && has_separator(rest)) {
            if explicit == Some(Scope::Public) || explicit == Some(Scope::Private) {
                RouteView::Refuse(cmd)
            } else {
                RouteView::Run(Scope::Both, rest)
            }
        } else {
            match explicit {
                Some(s) => RouteView::Run(s, rest),
                None => RouteView::Run(
                    if dual_by_default(cmd) || cmd == "checkout"@ {
                        Scope::Both
                    } else {
                        Scope::Public
                    },
                    rest,
                ),
            }
        },
        None => RouteView::Run(
            match explicit {
                Some(s) => s,
                None => Scope::Public,
            },
            rest,
        ),
    }
}

/// The arguments from `start` on.
pub fn copy_args_from(args: &[Vec<u8>], start: usize) -> (r: Vec<Vec<u8>>)
    requires
        start <= args.len(),
    ensures
        arg_views(r@) == arg_views(args@).skip(start as int),
{
    let mut r: Vec<Vec<u8>> = Vec::new();
    let mut i: usize = start;
    while i < args.len()
        invariant
            start <= i <= args.len(),
            arg_views(r@) == arg_views(args@).subrange(start as int, i as int),
        decreases args.len() - i,
    {
        let ghost before = arg_views(r@);
        r.push(args[i].clone());
        assert(arg_views(r@) =~= before.push(args@[i as int]@));
        assert(arg_views(args@).subrange(start as int, i + 1) =~= arg_views(args@).subrange(
            start as int,
            i as int,
        ).push(args@[i as int]@));
        i += 1;
    }
    assert(arg_views(args@).subrange(start as int, args.len() as int) =~= arg_views(args@).skip(start as int));
    r
}

/// Whether some argument is exactly `--`.
fn holds_separator(args: &[Vec<u8>]) -> (r: bool)
    ensures
        r == has_separator(arg_views(args@)),
{
    let mut i: usize = 0;
    while i < args.len()
        invariant
            0 <= i <= args.len(),
            forall|j: int| 0 <= j < i ==> !arg_is(#[trigger] arg_views(args@)[j], "--"@),
        decreases args.len() - i,
    {
        assert(arg_views(args@)[i as int] == args@[i as int]@);
        if arg_is_word(args[i].as_slice(), "--") {
            return true;
        }
        i += 1;
    }
    false
}

/// Whether `cmd` is one of `words`.
fn is_one_of(cmd: &str, words: &[&str]) -> (r: bool)
    ensures
        r == exists|i: int| 0 <= i < words.len() && cmd@ == (#[trigger] words@[i])@,
{
    let mut i: usize = 0;
    while i < words.len()
        invariant
            0 <= i <= words.len(),
            forall|j: int| 0 <= j < i ==> cmd@ != (#[trigger] words@[j])@,
        decreases words.len() - i,
    {
        if str_eq(cmd, words[i]) {
            return true;
        }
        i += 1;
    }
    false
}

/// The message that refuses to confine a branch command to one repository.
pub open spec fn refusal_spec(cmd: Seq<char>) -> Seq<char> {
    "ppgit: `"@ + cmd + "` always runs against both repositories — they share one working tree"@
}

/// The message that refuses to confine a branch command to one repository.
pub fn refusal(cmd: &str) -> (r: String)
    ensures
        r@ == refusal_spec(cmd@),
{
    crate::text::cat3("ppgit: `", cmd, "` always runs against both repositories — they share one working tree")
}

/// Where a command line goes; see `route_spec`.
pub fn route(args: &[Vec<u8>]) -> (r: Route)
    ensures
        r@ == route_spec(arg_views(args@)),
{
    let ghost a = arg_views(args@);
    let explicit = if args.len() > 0 {
        assert(a[0] == args@[0]@);
        scope_flag(args[0].as_slice())
    } else {
        None
    };
    let rest = match explicit {
        Some(_) => copy_args_from(args, 1),
        None => copy_args(args),
    };
    assert(arg_views(rest@) == routed_args(a));
    let cmd = if rest.len() > 0 {
        assert(arg_views(rest@)[0] == rest@[0]@);
        arg_text(rest[0].as_slice())
    } else {
        None
    };
    assert(text_view(cmd) == routed_command(a));
    assert(explicit == explicit_scope(a));
    match cmd {
        None => {
            let s = match explicit {
                Some(s) => s,
                None => Scope::Public,
            };
            Route::Run(s, rest)
        },
        Some(c) => {
            let branch = is_one_of(c.as_str(), &["branch", "checkout", "switch", "merge"]);
            let checkout = str_eq(c.as_str(), "checkout");
            proof {
                reveal_strlit("branch");
                reveal_strlit("checkout");
                reveal_strlit("switch");
                reveal_strlit("merge");
                let w = seq!["branch", "checkout", "switch", "merge"];
                assert(branch == is_branch_command(c@)) by {
                    if is_branch_command(c@) {
                        if c@ == "branch"@ { assert(c@ == w[0]@); }
                        if c@ == "checkout"@ { assert(c@ == w[1]@); }
                        if c@ == "switch"@ { assert(c@ == w[2]@); }
                        if c@ == "merge"@ { assert(c@ == w[3]@); }
                    }
                }
            }
            let separated = if checkout {
                holds_separator(rest.as_slice())
            } else {
                false
            };
            assert(checkout == (c@ == "checkout"@));
            assert(checkout ==> separated == has_separator(routed_args(a)));
            if branch && !(checkout && separated) {
                match explicit {
                    Some(Scope::Public) | Some(Scope::Private) => {
                        let r = Route::Refuse(c);
                        assert(r@ == route_spec(a));
                        r
                    },
                    _ => {
                        let r = Route::Run(Scope::Both, rest);
                        assert(r@ == route_spec(a));
                        r
                    },
                }
            } else {
                match explicit {
                    Some(s) => Route::Run(s, rest),
                    None => {
                        let dual = is_one_of(
                            c.as_str(),
                            &["add", "commit", "status", "rm", "mv", "restore", "push", "pull", "fetch"],
                        );
                        proof {
                            reveal_strlit("add");
                            reveal_strlit("commit");
                            reveal_strlit("status");
                            reveal_strlit("rm");
                            reveal_strlit("mv");
                            reveal_strlit("restore");
                            reveal_strlit("push");
                            reveal_strlit("pull");
                            reveal_strlit("fetch");
                            let w = seq!["add", "commit", "status", "rm", "mv", "restore", "push", "pull", "fetch"];
                            assert(dual == dual_by_default(c@)) by {
                                if c@ == "add"@ { assert(c@ == w[0]@); }
                                if c@ == "commit"@ { assert(c@ == w[1]@); }
                                if c@ == "status"@ { assert(c@ == w[2]@); }
                                if c@ == "rm"@ { assert(c@ == w[3]@); }
                                if c@ == "mv"@ { assert(c@ == w[4]@); }
                                if c@ == "restore"@ { assert(c@ == w[5]@); }
                                if c@ == "push"@ { assert(c@ == w[6]@); }
                                if c@ == "pull"@ { assert(c@ == w[7]@); }
                                if c@ == "fetch"@ { assert(c@ == w[8]@); }
                            }
                        }
                        let s = if dual || checkout {
                            Scope::Both
                        } else {
                            Scope::Public
                        };
                        Route::Run(s, rest)
                    },
                }
            }
        },
    }
}

/// Branch commands never run in one repository alone: they run against
/// both, or are refused.
pub proof fn lemma_branch_commands_stay_together(args: Seq<Seq<u8>>)
    requires
        routed_command(args) matches Some(c) && is_branch_command(c) && !(c == "checkout"@
            && has_separator(routed_args(args))),
    ensures
        route_spec(args) matches RouteView::Run(s, _) ==> s == Scope::Both,
{
}

/// Without a scope flag, exactly `add`, `commit`, `status`, `rm`, `mv`,
/// `restore`, `push`, `pull` and `fetch` run against both repositories, and
/// every other command that is not a branch command — everything that
/// describes history — goes to the public repository alone, with the
/// command line as it is.
pub proof fn lemma_default_routes(args: Seq<Seq<u8>>, c: Seq<char>)
    requires
        args.len() > 0,
        arg_text_spec(args[0]) == Some(c),
        c != "--public"@,
        c != "--private"@,
        c != "--both"@,
    ensures
        (c == "add"@ || c == "commit"@ || c == "status"@ || c == "rm"@ || c == "mv"@ || c == "restore"@
            || c == "push"@ || c == "pull"@ || c == "fetch"@) ==> route_spec(args) == RouteView::Run(
            Scope::Both,
            args,
        ),
        (c != "add"@ && c != "commit"@ && c != "status"@ && c != "rm"@ && c != "mv"@ && c != "restore"@
            && c != "push"@ && c != "pull"@ && c != "fetch"@ && c != "branch"@ && c != "checkout"@
            && c != "switch"@ && c != "merge"@) ==> route_spec(args) == RouteView::Run(Scope::Public, args),
{
    assert(explicit_scope(args) is None);
    assert(routed_args(args) == args);
    assert(routed_command(args) == Some(c));
}

/// Whether the command line is a `push`, after any leading scope flag.
pub open spec fn is_push_spec(args: Seq<Seq<u8>>) -> bool {
    routed_command(args) == Some("push"@)
}

/// Whether this is a `push`. Not a builtin — push is still forwarded to git
/// untouched — but it is the one command that has to be stopped while
/// private files are still tracked publicly, since it is the point of no
/// return: everything else stays on this machine.
pub fn is_push(args: &[Vec<u8>]) -> (r: bool)
    ensures
        r == is_push_spec(arg_views(args@)),
{
    if args.len() == 0 {
        return false;
    }
    assert(arg_views(args@)[0] == args@[0]@);
    let first: usize = match scope_flag(args[0].as_slice()) {
        Some(_) => 1,
        None => 0,
    };
    if first >= args.len() {
        assert(routed_args(arg_views(args@)).len() == 0);
        return false;
    }
    assert(routed_args(arg_views(args@))[0] == args@[first as int]@);
    match arg_text(args[first].as_slice()) {
        Some(t) => str_eq(t.as_str(), "push"),
        None => false,
    }
}

} // verus!
