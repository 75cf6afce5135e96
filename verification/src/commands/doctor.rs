//! `ppgit doctor`: checks that the two halves are in step, and reports
//! rather than repairs.
//!
//! Each check takes the answers to the git (and gh) queries it needs and
//! turns them into a finding; a check whose later queries depend on earlier
//! answers asks for them one at a time (see `Probe`).
use vstd::prelude::*;

use crate::cli::arg_views;
use crate::exec::{command, result_view, Command, EXIT_FAILURE, EXIT_SUCCESS, PRIVATE_GIT_ARG};
use crate::flow::{
    io_result, io_result_exec, loud_exit, loud_exit_exec, quiet_result, quiet_result_exec, warn_then_fail,
    warn_then_fail_exec, Action, ActionView, IoStep, IoStepView, Reply,
};
use crate::ppgitignore::{nonempty_lines, tracked_but_ignored, PPGITIGNORE, PRIVATE_GIT_DIR, PUBLIC_GIT_DIR};
use crate::text::{
    cat2, cat3, cat4, cat5, chars_of, decimal, decimal_text, ends_with, ends_with_spec,
    extend_strings, join, join_spec, owned, prefix_all, prefixed, string_of_range, string_views,
};

verus! {

/// How much a finding matters. Only `Problem` decides the exit code.
#[derive(PartialEq, Eq, Structural, Debug, Clone, Copy)]
pub enum Level {
    Fine,
    Note,
    Problem,
}

/// One line of the report, plus however many lines of explanation and
/// remedy it needs.
pub struct Finding {
    pub level: Level,
    pub headline: String,
    pub detail: Vec<String>,
}

impl View for Finding {
    type V = (Level, Seq<char>, Seq<Seq<char>>);

    open spec fn view(&self) -> (Level, Seq<char>, Seq<Seq<char>>) {
        (self.level, self.headline@, string_views(self.detail@))
    }
}

impl Finding {
    /// A finding that all is well.
    pub fn ok(headline: String) -> (f: Finding)
        ensures
            f@ == (Level::Fine, headline@, Seq::<Seq<char>>::empty()),
    {
        let f = Finding { level: Level::Fine, headline, detail: Vec::new() };
        assert(string_views(f.detail@) =~= Seq::<Seq<char>>::empty());
        f
    }

    /// A finding worth saying out loud that is no problem.
    pub fn note(headline: String, detail: Vec<String>) -> (f: Finding)
        ensures
            f@ == (Level::Note, headline@, string_views(detail@)),
    {
        Finding { level: Level::Note, headline, detail }
    }

    /// A finding that something is wrong.
    pub fn problem(headline: String, detail: Vec<String>) -> (f: Finding)
        ensures
            f@ == (Level::Problem, headline@, string_views(detail@)),
    {
        Finding { level: Level::Problem, headline, detail }
    }

    /// The lines of the report for this finding: the level right-aligned in
    /// eight columns, two spaces and the headline, then each line of detail
    /// indented by ten spaces.
    pub fn report(&self) -> (r: Vec<String>)
        ensures
            string_views(r@) == report_spec(self@),
    {
        let tag = match self.level {
            Level::Fine => "      ok",
            Level::Note => "    note",
            Level::Problem => " PROBLEM",
        };
        let mut r = vec![cat3(tag, "  ", self.headline.as_str())];
        let ghost first = string_views(r@);
        let d = prefix_all("          ", self.detail.as_slice());
        extend_strings(&mut r, d);
        assert(first =~= seq![tag_spec(self.level) + "  "@ + self.headline@]);
        r
    }
}

/// The level as the report shows it, right-aligned in eight columns.
pub open spec fn tag_spec(level: Level) -> Seq<char> {
    match level {
        Level::Fine => "      ok"@,
        Level::Note => "    note"@,
        Level::Problem => " PROBLEM"@,
    }
}

/// The report lines for a finding.
pub open spec fn report_spec(f: (Level, Seq<char>, Seq<Seq<char>>)) -> Seq<Seq<char>> {
    seq![tag_spec(f.0) + "  "@ + f.1] + prefixed("          "@, f.2)
}

/// One of the two repositories, as `doctor` addresses it.
#[derive(PartialEq, Eq, Structural, Debug, Clone, Copy)]
pub enum Half {
    Public,
    Private,
}

/// How a half is named in the report.
pub open spec fn half_name(h: Half) -> Seq<char> {
    match h {
        Half::Public => "public"@,
        Half::Private => "private"@,
    }
}

/// A half's git-dir.
pub open spec fn half_git_dir(h: Half) -> Seq<char> {
    match h {
        Half::Public => PUBLIC_GIT_DIR@,
        Half::Private => PRIVATE_GIT_DIR@,
    }
}

/// The arguments that point git at a half.
pub open spec fn half_args(h: Half) -> Seq<Seq<char>> {
    match h {
        Half::Public => seq![],
        Half::Private => seq![PRIVATE_GIT_ARG@],
    }
}

impl Half {
    /// How the half is named in the report.
    pub fn name(&self) -> (r: &'static str)
        ensures
            r@ == half_name(*self),
    {
        match self {
            Half::Public => "public",
            Half::Private => "private",
        }
    }

    /// The half's git-dir.
    pub fn git_dir(&self) -> (r: &'static str)
        ensures
            r@ == half_git_dir(*self),
    {
        match self {
            Half::Public => PUBLIC_GIT_DIR,
            Half::Private => PRIVATE_GIT_DIR,
        }
    }
}

/// A git command against one half: the half's arguments, then `args`.
pub fn git_query(half: Half, args: Vec<String>) -> (c: Command)
    ensures
        c@ == ("git"@, half_args(half) + string_views(args@)),
{
    let mut full: Vec<String> = Vec::new();
    if half == Half::Private {
        full.push(owned(PRIVATE_GIT_ARG));
    }
    assert(string_views(full@) =~= half_args(half));
    extend_strings(&mut full, args);
    command("git", full)
}

/// `git [<half>] symbolic-ref --short HEAD`: the branch a half is on.
pub fn head_query(half: Half) -> (c: Command)
    ensures
        c@ == ("git"@, half_args(half) + seq!["symbolic-ref"@, "--short"@, "HEAD"@]),
{
    let args = vec![owned("symbolic-ref"), owned("--short"), owned("HEAD")];
    assert(string_views(args@) =~= seq!["symbolic-ref"@, "--short"@, "HEAD"@]);
    git_query(half, args)
}

/// `git [<half>] fetch --quiet`, run with the terminal attached since a
/// fetch may need to prompt for credentials.
pub fn fetch_command(half: Half) -> (c: Command)
    ensures
        c@ == ("git"@, half_args(half) + seq!["fetch"@, "--quiet"@]),
{
    let args = vec![owned("fetch"), owned("--quiet")];
    assert(string_views(args@) =~= seq!["fetch"@, "--quiet"@]);
    git_query(half, args)
}

// ---------------------------------------------------------------------------
// URLs
// ---------------------------------------------------------------------------

/// `s` without any trailing `/`.
pub open spec fn trim_slashes_spec(s: Seq<char>) -> Seq<char>
    decreases s.len(),
{
    if s.len() > 0 && s.last() == '/' {
        trim_slashes_spec(s.drop_last())
    } else {
        s
    }
}

/// A URL without trailing slashes and then without a `.git` suffix.
pub open spec fn normalise_spec(url: Seq<char>) -> Seq<char> {
    let u = trim_slashes_spec(url);
    if ends_with_spec(u, ".git"@) {
        u.take(u.len() - 4)
    } else {
        u
    }
}

/// Trims the decorations that make two spellings of the same remote look
/// different: `gh` reports `https://github.com/o/n` where a configured
/// origin is usually `https://github.com/o/n.git`.
pub fn normalise_url(url: &str) -> (r: String)
    ensures
        r@ == normalise_spec(url@),
{
    let v = chars_of(url);
    let mut end: usize = v.len();
    assert(v@.take(end as int) =~= v@);
    while end > 0 && v[end - 1] == '/'
        invariant
            0 <= end <= v.len(),
            trim_slashes_spec(v@) == trim_slashes_spec(v@.take(end as int)),
        decreases end,
    {
        assert(v@.take(end as int).drop_last() =~= v@.take(end - 1));
        end -= 1;
    }
    let u = crate::text::slice_vec(v.as_slice(), 0, end);
    assert(u@ =~= v@.take(end as int));
    let suffix = chars_of(".git");
    proof {
        reveal_strlit(".git");
    }
    if ends_with(u.as_slice(), suffix.as_slice()) {
        let r = string_of_range(u.as_slice(), 0, u.len() - 4);
        assert(u@.subrange(0, u.len() - 4) =~= u@.take(u@.len() - 4));
        r
    } else {
        string_of_range(u.as_slice(), 0, u.len())
    }
}

/// The spellings `gh` and git disagree on normalise alike: a URL, the URL
/// with `.git`, with a trailing `/`, or with both, all come to the URL
/// itself, for a URL that has neither decoration.
pub proof fn lemma_normalise_spellings(url: Seq<char>)
    requires
        !ends_with_spec(url, "/"@),
        !ends_with_spec(url, ".git"@),
    ensures
        normalise_spec(url) == url,
        normalise_spec(url + ".git"@) == url,
        normalise_spec(url + "/"@) == url,
        normalise_spec(url + ".git/"@) == url,
{
    reveal_strlit("/");
    reveal_strlit(".git");
    assert("/"@ =~= seq!['/']);
    if url.len() > 0 {
        assert(url.skip(url.len() - 1) =~= seq![url.last()]);
        if url.last() == '/' {
            assert(ends_with_spec(url, "/"@));
        }
    }
    assert(trim_slashes_spec(url) == url);
    let g = url + ".git"@;
    assert(g.last() == 't');
    assert(trim_slashes_spec(g) == g);
    assert(g.skip(g.len() - 4) =~= ".git"@);
    assert(g.take(g.len() - 4) =~= url);
    let s = url + "/"@;
    assert(s.drop_last() =~= url);
    assert(trim_slashes_spec(s) == trim_slashes_spec(url));
    reveal_strlit(".git/");
    let h = url + ".git/"@;
    assert(h.drop_last() =~= g);
    assert(h.last() == '/');
    assert(trim_slashes_spec(h) == trim_slashes_spec(g));
}

// ---------------------------------------------------------------------------
// Checks that need at most one answer per half
// ---------------------------------------------------------------------------

/// The finding for refreshing the remote-tracking refs: nothing when both
/// fetches worked, otherwise a note naming the halves that could not fetch.
pub open spec fn refresh_spec(public_fetched: bool, private_fetched: bool) -> Option<
    (Level, Seq<char>, Seq<Seq<char>>),
> {
    let stale = (if public_fetched {
        Seq::<Seq<char>>::empty()
    } else {
        seq!["public"@]
    }) + (if private_fetched {
        Seq::<Seq<char>>::empty()
    } else {
        seq!["private"@]
    });
    if stale.len() == 0 {
        None
    } else {
        Some(
            (
                Level::Note,
                "could not fetch the "@ + join_spec(stale, " and "@) + " remote(s)"@,
                seq![
                    "Everything below is compared against the last state ppgit saw, which"@,
                    "may be out of date."@,
                ],
            ),
        )
    }
}

/// An optional finding, by its parts.
pub open spec fn opt_finding(f: Option<Finding>) -> Option<(Level, Seq<char>, Seq<Seq<char>>)> {
    match f {
        Some(x) => Some(x@),
        None => None,
    }
}

/// Being offline isn't fatal: the comparisons are still worth making
/// against what was last seen, as long as the report says so. Takes whether
/// each half's `fetch_command` succeeded.
pub fn refresh_remotes(public_fetched: bool, private_fetched: bool) -> (r: Option<Finding>)
    ensures
        opt_finding(r) == refresh_spec(public_fetched, private_fetched),
{
    let mut stale: Vec<String> = Vec::new();
    if !public_fetched {
        stale.push(owned("public"));
    }
    if !private_fetched {
        stale.push(owned("private"));
    }
    assert(string_views(stale@) =~= (if public_fetched {
        Seq::<Seq<char>>::empty()
    } else {
        seq!["public"@]
    }) + (if private_fetched {
        Seq::<Seq<char>>::empty()
    } else {
        seq!["private"@]
    }));
    if stale.len() == 0 {
        return None;
    }
    let names = join(stale.as_slice(), " and ");
    let detail = vec![
        owned("Everything below is compared against the last state ppgit saw, which"),
        owned("may be out of date."),
    ];
    let f = Finding::note(cat3("could not fetch the ", names.as_str(), " remote(s)"), detail);
    assert(string_views(detail@) =~= seq![
        "Everything below is compared against the last state ppgit saw, which"@,
        "may be out of date."@,
    ]);
    Some(f)
}

/// The finding for the two halves' branches, given the answers to
/// `head_query` for each.
pub open spec fn branches_spec(
    public: Result<Seq<char>, Seq<char>>,
    private: Result<Seq<char>, Seq<char>>,
) -> (Level, Seq<char>, Seq<Seq<char>>) {
    match (public, private) {
        (Ok(p), Ok(q)) => if p == q {
            (Level::Fine, "branches: both halves on "@ + p, seq![])
        } else {
            (
                Level::Problem,
                "branches: public on "@ + p + ", private on "@ + q,
                seq![
                    "The two share one working tree, so the next commit would land where"@,
                    "its counterpart cannot follow."@,
                    "Fix: pp checkout "@ + q,
                ],
            )
        },
        _ => (
            Level::Problem,
            "branches: could not read HEAD in both halves"@,
            seq!["Is this still a ppgit project?"@],
        ),
    }
}

/// Checks that both halves are on the same branch.
pub fn check_branches(public: &Result<String, String>, private: &Result<String, String>) -> (r:
    Finding)
    ensures
        r@ == branches_spec(result_view(*public), result_view(*private)),
{
    match (public, private) {
        (Ok(p), Ok(q)) => {
            if crate::text::str_eq(p.as_str(), q.as_str()) {
                Finding::ok(cat2("branches: both halves on ", p.as_str()))
            } else {
                let detail = vec![
                    owned("The two share one working tree, so the next commit would land where"),
                    owned("its counterpart cannot follow."),
                    cat2("Fix: pp checkout ", q.as_str()),
                ];
                let ghost d = string_views(detail@);
                let f = Finding::problem(
                    cat4("branches: public on ", p.as_str(), ", private on ", q.as_str()),
                    detail,
                );
                assert(d =~= seq![
                    "The two share one working tree, so the next commit would land where"@,
                    "its counterpart cannot follow."@,
                    "Fix: pp checkout "@ + q@,
                ]);
                f
            }
        },
        _ => {
            let detail = vec![owned("Is this still a ppgit project?")];
            let ghost d = string_views(detail@);
            let f = Finding::problem(owned("branches: could not read HEAD in both halves"), detail);
            assert(d =~= seq!["Is this still a ppgit project?"@]);
            f
        },
    }
}

/// `git [<half>] config --get remote.origin.fetch`.
pub fn refspec_query(half: Half) -> (c: Command)
    ensures
        c@ == ("git"@, half_args(half) + seq!["config"@, "--get"@, "remote.origin.fetch"@]),
{
    let args = vec![owned("config"), owned("--get"), owned("remote.origin.fetch")];
    assert(string_views(args@) =~= seq!["config"@, "--get"@, "remote.origin.fetch"@]);
    git_query(half, args)
}

/// The finding for a half's fetch refspec, given whether `refspec_query`
/// succeeded.
pub open spec fn refspec_spec(half: Half, found: bool) -> (Level, Seq<char>, Seq<Seq<char>>) {
    if found {
        (Level::Fine, half_name(half) + ": fetch refspec configured"@, seq![])
    } else {
        (
            Level::Problem,
            half_name(half) + ": no fetch refspec"@,
            seq![
                "Nothing will ever land in refs/remotes/origin/*, so no branch can have"@,
                "an upstream and `pull` is left guessing."@,
                "Fix: git --git-dir="@ + half_git_dir(half)
                    + " config remote.origin.fetch '+refs/heads/*:refs/remotes/origin/*'"@,
            ],
        )
    }
}

/// A fetch refspec is what makes a remote-tracking branch exist at all;
/// without one `pull` falls back to guessing while appearing to work.
pub fn check_fetch_refspec(half: Half, found: bool) -> (r: Finding)
    ensures
        r@ == refspec_spec(half, found),
{
    if found {
        return Finding::ok(cat2(half.name(), ": fetch refspec configured"));
    }
    let detail = vec![
        owned("Nothing will ever land in refs/remotes/origin/*, so no branch can have"),
        owned("an upstream and `pull` is left guessing."),
        cat3(
            "Fix: git --git-dir=",
            half.git_dir(),
            " config remote.origin.fetch '+refs/heads/*:refs/remotes/origin/*'",
        ),
    ];
    let ghost d = string_views(detail@);
    let f = Finding::problem(cat2(half.name(), ": no fetch refspec"), detail);
    assert(d =~= refspec_spec(half, found).2);
    f
}

/// The finding for the layout, given whether `.ppgitignore` exists.
pub open spec fn layout_spec(listed: bool) -> (Level, Seq<char>, Seq<Seq<char>>) {
    if listed {
        (
            Level::Fine,
            "layout: "@ + PUBLIC_GIT_DIR@ + ", "@ + PRIVATE_GIT_DIR@ + " and "@ + PPGITIGNORE@
                + " present"@,
            seq![],
        )
    } else {
        (
            Level::Note,
            "layout: no "@ + PPGITIGNORE@,
            seq![
                "Without it nothing is private: the public half is excluding only the"@,
                "private git-dir itself."@,
            ],
        )
    }
}

/// Checks that `.ppgitignore` is there; without it nothing is private.
pub fn check_layout(listed: bool) -> (r: Finding)
    ensures
        r@ == layout_spec(listed),
{
    if listed {
        let mut h = cat5("layout: ", PUBLIC_GIT_DIR, ", ", PRIVATE_GIT_DIR, " and ");
        h.append(PPGITIGNORE);
        h.append(" present");
        return Finding::ok(h);
    }
    let detail = vec![
        owned("Without it nothing is private: the public half is excluding only the"),
        owned("private git-dir itself."),
    ];
    let ghost d = string_views(detail@);
    let f = Finding::note(cat2("layout: no ", PPGITIGNORE), detail);
    assert(d =~= layout_spec(listed).2);
    f
}

/// The finding for files tracked publicly despite being listed, given the
/// listing of them (or why it could not be had).
pub open spec fn tracked_spec(listing: Result<Seq<char>, Seq<char>>) -> (Level, Seq<char>, Seq<
    Seq<char>,
>) {
    match listing {
        Err(e) => (
            Level::Note,
            PPGITIGNORE@ + ": could not check for tracked-but-ignored files"@,
            seq![e],
        ),
        Ok(l) => {
            let conflicts = nonempty_lines(l);
            if conflicts.len() == 0 {
                (Level::Fine, PPGITIGNORE@ + ": nothing listed is tracked publicly"@, seq![])
            } else {
                (
                    Level::Problem,
                    PPGITIGNORE@ + ": private files are tracked publicly"@,
                    seq![
                        decimal(conflicts.len()) + " file(s) listed as private but tracked publicly:"@,
                    ] + prefixed("    "@, conflicts) + seq![
                        "These keep going out with every push. To untrack them, keeping the"@,
                        "files on disk and in the private repository:"@,
                    ] + prefixed("    git rm --cached -- "@, conflicts) + seq![
                        "then commit that removal to the public repository."@,
                    ],
                )
            }
        },
    }
}

/// Files the public repository still tracks despite `.ppgitignore` listing
/// them, given the output of the `tracked_but_ignored` query.
pub fn check_tracked_but_ignored(listing: &Result<String, String>) -> (r: Finding)
    ensures
        r@ == tracked_spec(result_view(*listing)),
{
    match listing {
        Err(e) => {
            let detail = vec![owned(e.as_str())];
            let ghost d = string_views(detail@);
            let f = Finding::note(
                cat2(PPGITIGNORE, ": could not check for tracked-but-ignored files"),
                detail,
            );
            assert(d =~= seq![e@]);
            f
        },
        Ok(l) => {
            let conflicts = tracked_but_ignored(l.as_str());
            if conflicts.len() == 0 {
                return Finding::ok(cat2(PPGITIGNORE, ": nothing listed is tracked publicly"));
            }
            let ghost c = string_views(conflicts@);
            let count = decimal_text(conflicts.len() as u64);
            let mut detail = vec![
                cat2(count.as_str(), " file(s) listed as private but tracked publicly:"),
            ];
            let ghost d0 = string_views(detail@);
            extend_strings(&mut detail, prefix_all("    ", conflicts.as_slice()));
            let more = vec![
                owned("These keep going out with every push. To untrack them, keeping the"),
                owned("files on disk and in the private repository:"),
            ];
            let ghost m = string_views(more@);
            extend_strings(&mut detail, more);
            extend_strings(&mut detail, prefix_all("    git rm --cached -- ", conflicts.as_slice()));
            let last = vec![owned("then commit that removal to the public repository.")];
            let ghost z = string_views(last@);
            extend_strings(&mut detail, last);
            assert(d0 =~= seq![
                decimal(c.len()) + " file(s) listed as private but tracked publicly:"@,
            ]);
            assert(m =~= seq![
                "These keep going out with every push. To untrack them, keeping the"@,
                "files on disk and in the private repository:"@,
            ]);
            assert(z =~= seq!["then commit that removal to the public repository."@]);
            Finding::problem(cat2(PPGITIGNORE, ": private files are tracked publicly"), detail)
        },
    }
}

// ---------------------------------------------------------------------------
// The report as a whole
// ---------------------------------------------------------------------------

/// How many of `levels` are `level`.
pub open spec fn count_level(levels: Seq<Level>, level: Level) -> nat
    decreases levels.len(),
{
    if levels.len() == 0 {
        0
    } else {
        count_level(levels.drop_last(), level) + if levels.last() == level {
            1nat
        } else {
            0nat
        }
    }
}

/// The levels of the findings.
pub open spec fn view_levels(fs: Seq<(Level, Seq<char>, Seq<Seq<char>>)>) -> Seq<Level> {
    fs.map_values(|f: (Level, Seq<char>, Seq<Seq<char>>)| f.0)
}

/// The closing line of the report.
pub open spec fn summary_spec(problems: nat, notes: nat) -> Seq<char> {
    if problems == 0 && notes == 0 {
        "Everything checks out."@
    } else if problems == 0 {
        "No problems, "@ + decimal(notes) + " note(s)."@
    } else {
        decimal(problems) + " problem(s), "@ + decimal(notes) + " note(s)."@
    }
}

/// The report that follows the heading: each finding's lines, a blank line
/// and the closing line, which counts the problems and the notes.
pub open spec fn report_lines_spec(fs: Seq<(Level, Seq<char>, Seq<Seq<char>>)>) -> Seq<Seq<char>> {
    fs.map_values(|f: (Level, Seq<char>, Seq<Seq<char>>)| report_spec(f)).flatten() + seq![
        ""@,
        summary_spec(
            count_level(view_levels(fs), Level::Problem),
            count_level(view_levels(fs), Level::Note),
        ),
    ]
}

/// The exit code of the report: failure exactly when some finding is a
/// problem.
pub open spec fn report_code_spec(fs: Seq<(Level, Seq<char>, Seq<Seq<char>>)>) -> u8 {
    if count_level(view_levels(fs), Level::Problem) > 0 {
        EXIT_FAILURE
    } else {
        EXIT_SUCCESS
    }
}

/// The findings, by their parts.
pub open spec fn finding_views(findings: Seq<Finding>) -> Seq<(Level, Seq<char>, Seq<Seq<char>>)> {
    findings.map_values(|f: Finding| f@)
}

/// What `doctor` prints after its heading, and exits with.
pub struct Report {
    pub lines: Vec<String>,
    pub code: u8,
}

/// Counts the findings of one level.
fn count(findings: &[Finding], level: Level) -> (n: usize)
    ensures
        n == count_level(view_levels(finding_views(findings@)), level),
{
    let ghost ls = view_levels(finding_views(findings@));
    let mut n: usize = 0;
    let mut i: usize = 0;
    while i < findings.len()
        invariant
            0 <= i <= findings.len(),
            ls == view_levels(finding_views(findings@)),
            n == count_level(ls.take(i as int), level),
            n <= i,
        decreases findings.len() - i,
    {
        assert(ls.take(i + 1).drop_last() =~= ls.take(i as int));
        assert(ls[i as int] == findings@[i as int].level);
        if findings[i].level == level {
            n += 1;
        }
        i += 1;
    }
    assert(ls.take(findings.len() as int) =~= ls);
    n
}

/// The closing line of the report.
fn summary(problems: usize, notes: usize) -> (r: String)
    ensures
        r@ == summary_spec(problems as nat, notes as nat),
{
    if problems == 0 && notes == 0 {
        owned("Everything checks out.")
    } else if problems == 0 {
        cat3("No problems, ", decimal_text(notes as u64).as_str(), " note(s).")
    } else {
        let mut r = cat3(decimal_text(problems as u64).as_str(), " problem(s), ", decimal_text(notes as u64).as_str());
        r.append(" note(s).");
        r
    }
}

/// The report for the findings, and the exit code: failure exactly when
/// some finding is a problem, so the report can gate a script.
pub fn doctor_report(findings: &[Finding]) -> (r: Report)
    ensures
        string_views(r.lines@) == report_lines_spec(finding_views(findings@)),
        r.code == report_code_spec(finding_views(findings@)),
        r.code == EXIT_FAILURE <==> exists|i: int|
            0 <= i < findings.len() && (#[trigger] findings@[i]).level == Level::Problem,
{
    let ghost fv = finding_views(findings@);
    let ghost reports = fv.map_values(|f: (Level, Seq<char>, Seq<Seq<char>>)| report_spec(f));
    let mut lines: Vec<String> = Vec::new();
    assert(reports.take(0).flatten() =~= Seq::<Seq<char>>::empty());
    assert(string_views(lines@) =~= reports.take(0).flatten());
    let mut i: usize = 0;
    while i < findings.len()
        invariant
            0 <= i <= findings.len(),
            fv == finding_views(findings@),
            reports == fv.map_values(|f: (Level, Seq<char>, Seq<Seq<char>>)| report_spec(f)),
            string_views(lines@) == reports.take(i as int).flatten(),
        decreases findings.len() - i,
    {
        let part = findings[i].report();
        let ghost p = string_views(part@);
        extend_strings(&mut lines, part);
        proof {
            assert(reports.take(i + 1) =~= reports.take(i as int).push(reports[i as int]));
            reports.take(i as int).lemma_flatten_push(reports[i as int]);
            assert(reports[i as int] == p);
        }
        i += 1;
    }
    assert(reports.take(findings.len() as int) =~= reports);
    let problems = count(findings, Level::Problem);
    let notes = count(findings, Level::Note);
    let ghost before = string_views(lines@);
    lines.push(owned(""));
    let s = summary(problems, notes);
    let ghost sv = s@;
    lines.push(s);
    assert(string_views(lines@) =~= before + seq![""@, sv]);
    proof {
        lemma_count_positive(view_levels(fv), Level::Problem);
        assert forall|i: int| 0 <= i < findings.len() implies (#[trigger] findings@[i]).level
            == view_levels(fv)[i] by {}
    }
    let code = if problems > 0 {
        EXIT_FAILURE
    } else {
        EXIT_SUCCESS
    };
    Report { lines, code }
}

/// A level occurs among `levels` exactly when it is counted at least once.
proof fn lemma_count_positive(levels: Seq<Level>, level: Level)
    ensures
        count_level(levels, level) > 0 <==> exists|i: int| 0 <= i < levels.len() && levels[i] == level,
    decreases levels.len(),
{
    if levels.len() > 0 {
        let init = levels.drop_last();
        lemma_count_positive(init, level);
        if exists|i: int| 0 <= i < init.len() && init[i] == level {
            let i = choose|i: int| 0 <= i < init.len() && init[i] == level;
            assert(levels[i] == level);
        }
        if exists|i: int| 0 <= i < levels.len() && levels[i] == level {
            let i = choose|i: int| 0 <= i < levels.len() && levels[i] == level;
            if i < levels.len() - 1 {
                assert(init[i] == level);
            }
        }
    }
}

/// What `doctor` says when given arguments.
pub open spec fn doctor_usage_spec() -> Seq<Seq<char>> {
    seq!["usage: ppgit doctor"@, "  Checks the two halves are in step. Takes no arguments."@]
}

/// What `doctor` says when given arguments.
pub fn doctor_usage() -> (r: Vec<String>)
    ensures
        string_views(r@) == doctor_usage_spec(),
{
    let r = vec![
        owned("usage: ppgit doctor"),
        owned("  Checks the two halves are in step. Takes no arguments."),
    ];
    assert(string_views(r@) =~= doctor_usage_spec());
    r
}

/// What `doctor` says outside a ppgit project.
pub open spec fn not_a_project_spec() -> Seq<Seq<char>> {
    seq![
        "ppgit: not a ppgit project — expected both "@ + PUBLIC_GIT_DIR@ + " and "@ + PRIVATE_GIT_DIR@
            + " here"@,
        "  `ppgit init` sets a project up, `ppgit clone` fetches an existing one."@,
    ]
}

/// What `doctor` says outside a ppgit project.
pub fn not_a_project() -> (r: Vec<String>)
    ensures
        string_views(r@) == not_a_project_spec(),
{
    let mut first = cat4("ppgit: not a ppgit project — expected both ", PUBLIC_GIT_DIR, " and ", PRIVATE_GIT_DIR);
    first.append(" here");
    let r = vec![first, owned("  `ppgit init` sets a project up, `ppgit clone` fetches an existing one.")];
    assert(string_views(r@) =~= not_a_project_spec());
    r
}

// ---------------------------------------------------------------------------
// Checks that ask their questions one at a time
// ---------------------------------------------------------------------------

/// The next step of a check: a query to answer, or the finding.
pub enum Probe {
    /// Run this command quietly and hand its result back with the others.
    Ask(Command),
    /// The check is done.
    Found(Finding),
}

/// A probe, by its parts.
pub enum ProbeView {
    Ask((Seq<char>, Seq<Seq<char>>)),
    Found((Level, Seq<char>, Seq<Seq<char>>)),
}

impl View for Probe {
    type V = ProbeView;

    open spec fn view(&self) -> ProbeView {
        match self {
            Probe::Ask(c) => ProbeView::Ask(c@),
            Probe::Found(f) => ProbeView::Found(f@),
        }
    }
}

/// The answers so far, by their text.
pub open spec fn answers_view(answers: Seq<Result<String, String>>) -> Seq<Result<Seq<char>, Seq<char>>> {
    answers.map_values(|a: Result<String, String>| result_view(a))
}

/// The command line of a git query against a half.
pub open spec fn git_spec(half: Half, args: Seq<Seq<char>>) -> (Seq<char>, Seq<Seq<char>>) {
    ("git"@, half_args(half) + args)
}

/// A count from `rev-list --count` output: the word at `i`, read as a
/// number, or zero when there is no such word or it is not a number.
pub open spec fn count_field(words: Seq<Seq<char>>, i: int) -> u32 {
    if i < words.len() {
        match crate::text::parse_u32_spec(words[i]) {
            Some(n) => n,
            None => 0,
        }
    } else {
        0
    }
}

/// The finding for a half whose branch and upstream have been compared.
pub open spec fn counts_finding(half: Half, branch: Seq<char>, upstream: Seq<char>, counts: Seq<char>) -> (
    Level,
    Seq<char>,
    Seq<Seq<char>>,
) {
    let w = crate::text::words_spec(counts);
    let ahead = count_field(w, 0);
    let behind = count_field(w, 1);
    let name = half_name(half);
    if ahead == 0 && behind == 0 {
        (Level::Fine, name + ": "@ + branch + " in step with "@ + upstream, seq![])
    } else if behind == 0 {
        (Level::Note, name + ": "@ + decimal(ahead as nat) + " commit(s) to push"@, seq!["Run: pp push"@])
    } else if ahead == 0 {
        (Level::Note, name + ": "@ + decimal(behind as nat) + " commit(s) to pull"@, seq!["Run: pp pull"@])
    } else {
        (
            Level::Problem,
            name + ": "@ + branch + " has diverged from "@ + upstream + " ("@ + decimal(ahead as nat)
                + " local, "@ + decimal(behind as nat) + " remote)"@,
            seq![
                "Neither push nor pull settles this by itself. If the remote commits are"@,
                "wanted, rebase onto them: pp pull --rebase"@,
                "If the local ones supersede them — an amend or rebase of something"@,
                "already pushed — republish instead: pp push --force-with-lease"@,
            ],
        )
    }
}

/// How one half stands against its own remote, given the answers so far:
/// the branch, then its upstream, then either whether the remote has the
/// branch (when there is no upstream) or how far the two have drifted.
/// Being ahead or behind is only noted; having diverged is a problem.
pub open spec fn sync_spec(half: Half, a: Seq<Result<Seq<char>, Seq<char>>>) -> ProbeView {
    let name = half_name(half);
    if a.len() == 0 {
        ProbeView::Ask(git_spec(half, seq!["symbolic-ref"@, "--short"@, "HEAD"@]))
    } else {
        match a[0] {
            Err(_) => ProbeView::Found(
                (
                    Level::Note,
                    name + ": not on a branch"@,
                    seq!["Nothing to compare against a remote."@],
                ),
            ),
            Ok(branch) => if a.len() == 1 {
                ProbeView::Ask(git_spec(half, seq!["rev-parse"@, "--abbrev-ref"@, "@{upstream}"@]))
            } else {
                match a[1] {
                    Err(_) => {
                        let remote_branch = "origin/"@ + branch;
                        if a.len() == 2 {
                            ProbeView::Ask(
                                git_spec(half, seq!["rev-parse"@, "--verify"@, "-q"@, remote_branch]),
                            )
                        } else {
                            match a[2] {
                                Err(_) => ProbeView::Found(
                                    (
                                        Level::Note,
                                        name + ": "@ + branch + " is not on the remote yet"@,
                                        seq!["`pp push` will create it and set the upstream."@],
                                    ),
                                ),
                                Ok(_) => ProbeView::Found(
                                    (
                                        Level::Problem,
                                        name + ": "@ + branch + " has no upstream, though "@
                                            + remote_branch + " exists"@,
                                        seq![
                                            "`push` and `pull` have nothing to default to."@,
                                            "Fix: git --git-dir="@ + half_git_dir(half) + " branch --set-upstream-to="@
                                                + remote_branch + " "@ + branch,
                                        ],
                                    ),
                                ),
                            }
                        }
                    },
                    Ok(upstream) => if a.len() == 2 {
                        ProbeView::Ask(
                            git_spec(
                                half,
                                seq![
                                    "rev-list"@,
                                    "--left-right"@,
                                    "--count"@,
                                    branch + "..."@ + upstream,
                                ],
                            ),
                        )
                    } else {
                        match a[2] {
                            Err(_) => ProbeView::Found(
                                (
                                    Level::Note,
                                    name + ": could not compare "@ + branch + " with "@ + upstream,
                                    seq![],
                                ),
                            ),
                            Ok(counts) => ProbeView::Found(counts_finding(half, branch, upstream, counts)),
                        }
                    },
                }
            },
        }
    }
}

/// A count for the report.
fn count_text(words: &Vec<Vec<char>>, i: usize) -> (r: (u32, String))
    ensures
        r.0 == count_field(crate::text::views(words@), i as int),
        r.1@ == decimal(r.0 as nat),
{
    let n: u32 = if i < words.len() {
        assert(crate::text::views(words@)[i as int] == words@[i as int]@);
        match crate::text::parse_u32(words[i].as_slice()) {
            Some(n) => n,
            None => 0,
        }
    } else {
        0
    };
    (n, decimal_text(n as u64))
}

/// The finding once a branch and its upstream have been compared.
fn counts_check(half: Half, branch: &str, upstream: &str, counts: &str) -> (r: Finding)
    ensures
        r@ == counts_finding(half, branch@, upstream@, counts@),
{
    let c = chars_of(counts);
    let w = crate::text::words(c.as_slice());
    let (ahead, ahead_text) = count_text(&w, 0);
    let (behind, behind_text) = count_text(&w, 1);
    let name = half.name();
    if ahead == 0 && behind == 0 {
        let mut h = cat4(name, ": ", branch, " in step with ");
        h.append(upstream);
        Finding::ok(h)
    } else if behind == 0 {
        let detail = vec![owned("Run: pp push")];
        let ghost d = string_views(detail@);
        let f = Finding::note(cat4(name, ": ", ahead_text.as_str(), " commit(s) to push"), detail);
        assert(d =~= seq!["Run: pp push"@]);
        f
    } else if ahead == 0 {
        let detail = vec![owned("Run: pp pull")];
        let ghost d = string_views(detail@);
        let f = Finding::note(cat4(name, ": ", behind_text.as_str(), " commit(s) to pull"), detail);
        assert(d =~= seq!["Run: pp pull"@]);
        f
    } else {
        let mut h = cat5(name, ": ", branch, " has diverged from ", upstream);
        h.append(" (");
        h.append(ahead_text.as_str());
        h.append(" local, ");
        h.append(behind_text.as_str());
        h.append(" remote)");
        let detail = vec![
            owned("Neither push nor pull settles this by itself. If the remote commits are"),
            owned("wanted, rebase onto them: pp pull --rebase"),
            owned("If the local ones supersede them — an amend or rebase of something"),
            owned("already pushed — republish instead: pp push --force-with-lease"),
        ];
        let ghost d = string_views(detail@);
        let f = Finding::problem(h, detail);
        assert(d =~= counts_finding(half, branch@, upstream@, counts@).2);
        f
    }
}

/// How one half stands against its own remote; see `sync_spec`.
pub fn check_sync(half: Half, answers: &[Result<String, String>]) -> (r: Probe)
    ensures
        r@ == sync_spec(half, answers_view(answers@)),
{
    let ghost a = answers_view(answers@);
    let name = half.name();
    if answers.len() == 0 {
        let args = vec![owned("symbolic-ref"), owned("--short"), owned("HEAD")];
        assert(string_views(args@) =~= seq!["symbolic-ref"@, "--short"@, "HEAD"@]);
        return Probe::Ask(git_query(half, args));
    }
    assert(a[0] == result_view(answers@[0]));
    match &answers[0] {
        Err(_) => {
            let detail = vec![owned("Nothing to compare against a remote.")];
            let ghost d = string_views(detail@);
            let f = Finding::note(cat2(name, ": not on a branch"), detail);
            assert(d =~= seq!["Nothing to compare against a remote."@]);
            Probe::Found(f)
        },
        Ok(branch) => {
            if answers.len() == 1 {
                let args = vec![owned("rev-parse"), owned("--abbrev-ref"), owned("@{upstream}")];
                assert(string_views(args@) =~= seq!["rev-parse"@, "--abbrev-ref"@, "@{upstream}"@]);
                return Probe::Ask(git_query(half, args));
            }
            assert(a[1] == result_view(answers@[1]));
            match &answers[1] {
                Err(_) => {
                    let remote_branch = cat2("origin/", branch.as_str());
                    if answers.len() == 2 {
                        let args = vec![
                            owned("rev-parse"),
                            owned("--verify"),
                            owned("-q"),
                            owned(remote_branch.as_str()),
                        ];
                        assert(string_views(args@) =~= seq![
                            "rev-parse"@,
                            "--verify"@,
                            "-q"@,
                            remote_branch@,
                        ]);
                        return Probe::Ask(git_query(half, args));
                    }
                    assert(a[2] == result_view(answers@[2]));
                    match &answers[2] {
                        Err(_) => {
                            let detail = vec![owned("`pp push` will create it and set the upstream.")];
                            let ghost d = string_views(detail@);
                            let f = Finding::note(
                                cat4(name, ": ", branch.as_str(), " is not on the remote yet"),
                                detail,
                            );
                            assert(d =~= seq!["`pp push` will create it and set the upstream."@]);
                            Probe::Found(f)
                        },
                        Ok(_) => {
                            let mut h = cat4(name, ": ", branch.as_str(), " has no upstream, though ");
                            h.append(remote_branch.as_str());
                            h.append(" exists");
                            let mut fix = cat3("Fix: git --git-dir=", half.git_dir(), " branch --set-upstream-to=");
                            fix.append(remote_branch.as_str());
                            fix.append(" ");
                            fix.append(branch.as_str());
                            let detail = vec![owned("`push` and `pull` have nothing to default to."), fix];
                            let ghost d = string_views(detail@);
                            let f = Finding::problem(h, detail);
                            proof {
                                let fv = fix@;
                                assert(d =~= seq!["`push` and `pull` have nothing to default to."@, fv]);
                                assert(fv =~= "Fix: git --git-dir="@ + half_git_dir(half) + " branch --set-upstream-to="@
                                    + remote_branch@ + " "@ + branch@);
                            }
                            Probe::Found(f)
                        },
                    }
                },
                Ok(upstream) => {
                    if answers.len() == 2 {
                        let range = cat3(branch.as_str(), "...", upstream.as_str());
                        let args = vec![owned("rev-list"), owned("--left-right"), owned("--count"), range];
                        assert(string_views(args@) =~= seq![
                            "rev-list"@,
                            "--left-right"@,
                            "--count"@,
                            branch@ + "..."@ + upstream@,
                        ]);
                        return Probe::Ask(git_query(half, args));
                    }
                    assert(a[2] == result_view(answers@[2]));
                    match &answers[2] {
                        Err(_) => {
                            let mut h = cat4(name, ": could not compare ", branch.as_str(), " with ");
                            h.append(upstream.as_str());
                            let detail: Vec<String> = Vec::new();
                            let f = Finding::note(h, detail);
                            assert(f@.2 =~= Seq::<Seq<char>>::empty());
                            Probe::Found(f)
                        },
                        Ok(counts) => Probe::Found(
                            counts_check(half, branch.as_str(), upstream.as_str(), counts.as_str()),
                        ),
                    }
                },
            }
        },
    }
}

/// How a branch stands against its upstream decides the level, from the two
/// counts `rev-list --left-right --count` reports: in step is fine; only
/// ahead is a note to push, only behind a note to pull; ahead and behind
/// both — diverged — is a problem, whatever the two numbers are.
pub proof fn lemma_sync_levels(
    half: Half,
    branch: Seq<char>,
    upstream: Seq<char>,
    counts: Seq<char>,
    ahead: u32,
    behind: u32,
)
    requires
        crate::text::words_spec(counts).len() >= 2,
        crate::text::parse_u32_spec(crate::text::words_spec(counts)[0]) == Some(ahead),
        crate::text::parse_u32_spec(crate::text::words_spec(counts)[1]) == Some(behind),
    ensures
        ({
            let a = seq![
                Ok::<Seq<char>, Seq<char>>(branch),
                Ok::<Seq<char>, Seq<char>>(upstream),
                Ok::<Seq<char>, Seq<char>>(counts),
            ];
            let name = half_name(half);
            sync_spec(half, a) matches ProbeView::Found(f) && (ahead > 0 && behind > 0 ==> f.0
                == Level::Problem && f.1 == name + ": "@ + branch + " has diverged from "@ + upstream + " ("@
                + decimal(ahead as nat) + " local, "@ + decimal(behind as nat) + " remote)"@) && (ahead > 0
                && behind == 0 ==> f.0 == Level::Note && f.1 == name + ": "@ + decimal(ahead as nat)
                + " commit(s) to push"@ && f.2 == seq!["Run: pp push"@]) && (ahead == 0 && behind > 0
                ==> f.0 == Level::Note && f.1 == name + ": "@ + decimal(behind as nat) + " commit(s) to pull"@
                && f.2 == seq!["Run: pp pull"@]) && (ahead == 0 && behind == 0 ==> f.0 == Level::Fine)
        }),
{
}

/// The note given when gh cannot confirm a half's origin.
pub open spec fn unverified_origin(half: Half, configured: Seq<char>) -> ProbeView {
    ProbeView::Found(
        (
            Level::Note,
            half_name(half) + ": could not check origin against gh"@,
            seq![
                "configured: "@ + configured,
                "gh is missing, not logged in, or the network is down, so whether this"@,
                "is the URL ppgit would choose is unverified."@,
            ],
        ),
    )
}

/// Whether a half's `origin` points where ppgit would point it today, given
/// the answers so far: the configured URL, gh's identity for it, gh's
/// protocol, and the URL gh hands out for that repository in it.
pub open spec fn remote_spec(half: Half, a: Seq<Result<Seq<char>, Seq<char>>>) -> ProbeView {
    let name = half_name(half);
    if a.len() == 0 {
        ProbeView::Ask(git_spec(half, seq!["config"@, "--get"@, "remote.origin.url"@]))
    } else {
        match a[0] {
            Err(_) => ProbeView::Found(
                (
                    Level::Problem,
                    name + ": no origin configured"@,
                    seq![
                        "Nothing to push to or pull from. `ppgit init` sets this, or add it"@,
                        "by hand: git --git-dir="@ + half_git_dir(half) + " remote add origin <url>"@,
                    ],
                ),
            ),
            Ok(configured) => if a.len() == 1 {
                ProbeView::Ask(crate::gh::identity_command_spec(configured))
            } else {
                match a[1] {
                    Err(_) => unverified_origin(half, configured),
                    Ok(out) => match crate::gh::identity_spec(out) {
                        None => unverified_origin(half, configured),
                        Some((nwo, _)) => if a.len() == 2 {
                            ProbeView::Ask(crate::gh::protocol_command_spec())
                        } else if a.len() == 3 {
                            ProbeView::Ask(crate::gh::repo_url_spec(nwo, a[2]))
                        } else {
                            match a[3] {
                                Err(_) => unverified_origin(half, configured),
                                Ok(expected) => if normalise_spec(expected) == normalise_spec(
                                    configured,
                                ) {
                                    ProbeView::Found(
                                        (Level::Fine, name + ": origin is "@ + configured, seq![]),
                                    )
                                } else {
                                    ProbeView::Found(
                                        (
                                            Level::Problem,
                                            name + ": origin is not what ppgit would set"@,
                                            seq![
                                                "configured: "@ + configured,
                                                "gh would use: "@ + expected,
                                                "A remote in the wrong protocol fails every push — over SSH it needs a"@,
                                                "key GitHub knows, where HTTPS works with the token gh already holds."@,
                                                "Fix: git --git-dir="@ + half_git_dir(half) + " remote set-url origin "@
                                                    + expected,
                                            ],
                                        ),
                                    )
                                },
                            }
                        },
                    },
                }
            },
        }
    }
}

/// The note given when gh cannot confirm a half's origin.
fn unverified(half: Half, configured: &str) -> (r: Probe)
    ensures
        r@ == unverified_origin(half, configured@),
{
    let detail = vec![
        cat2("configured: ", configured),
        owned("gh is missing, not logged in, or the network is down, so whether this"),
        owned("is the URL ppgit would choose is unverified."),
    ];
    let ghost d = string_views(detail@);
    let f = Finding::note(cat2(half.name(), ": could not check origin against gh"), detail);
    assert(d =~= seq![
        "configured: "@ + configured@,
        "gh is missing, not logged in, or the network is down, so whether this"@,
        "is the URL ppgit would choose is unverified."@,
    ]);
    Probe::Found(f)
}

/// Checks that a half has an `origin` and that it points where ppgit itself
/// would point it; see `remote_spec`. An existing `origin` is left alone by
/// `init` whatever it holds, which is how a remote in the wrong protocol
/// can survive.
pub fn check_remote(half: Half, answers: &[Result<String, String>]) -> (r: Probe)
    ensures
        r@ == remote_spec(half, answers_view(answers@)),
{
    let ghost a = answers_view(answers@);
    let name = half.name();
    if answers.len() == 0 {
        let args = vec![owned("config"), owned("--get"), owned("remote.origin.url")];
        assert(string_views(args@) =~= seq!["config"@, "--get"@, "remote.origin.url"@]);
        return Probe::Ask(git_query(half, args));
    }
    assert(a[0] == result_view(answers@[0]));
    match &answers[0] {
        Err(_) => {
            let detail = vec![
                owned("Nothing to push to or pull from. `ppgit init` sets this, or add it"),
                cat3("by hand: git --git-dir=", half.git_dir(), " remote add origin <url>"),
            ];
            let ghost d = string_views(detail@);
            let f = Finding::problem(cat2(name, ": no origin configured"), detail);
            assert(d =~= seq![
                "Nothing to push to or pull from. `ppgit init` sets this, or add it"@,
                "by hand: git --git-dir="@ + half_git_dir(half) + " remote add origin <url>"@,
            ]);
            Probe::Found(f)
        },
        Ok(configured) => {
            if answers.len() == 1 {
                return Probe::Ask(crate::gh::repo_identity_command(configured.as_str()));
            }
            assert(a[1] == result_view(answers@[1]));
            match &answers[1] {
                Err(_) => unverified(half, configured.as_str()),
                Ok(out) => match crate::gh::parse_repo_identity(out.as_str()) {
                    Err(_) => unverified(half, configured.as_str()),
                    Ok(id) => {
                        if answers.len() == 2 {
                            return Probe::Ask(crate::gh::protocol_command());
                        }
                        assert(a[2] == result_view(answers@[2]));
                        if answers.len() == 3 {
                            return Probe::Ask(
                                crate::gh::repo_url(id.name_with_owner.as_str(), &answers[2]),
                            );
                        }
                        assert(a[3] == result_view(answers@[3]));
                        match &answers[3] {
                            Err(_) => unverified(half, configured.as_str()),
                            Ok(expected) => {
                                let e = normalise_url(expected.as_str());
                                let c = normalise_url(configured.as_str());
                                if crate::text::str_eq(e.as_str(), c.as_str()) {
                                    Probe::Found(
                                        Finding::ok(cat3(name, ": origin is ", configured.as_str())),
                                    )
                                } else {
                                    let detail = vec![
                                        cat2("configured: ", configured.as_str()),
                                        cat2("gh would use: ", expected.as_str()),
                                        owned("A remote in the wrong protocol fails every push — over SSH it needs a"),
                                        owned("key GitHub knows, where HTTPS works with the token gh already holds."),
                                        cat4(
                                            "Fix: git --git-dir=",
                                            half.git_dir(),
                                            " remote set-url origin ",
                                            expected.as_str(),
                                        ),
                                    ];
                                    let ghost d = string_views(detail@);
                                    let f = Finding::problem(
                                        cat2(name, ": origin is not what ppgit would set"),
                                        detail,
                                    );
                                    assert(d =~= seq![
                                        "configured: "@ + configured@,
                                        "gh would use: "@ + expected@,
                                        "A remote in the wrong protocol fails every push — over SSH it needs a"@,
                                        "key GitHub knows, where HTTPS works with the token gh already holds."@,
                                        "Fix: git --git-dir="@ + half_git_dir(half) + " remote set-url origin "@ + expected@,
                                    ]);
                                    Probe::Found(f)
                                }
                            },
                        }
                    },
                },
            }
        },
    }
}

// ---------------------------------------------------------------------------
// The superset invariant
// ---------------------------------------------------------------------------

/// The path and blob hash in one record of `git ls-tree -r -z`:
/// `<mode> <type> <hash>` and a tab, then the path, taken literally.
pub open spec fn record_entry(rec: Seq<char>) -> Option<(Seq<char>, Seq<char>)> {
    let t = crate::text::index_of(rec, '\t');
    if t >= rec.len() {
        None
    } else {
        let w = crate::text::words_spec(rec.take(t));
        if w.len() >= 3 {
            Some((rec.skip(t + 1), w[2]))
        } else {
            None
        }
    }
}

/// Every path in the records, mapped to its blob hash; a later record for a
/// path replaces an earlier one.
pub open spec fn blob_map_of(recs: Seq<Seq<char>>) -> Map<Seq<char>, Seq<char>>
    decreases recs.len(),
{
    if recs.len() == 0 {
        Map::empty()
    } else {
        let m = blob_map_of(recs.drop_last());
        match record_entry(recs.last()) {
            Some((p, h)) => m.insert(p, h),
            None => m,
        }
    }
}

/// Every path a half's HEAD commit tracks, mapped to its blob hash, from
/// the output of `git ls-tree -r -z HEAD`.
pub open spec fn blob_map(listing: Seq<char>) -> Map<Seq<char>, Seq<char>> {
    blob_map_of(crate::text::split_spec(listing, '\0'))
}

/// Pairs of strings, by their characters.
pub open spec fn pair_views(v: Seq<(String, String)>) -> Seq<(Seq<char>, Seq<char>)> {
    v.map_values(|p: (String, String)| (p.0@, p.1@))
}

/// The map that inserting the pairs in order builds.
pub open spec fn map_of_pairs(ps: Seq<(Seq<char>, Seq<char>)>) -> Map<Seq<char>, Seq<char>>
    decreases ps.len(),
{
    if ps.len() == 0 {
        Map::empty()
    } else {
        map_of_pairs(ps.drop_last()).insert(ps.last().0, ps.last().1)
    }
}

/// No two pairs share a key.
pub open spec fn unique_keys(ps: Seq<(Seq<char>, Seq<char>)>) -> bool {
    forall|i: int, j: int| 0 <= i < j < ps.len() ==> ps[i].0 != ps[j].0
}

/// With unique keys, the map holds exactly the pairs.
proof fn lemma_map_of_pairs(ps: Seq<(Seq<char>, Seq<char>)>)
    requires
        unique_keys(ps),
    ensures
        forall|k: Seq<char>|
            map_of_pairs(ps).dom().contains(k) <==> exists|i: int|
                0 <= i < ps.len() && (#[trigger] ps[i]).0 == k,
        forall|i: int| 0 <= i < ps.len() ==> map_of_pairs(ps)[(#[trigger] ps[i]).0] == ps[i].1,
        map_of_pairs(ps).dom().finite(),
        map_of_pairs(ps).dom().len() == ps.len(),
    decreases ps.len(),
{
    if ps.len() > 0 {
        let init = ps.drop_last();
        assert forall|i: int, j: int| 0 <= i < j < init.len() implies init[i].0 != init[j].0 by {
            assert(init[i] == ps[i]);
            assert(init[j] == ps[j]);
        }
        lemma_map_of_pairs(init);
        let m = map_of_pairs(init);
        let last = ps.last();
        assert forall|k: Seq<char>| map_of_pairs(ps).dom().contains(k) <==> exists|i: int|
            0 <= i < ps.len() && (#[trigger] ps[i]).0 == k by {
            if map_of_pairs(ps).dom().contains(k) {
                if k == last.0 {
                    assert(ps[ps.len() - 1].0 == k);
                } else {
                    let i = choose|i: int| 0 <= i < init.len() && (#[trigger] init[i]).0 == k;
                    assert(ps[i] == init[i]);
                }
            }
            if exists|i: int| 0 <= i < ps.len() && (#[trigger] ps[i]).0 == k {
                let i = choose|i: int| 0 <= i < ps.len() && (#[trigger] ps[i]).0 == k;
                if i < ps.len() - 1 {
                    assert(init[i] == ps[i]);
                }
            }
        }
        assert forall|i: int| 0 <= i < ps.len() implies map_of_pairs(ps)[(#[trigger] ps[i]).0]
            == ps[i].1 by {
            if i < ps.len() - 1 {
                assert(init[i] == ps[i]);
                assert(ps[i].0 != last.0);
            }
        }
        assert(!m.dom().contains(last.0)) by {
            if m.dom().contains(last.0) {
                let i = choose|i: int| 0 <= i < init.len() && (#[trigger] init[i]).0 == last.0;
                assert(init[i] == ps[i]);
            }
        }
    }
}

/// Replacing the value of a key already present is inserting it anew.
proof fn lemma_map_of_pairs_update(ps: Seq<(Seq<char>, Seq<char>)>, j: int, h: Seq<char>)
    requires
        unique_keys(ps),
        0 <= j < ps.len(),
    ensures
        map_of_pairs(ps.update(j, (ps[j].0, h))) == map_of_pairs(ps).insert(ps[j].0, h),
        unique_keys(ps.update(j, (ps[j].0, h))),
    decreases ps.len(),
{
    let k = ps[j].0;
    let qs = ps.update(j, (k, h));
    assert(qs.drop_last() == if j == ps.len() - 1 {
        ps.drop_last()
    } else {
        ps.drop_last().update(j, (k, h))
    });
    if j == ps.len() - 1 {
        assert(map_of_pairs(qs) =~= map_of_pairs(ps).insert(k, h));
    } else {
        let init = ps.drop_last();
        assert forall|a: int, b: int| 0 <= a < b < init.len() implies init[a].0 != init[b].0 by {
            assert(init[a] == ps[a]);
            assert(init[b] == ps[b]);
        }
        assert(init[j] == ps[j]);
        lemma_map_of_pairs_update(init, j, h);
        assert(ps.last().0 != k);
        assert(qs.last() == ps.last());
        assert(map_of_pairs(qs) =~= map_of_pairs(ps).insert(k, h));
    }
    assert forall|a: int, b: int| 0 <= a < b < qs.len() implies qs[a].0 != qs[b].0 by {
        assert(qs[a].0 == ps[a].0);
        assert(qs[b].0 == ps[b].0);
    }
}

/// The position of the pair with key `k`, if any.
fn find_key(v: &Vec<(String, String)>, k: &str) -> (r: Option<usize>)
    ensures
        match r {
            Some(i) => i < v.len() && pair_views(v@)[i as int].0 == k@,
            None => forall|i: int| 0 <= i < v.len() ==> pair_views(v@)[i].0 != k@,
        },
{
    let mut i: usize = 0;
    while i < v.len()
        invariant
            0 <= i <= v.len(),
            forall|j: int| 0 <= j < i ==> pair_views(v@)[j].0 != k@,
        decreases v.len() - i,
    {
        assert(pair_views(v@)[i as int].0 == v@[i as int].0@);
        if crate::text::str_eq(v[i].0.as_str(), k) {
            return Some(i);
        }
        i += 1;
    }
    None
}

/// Sets the value of key `k` to `h`.
fn upsert(v: &mut Vec<(String, String)>, k: String, h: String)
    requires
        unique_keys(pair_views(old(v)@)),
    ensures
        unique_keys(pair_views(final(v)@)),
        map_of_pairs(pair_views(final(v)@)) == map_of_pairs(pair_views(old(v)@)).insert(k@, h@),
{
    let ghost before = pair_views(v@);
    match find_key(v, k.as_str()) {
        Some(j) => {
            let ghost hv = h@;
            v.set(j, (k, h));
            proof {
                assert(pair_views(v@) =~= before.update(j as int, (before[j as int].0, hv)));
                lemma_map_of_pairs_update(before, j as int, hv);
            }
        },
        None => {
            let ghost kv = k@;
            let ghost hv = h@;
            v.push((k, h));
            proof {
                assert(pair_views(v@) =~= before.push((kv, hv)));
                assert(pair_views(v@).drop_last() =~= before);
                assert forall|a: int, b: int|
                    0 <= a < b < pair_views(v@).len() implies pair_views(v@)[a].0 != pair_views(
                    v@,
                )[b].0 by {
                    if b == before.len() {
                        assert(pair_views(v@)[a] == before[a]);
                    } else {
                        assert(pair_views(v@)[a] == before[a]);
                        assert(pair_views(v@)[b] == before[b]);
                    }
                }
            }
        },
    }
}

/// The path and hash of one `ls-tree` record, if it is well formed.
fn parse_record(rec: &Vec<char>) -> (r: Option<(String, String)>)
    ensures
        match record_entry(rec@) {
            Some((p, h)) => r matches Some(x) && x.0@ == p && x.1@ == h,
            None => r is None,
        },
{
    let t = crate::text::index_of_from(rec.as_slice(), 0, '\t');
    assert(rec@.skip(0) =~= rec@);
    if t >= rec.len() {
        return None;
    }
    let meta = crate::text::slice_vec(rec.as_slice(), 0, t);
    assert(meta@ =~= rec@.take(t as int));
    let w = crate::text::words(meta.as_slice());
    if w.len() < 3 {
        return None;
    }
    assert(crate::text::views(w@)[2] == w@[2]@);
    let path = string_of_range(rec.as_slice(), t + 1, rec.len());
    assert(rec@.subrange(t + 1, rec@.len() as int) =~= rec@.skip(t + 1));
    let hash = crate::text::string_of(w[2].as_slice());
    Some((path, hash))
}

/// Every path a half's HEAD commit tracks, mapped to its blob hash, from
/// the output of `git ls-tree -r -z HEAD`. Blob names are hashes of
/// content, so comparing them works across the two repositories.
pub fn tracked_blobs(listing: &str) -> (r: Vec<(String, String)>)
    ensures
        unique_keys(pair_views(r@)),
        map_of_pairs(pair_views(r@)) == blob_map(listing@),
{
    let l = chars_of(listing);
    let recs = crate::text::split(l.as_slice(), '\0');
    let ghost rv = crate::text::views(recs@);
    let mut r: Vec<(String, String)> = Vec::new();
    let mut i: usize = 0;
    assert(pair_views(r@) =~= Seq::<(Seq<char>, Seq<char>)>::empty());
    assert(rv.take(0) =~= Seq::<Seq<char>>::empty());
    while i < recs.len()
        invariant
            0 <= i <= recs.len(),
            rv == crate::text::views(recs@),
            unique_keys(pair_views(r@)),
            map_of_pairs(pair_views(r@)) == blob_map_of(rv.take(i as int)),
        decreases recs.len() - i,
    {
        assert(rv.take(i + 1).drop_last() =~= rv.take(i as int));
        assert(rv[i as int] == recs@[i as int]@);
        match parse_record(&recs[i]) {
            Some((p, h)) => {
                upsert(&mut r, p, h);
            },
            None => {},
        }
        i += 1;
    }
    assert(rv.take(recs.len() as int) =~= rv);
    r
}

/// Public paths the private half does not track.
pub open spec fn absent_set(pm: Map<Seq<char>, Seq<char>>, qm: Map<Seq<char>, Seq<char>>) -> Set<
    Seq<char>,
> {
    Set::new(|p: Seq<char>| pm.dom().contains(p) && !qm.dom().contains(p))
}

/// Public paths the private half tracks at other content.
pub open spec fn stale_set(pm: Map<Seq<char>, Seq<char>>, qm: Map<Seq<char>, Seq<char>>) -> Set<
    Seq<char>,
> {
    Set::new(|p: Seq<char>| pm.dom().contains(p) && qm.dom().contains(p) && qm[p] != pm[p])
}

/// The private half holds every path the public one tracks, at the same
/// content.
pub open spec fn superset_holds(pm: Map<Seq<char>, Seq<char>>, qm: Map<Seq<char>, Seq<char>>) -> bool {
    forall|p: Seq<char>| pm.dom().contains(p) ==> qm.dom().contains(p) && qm[p] == pm[p]
}

/// `s` lists exactly the members of `set`, each once, in order.
pub open spec fn lists_exactly(s: Seq<Seq<char>>, set: Set<Seq<char>>) -> bool {
    &&& crate::text::sorted(s)
    &&& s.no_duplicates()
    &&& forall|p: Seq<char>| s.contains(p) <==> set.contains(p)
}

/// The detail of a superset problem, for the sorted lists of absent and
/// stale paths.
pub open spec fn superset_detail(absent: Seq<Seq<char>>, stale: Seq<Seq<char>>) -> Seq<Seq<char>> {
    (if absent.len() > 0 {
        seq![decimal(absent.len()) + " file(s) the private half doesn't track:"@] + prefixed(
            "    "@,
            absent,
        )
    } else {
        seq![]
    }) + (if stale.len() > 0 {
        seq![decimal(stale.len()) + " file(s) the private half has at an older version:"@]
            + prefixed("    "@, stale)
    } else {
        seq![]
    }) + seq![
        "The private repository is meant to contain everything the public one"@,
        "does. This is what a public-only `pull` leaves behind."@,
        "Fix: pp add . && pp commit"@,
    ]
}

/// The finding for the superset invariant, given both halves' `ls-tree`
/// output: fine exactly when the invariant holds, and otherwise a problem
/// listing, sorted, the paths the private half lacks and those it holds at
/// other content.
pub open spec fn superset_spec(
    public: Result<Seq<char>, Seq<char>>,
    private: Result<Seq<char>, Seq<char>>,
    f: (Level, Seq<char>, Seq<Seq<char>>),
) -> bool {
    match (public, private) {
        (Ok(a), Ok(b)) => {
            let pm = blob_map(a);
            let qm = blob_map(b);
            if superset_holds(pm, qm) {
                f == (
                    Level::Fine,
                    "superset: private holds all "@ + decimal(pm.dom().len())
                        + " publicly tracked file(s)"@,
                    Seq::<Seq<char>>::empty(),
                )
            } else {
                exists|x: Seq<Seq<char>>, y: Seq<Seq<char>>|
                    lists_exactly(x, absent_set(pm, qm)) && lists_exactly(y, stale_set(pm, qm))
                        && f == (
                        Level::Problem,
                        "superset: the private half is missing public work"@,
                        #[trigger] superset_detail(x, y),
                    )
            }
        },
        _ => f == (
            Level::Note,
            "superset: could not compare the two halves"@,
            seq!["One of them has no commits yet."@],
        ),
    }
}

/// A vector of texts as strings.
fn strings_of(v: &Vec<Vec<char>>) -> (r: Vec<String>)
    ensures
        string_views(r@) == crate::text::views(v@),
{
    let mut r: Vec<String> = Vec::new();
    let mut i: usize = 0;
    while i < v.len()
        invariant
            0 <= i <= v.len(),
            string_views(r@) == crate::text::views(v@).take(i as int),
        decreases v.len() - i,
    {
        let ghost before = string_views(r@);
        let s = crate::text::string_of(v[i].as_slice());
        r.push(s);
        assert(string_views(r@) =~= before.push(v@[i as int]@));
        assert(crate::text::views(v@).take(i + 1) =~= crate::text::views(v@).take(i as int).push(
            v@[i as int]@,
        ));
        i += 1;
    }
    assert(crate::text::views(v@).take(v.len() as int) =~= crate::text::views(v@));
    r
}

/// Sorting keeps what a list holds, and keeps it free of repeats.
proof fn lemma_same_multiset(a: Seq<Seq<char>>, b: Seq<Seq<char>>)
    requires
        a.to_multiset() == b.to_multiset(),
        a.no_duplicates(),
    ensures
        b.no_duplicates(),
        forall|p: Seq<char>| a.contains(p) <==> b.contains(p),
{
    broadcast use vstd::seq_lib::group_to_multiset_ensures;

    a.lemma_multiset_has_no_duplicates();
    b.lemma_multiset_has_no_duplicates_conv();
    assert forall|p: Seq<char>| a.contains(p) <==> b.contains(p) by {
        vstd::seq_lib::to_multiset_contains(a, p);
        vstd::seq_lib::to_multiset_contains(b, p);
        assert(a.to_multiset().count(p) == b.to_multiset().count(p));
    }
}

/// The paths of `pm`'s pairs that `keep` selects, in pair order.
fn select_paths(pm: &Vec<(String, String)>, qm: &Vec<(String, String)>, want_absent: bool) -> (r: Vec<Vec<char>>)
    requires
        unique_keys(pair_views(pm@)),
        unique_keys(pair_views(qm@)),
    ensures
        crate::text::views(r@).no_duplicates(),
        forall|p: Seq<char>|
            crate::text::views(r@).contains(p) <==> (if want_absent {
                absent_set(map_of_pairs(pair_views(pm@)), map_of_pairs(pair_views(qm@)))
            } else {
                stale_set(map_of_pairs(pair_views(pm@)), map_of_pairs(pair_views(qm@)))
            }).contains(p),
{
    let ghost pv = pair_views(pm@);
    let ghost qv = pair_views(qm@);
    let ghost pmap = map_of_pairs(pv);
    let ghost qmap = map_of_pairs(qv);
    let ghost target = if want_absent {
        absent_set(pmap, qmap)
    } else {
        stale_set(pmap, qmap)
    };
    proof {
        lemma_map_of_pairs(pv);
        lemma_map_of_pairs(qv);
    }
    let mut r: Vec<Vec<char>> = Vec::new();
    let mut i: usize = 0;
    while i < pm.len()
        invariant
            0 <= i <= pm.len(),
            pv == pair_views(pm@),
            qv == pair_views(qm@),
            pmap == map_of_pairs(pv),
            qmap == map_of_pairs(qv),
            unique_keys(pv),
            unique_keys(qv),
            target == (if want_absent {
                absent_set(pmap, qmap)
            } else {
                stale_set(pmap, qmap)
            }),
            forall|k: Seq<char>|
                pmap.dom().contains(k) <==> exists|j: int| 0 <= j < pv.len() && (#[trigger] pv[j]).0 == k,
            forall|j: int| 0 <= j < pv.len() ==> pmap[(#[trigger] pv[j]).0] == pv[j].1,
            forall|k: Seq<char>|
                qmap.dom().contains(k) <==> exists|j: int| 0 <= j < qv.len() && (#[trigger] qv[j]).0 == k,
            forall|j: int| 0 <= j < qv.len() ==> qmap[(#[trigger] qv[j]).0] == qv[j].1,
            crate::text::views(r@).no_duplicates(),
            forall|p: Seq<char>|
                crate::text::views(r@).contains(p) <==> (target.contains(p) && exists|j: int|
                    0 <= j < i && (#[trigger] pv[j]).0 == p),
        decreases pm.len() - i,
    {
        let ghost before = crate::text::views(r@);
        assert(forall|p: Seq<char>|
            #[trigger] before.contains(p) <==> (target.contains(p) && exists|j: int|
                0 <= j < i && (#[trigger] pv[j]).0 == p));
        let key = &pm[i].0;
        let ghost k = key@;
        assert(pv[i as int] == (pm@[i as int].0@, pm@[i as int].1@));
        let selected = match find_key(qm, key.as_str()) {
            None => {
                proof {
                    assert(!qmap.dom().contains(k)) by {
                        if qmap.dom().contains(k) {
                            let j = choose|j: int| 0 <= j < qv.len() && (#[trigger] qv[j]).0 == k;
                        }
                    }
                }
                want_absent
            },
            Some(j) => {
                assert(qv[j as int] == (qm@[j as int].0@, qm@[j as int].1@));
                assert(qmap.dom().contains(k));
                assert(qmap[k] == qv[j as int].1);
                !want_absent && !crate::text::str_eq(qm[j].1.as_str(), pm[i].1.as_str())
            },
        };
        assert(pmap.dom().contains(k));
        assert(pmap[k] == pv[i as int].1);
        assert(selected == target.contains(k));
        if selected {
            let kv = crate::text::chars_of(key.as_str());
            r.push(kv);
            proof {
                let after = crate::text::views(r@);
                assert(after =~= before.push(k));
                assert(!before.contains(k)) by {
                    if before.contains(k) {
                        let a = choose|a: int| 0 <= a < before.len() && before[a] == k;
                        let j = choose|j: int| 0 <= j < i && (#[trigger] pv[j]).0 == before[a];
                    }
                }
                assert forall|a: int, b: int| 0 <= a < after.len() && 0 <= b < after.len() && a != b implies after[a] != after[b] by {
                    if a == before.len() {
                        assert(before.contains(after[b]) || after[b] != k);
                    } else if b == before.len() {
                        assert(before.contains(after[a]) || after[a] != k);
                    }
                }
                assert(pv[i as int].0 == k);
                assert forall|p: Seq<char>| after.contains(p) <==> (target.contains(p) && exists|j: int|
                    0 <= j < i + 1 && (#[trigger] pv[j]).0 == p) by {
                    if p == k {
                        assert(after[before.len() as int] == k);
                        assert(pv[i as int].0 == k);
                    } else {
                        if after.contains(p) {
                            let a = choose|a: int| 0 <= a < after.len() && after[a] == p;
                            assert(before[a] == p);
                            assert(before.contains(p));
                            let j = choose|j: int| 0 <= j < i && (#[trigger] pv[j]).0 == p;
                            assert(0 <= j < i + 1 && pv[j].0 == p);
                        }
                        if target.contains(p) && exists|j: int| 0 <= j < i + 1 && (#[trigger] pv[j]).0 == p {
                            let j = choose|j: int| 0 <= j < i + 1 && (#[trigger] pv[j]).0 == p;
                            assert(j != i);
                            assert(0 <= j < i && pv[j].0 == p);
                            assert(before.contains(p));
                            let a = choose|a: int| 0 <= a < before.len() && before[a] == p;
                            assert(after[a] == p);
                        }
                    }
                }
            }
        } else {
            proof {
                assert(pv[i as int].0 == k);
                assert forall|p: Seq<char>| before.contains(p) <==> (target.contains(p) && exists|j: int|
                    0 <= j < i + 1 && (#[trigger] pv[j]).0 == p) by {
                    if before.contains(p) {
                        let j = choose|j: int| 0 <= j < i && (#[trigger] pv[j]).0 == p;
                        assert(0 <= j < i + 1 && pv[j].0 == p);
                    }
                    if target.contains(p) && exists|j: int| 0 <= j < i + 1 && (#[trigger] pv[j]).0 == p {
                        let j = choose|j: int| 0 <= j < i + 1 && (#[trigger] pv[j]).0 == p;
                        if j == i {
                            assert(p == k);
                        } else {
                            assert(0 <= j < i && pv[j].0 == p);
                        }
                    }
                }
            }
        }
        i += 1;
    }
    proof {
        assert forall|p: Seq<char>| crate::text::views(r@).contains(p) <==> target.contains(p) by {
            if target.contains(p) {
                assert(pmap.dom().contains(p));
                let j = choose|j: int| 0 <= j < pv.len() && (#[trigger] pv[j]).0 == p;
            }
        }
    }
    r
}

/// One section of a superset problem's detail: a count line and the paths.
fn superset_section(paths: &Vec<Vec<char>>, what: &str) -> (r: Vec<String>)
    ensures
        string_views(r@) == (if paths.len() > 0 {
            seq![decimal(paths.len() as nat) + what@] + prefixed("    "@, crate::text::views(paths@))
        } else {
            Seq::<Seq<char>>::empty()
        }),
{
    let mut r: Vec<String> = Vec::new();
    if paths.len() > 0 {
        r.push(cat2(decimal_text(paths.len() as u64).as_str(), what));
        let ghost first = string_views(r@);
        let names = strings_of(paths);
        extend_strings(&mut r, prefix_all("    ", names.as_slice()));
        assert(first =~= seq![decimal(paths.len() as nat) + what@]);
    } else {
        assert(string_views(r@) =~= Seq::<Seq<char>>::empty());
    }
    r
}

/// The invariant the whole design rests on: the private repository holds
/// everything the public one does, at the same content. It breaks quietly —
/// a public-only change arriving by `pull` lands in `.git` alone. Takes both
/// halves' answers to `ls-tree -r -z HEAD`.
pub fn check_superset(public: &Result<String, String>, private: &Result<String, String>) -> (r:
    Finding)
    ensures
        superset_spec(result_view(*public), result_view(*private), r@),
{
    match (public, private) {
        (Ok(a), Ok(b)) => {
            let pm = tracked_blobs(a.as_str());
            let qm = tracked_blobs(b.as_str());
            let ghost pmap = map_of_pairs(pair_views(pm@));
            let ghost qmap = map_of_pairs(pair_views(qm@));
            let mut absent = select_paths(&pm, &qm, true);
            let mut stale = select_paths(&pm, &qm, false);
            let ghost absent0 = crate::text::views(absent@);
            let ghost stale0 = crate::text::views(stale@);
            crate::text::sort_texts(&mut absent);
            crate::text::sort_texts(&mut stale);
            let ghost x = crate::text::views(absent@);
            let ghost y = crate::text::views(stale@);
            proof {
                lemma_same_multiset(absent0, x);
                lemma_same_multiset(stale0, y);
                lemma_map_of_pairs(pair_views(pm@));
                assert(lists_exactly(x, absent_set(pmap, qmap)));
                assert(lists_exactly(y, stale_set(pmap, qmap)));
            }
            if absent.len() == 0 && stale.len() == 0 {
                proof {
                    assert forall|p: Seq<char>| pmap.dom().contains(p) implies qmap.dom().contains(p)
                        && qmap[p] == pmap[p] by {
                        if !qmap.dom().contains(p) {
                            assert(absent_set(pmap, qmap).contains(p));
                            assert(!x.contains(p));
                        } else if qmap[p] != pmap[p] {
                            assert(stale_set(pmap, qmap).contains(p));
                            assert(!y.contains(p));
                        }
                    }
                }
                let count = decimal_text(pm.len() as u64);
                Finding::ok(
                    cat3("superset: private holds all ", count.as_str(), " publicly tracked file(s)"),
                )
            } else {
                proof {
                    if absent.len() > 0 {
                        let p = x[0];
                        assert(x.contains(p));
                        assert(absent_set(pmap, qmap).contains(p));
                    } else {
                        let p = y[0];
                        assert(y.contains(p));
                        assert(stale_set(pmap, qmap).contains(p));
                    }
                    assert(!superset_holds(pmap, qmap));
                }
                let mut detail = superset_section(&absent, " file(s) the private half doesn't track:");
                extend_strings(
                    &mut detail,
                    superset_section(&stale, " file(s) the private half has at an older version:"),
                );
                let tail = vec![
                    owned("The private repository is meant to contain everything the public one"),
                    owned("does. This is what a public-only `pull` leaves behind."),
                    owned("Fix: pp add . && pp commit"),
                ];
                let ghost t = string_views(tail@);
                extend_strings(&mut detail, tail);
                assert(t =~= seq![
                    "The private repository is meant to contain everything the public one"@,
                    "does. This is what a public-only `pull` leaves behind."@,
                    "Fix: pp add . && pp commit"@,
                ]);
                let f = Finding::problem(
                    owned("superset: the private half is missing public work"),
                    detail,
                );
                assert(f@.2 =~= superset_detail(x, y));
                f
            }
        },
        _ => {
            let detail = vec![owned("One of them has no commits yet.")];
            let ghost d = string_views(detail@);
            let f = Finding::note(owned("superset: could not compare the two halves"), detail);
            assert(d =~= seq!["One of them has no commits yet."@]);
            f
        },
    }
}


/// The superset finding for both halves' `ls-tree` answers: the one finding
/// that `superset_spec` allows (see `lemma_superset_determined`).
pub open spec fn superset_finding(
    public: Result<Seq<char>, Seq<char>>,
    private: Result<Seq<char>, Seq<char>>,
) -> (Level, Seq<char>, Seq<Seq<char>>) {
    choose|f: (Level, Seq<char>, Seq<Seq<char>>)| superset_spec(public, private, f)
}

/// The superset finding is determined by the two listings alone: whatever
/// order the paths were found in, the report lists them the same way.
pub proof fn lemma_superset_determined(
    public: Result<Seq<char>, Seq<char>>,
    private: Result<Seq<char>, Seq<char>>,
    f: (Level, Seq<char>, Seq<Seq<char>>),
    g: (Level, Seq<char>, Seq<Seq<char>>),
)
    requires
        superset_spec(public, private, f),
        superset_spec(public, private, g),
    ensures
        f == g,
{
    match (public, private) {
        (Ok(a), Ok(b)) => {
            let pm = blob_map(a);
            let qm = blob_map(b);
            if !superset_holds(pm, qm) {
                let (x, y) = choose|x: Seq<Seq<char>>, y: Seq<Seq<char>>|
                    lists_exactly(x, absent_set(pm, qm)) && lists_exactly(y, stale_set(pm, qm)) && f == (
                        Level::Problem,
                        "superset: the private half is missing public work"@,
                        #[trigger] superset_detail(x, y),
                    );
                let (x2, y2) = choose|x: Seq<Seq<char>>, y: Seq<Seq<char>>|
                    lists_exactly(x, absent_set(pm, qm)) && lists_exactly(y, stale_set(pm, qm)) && g == (
                        Level::Problem,
                        "superset: the private half is missing public work"@,
                        #[trigger] superset_detail(x, y),
                    );
                crate::text::lemma_sorted_unique(x, x2);
                crate::text::lemma_sorted_unique(y, y2);
            }
        },
        _ => {},
    }
}

/// `git [<half>] ls-tree -r -z HEAD`: every path a half's HEAD tracks, with
/// its blob hash.
pub fn blobs_query(half: Half) -> (c: Command)
    ensures
        c@ == git_spec(half, seq!["ls-tree"@, "-r"@, "-z"@, "HEAD"@]),
{
    let args = vec![owned("ls-tree"), owned("-r"), owned("-z"), owned("HEAD")];
    assert(string_views(args@) =~= seq!["ls-tree"@, "-r"@, "-z"@, "HEAD"@]);
    git_query(half, args)
}

// ---------------------------------------------------------------------------
// The command
// ---------------------------------------------------------------------------

/// The check a probe runs: the origin check, or the check against the
/// remote.
pub open spec fn probe_spec(remote: bool, half: Half, a: Seq<Result<Seq<char>, Seq<char>>>) -> ProbeView {
    if remote {
        remote_spec(half, a)
    } else {
        sync_spec(half, a)
    }
}

/// Running a probe with the replies from `k` on, `a` answered so far: the
/// finding and where the replies carry on, or the query still to run.
pub open spec fn probe_outcome(
    remote: bool,
    half: Half,
    rs: Seq<Reply>,
    k: int,
    a: Seq<Result<Seq<char>, Seq<char>>>,
) -> Result<(int, (Level, Seq<char>, Seq<Seq<char>>)), (Seq<char>, Seq<Seq<char>>)>
    decreases rs.len() - k,
{
    match probe_spec(remote, half, a) {
        ProbeView::Found(f) => Ok((k, f)),
        ProbeView::Ask(c) => if 0 <= k < rs.len() {
            probe_outcome(remote, half, rs, k + 1, a.push(quiet_result(c, rs[k])))
        } else {
            Err(c)
        },
    }
}

/// Runs a probe with the replies from `k` on; see `probe_outcome`.
fn run_probe(remote: bool, half: Half, replies: &[Reply], k: usize) -> (r: Result<(usize, Finding), Action>)
    requires
        k <= replies.len(),
    ensures
        match r {
            Ok((k2, f)) => k2 <= replies.len() && probe_outcome(
                remote,
                half,
                replies@,
                k as int,
                Seq::empty(),
            ) == Ok::<(int, (Level, Seq<char>, Seq<Seq<char>>)), (Seq<char>, Seq<Seq<char>>)>(
                (k2 as int, f@),
            ),
            Err(a) => probe_outcome(remote, half, replies@, k as int, Seq::empty()) matches Err(c)
                && a@ == ActionView::Quiet(c),
        },
{
    let mut answers: Vec<Result<String, String>> = Vec::new();
    let mut j: usize = k;
    assert(answers_view(answers@) =~= Seq::<Result<Seq<char>, Seq<char>>>::empty());
    loop
        invariant
            k <= j <= replies.len(),
            probe_outcome(remote, half, replies@, k as int, Seq::empty()) == probe_outcome(
                remote,
                half,
                replies@,
                j as int,
                answers_view(answers@),
            ),
        decreases replies.len() - j,
    {
        let p = if remote {
            check_remote(half, answers.as_slice())
        } else {
            check_sync(half, answers.as_slice())
        };
        match p {
            Probe::Found(f) => {
                return Ok((j, f));
            },
            Probe::Ask(c) => {
                if j >= replies.len() {
                    return Err(Action::Quiet(c));
                }
                let ghost before = answers_view(answers@);
                let t = quiet_result_exec(&c, &replies[j]);
                answers.push(t);
                assert(answers_view(answers@) =~= before.push(quiet_result(c@, replies@[j as int])));
                j += 1;
            },
        }
    }
}

/// A fetch ended well: it launched and exited successfully.
pub open spec fn fetched(r: Reply) -> bool {
    loud_exit("git"@, r) is None
}

/// The finding list for an optional finding.
pub open spec fn opt_seq(f: Option<(Level, Seq<char>, Seq<Seq<char>>)>) -> Seq<(Level, Seq<char>, Seq<Seq<char>>)> {
    match f {
        Some(x) => seq![x],
        None => seq![],
    }
}

/// One half's origin, fetch refspec and standing against its remote, with
/// the replies from `k` on, after the findings `fs`: where the replies
/// carry on and the findings so far, or the action the checks come to.
pub open spec fn half_outcome(
    half: Half,
    rs: Seq<Reply>,
    k: int,
    fs: Seq<(Level, Seq<char>, Seq<Seq<char>>)>,
) -> Result<(int, Seq<(Level, Seq<char>, Seq<Seq<char>>)>), ActionView> {
    match probe_outcome(true, half, rs, k, Seq::empty()) {
        Err(c) => Err(ActionView::Quiet(c)),
        Ok((k1, origin)) => {
            let q = git_spec(half, seq!["config"@, "--get"@, "remote.origin.fetch"@]);
            if k1 >= rs.len() {
                Err(ActionView::Quiet(q))
            } else {
                let refspec = refspec_spec(half, quiet_result(q, rs[k1]) is Ok);
                match probe_outcome(false, half, rs, k1 + 1, Seq::empty()) {
                    Err(c) => Err(ActionView::Quiet(c)),
                    Ok((k2, sync)) => Ok((k2, fs + seq![origin, refspec, sync])),
                }
            }
        },
    }
}

/// The last checks, from the reply at `k`, after the findings `fs`: the
/// superset invariant (both halves' `ls-tree`), the files tracked publicly
/// though listed, then the report and the exit.
pub open spec fn doctor_tail(rs: Seq<Reply>, k: int, fs: Seq<(Level, Seq<char>, Seq<Seq<char>>)>) -> ActionView {
    let pq = git_spec(Half::Public, seq!["ls-tree"@, "-r"@, "-z"@, "HEAD"@]);
    let qq = git_spec(Half::Private, seq!["ls-tree"@, "-r"@, "-z"@, "HEAD"@]);
    if k >= rs.len() {
        ActionView::Quiet(pq)
    } else if k + 1 >= rs.len() {
        ActionView::Quiet(qq)
    } else if k + 2 >= rs.len() {
        ActionView::Io(IoStepView::TrackedListing)
    } else {
        let all = fs + seq![
            superset_finding(quiet_result(pq, rs[k]), quiet_result(qq, rs[k + 1])),
            tracked_spec(io_result(rs[k + 2])),
        ];
        if k + 3 >= rs.len() {
            ActionView::Say(report_lines_spec(all))
        } else {
            ActionView::Finish(report_code_spec(all))
        }
    }
}

/// The checks, from the reply at `k`: the layout (does `.ppgitignore`
/// exist), fetching both halves with the terminal attached (a fetch may
/// prompt for credentials; failing is only noted), the branches, the
/// private half and the public half in turn, and `doctor_tail`.
pub open spec fn doctor_checks(rs: Seq<Reply>, k: int) -> ActionView {
    let pf = git_spec(Half::Public, seq!["fetch"@, "--quiet"@]);
    let qf = git_spec(Half::Private, seq!["fetch"@, "--quiet"@]);
    let ph = git_spec(Half::Public, seq!["symbolic-ref"@, "--short"@, "HEAD"@]);
    let qh = git_spec(Half::Private, seq!["symbolic-ref"@, "--short"@, "HEAD"@]);
    if k >= rs.len() {
        ActionView::Io(IoStepView::ListExists)
    } else if k + 1 >= rs.len() {
        ActionView::Loud(pf)
    } else if k + 2 >= rs.len() {
        ActionView::Loud(qf)
    } else if k + 3 >= rs.len() {
        ActionView::Quiet(ph)
    } else if k + 4 >= rs.len() {
        ActionView::Quiet(qh)
    } else {
        let fs = seq![layout_spec(io_result(rs[k]) is Ok)] + opt_seq(
            refresh_spec(fetched(rs[k + 1]), fetched(rs[k + 2])),
        ) + seq![branches_spec(quiet_result(ph, rs[k + 3]), quiet_result(qh, rs[k + 4]))];
        match half_outcome(Half::Private, rs, k + 5, fs) {
            Err(a) => a,
            Ok((k1, fs1)) => match half_outcome(Half::Public, rs, k1, fs1) {
                Err(a) => a,
                Ok((k2, fs2)) => doctor_tail(rs, k2, fs2),
            },
        }
    }
}

/// `ppgit doctor`, given its whole command line (`doctor` first) and the
/// replies so far: usage when given arguments; refused outside a ppgit
/// project (both git-dirs must be here); otherwise a heading, the checks,
/// and a report that fails exactly when it holds a problem.
pub open spec fn doctor_spec(args: Seq<Seq<u8>>, rs: Seq<Reply>) -> ActionView {
    if args.len() > 1 {
        warn_then_fail(doctor_usage_spec(), rs, 0)
    } else if rs.len() == 0 {
        ActionView::Io(IoStepView::ProjectDirs)
    } else if io_result(rs[0]) is Err {
        warn_then_fail(not_a_project_spec(), rs, 1)
    } else if rs.len() == 1 {
        ActionView::Say(seq!["ppgit doctor"@, ""@])
    } else {
        doctor_checks(rs, 2)
    }
}

/// The findings so far, with `f` added.
fn add_finding(findings: Vec<Finding>, f: Finding) -> (r: Vec<Finding>)
    ensures
        finding_views(r@) == finding_views(findings@).push(f@),
{
    let mut r = findings;
    let ghost before = finding_views(r@);
    let ghost fv = f@;
    r.push(f);
    assert(finding_views(r@) =~= before.push(fv));
    r
}

/// Takes `half_outcome(half, replies, k, ..)`.
fn half_checks(half: Half, replies: &[Reply], k: usize, findings: Vec<Finding>) -> (r: Result<
    (usize, Vec<Finding>),
    Action,
>)
    requires
        k <= replies.len(),
    ensures
        match r {
            Ok((k2, fs)) => k2 <= replies.len() && half_outcome(
                half,
                replies@,
                k as int,
                finding_views(findings@),
            ) == Ok::<(int, Seq<(Level, Seq<char>, Seq<Seq<char>>)>), ActionView>(
                (k2 as int, finding_views(fs@)),
            ),
            Err(a) => half_outcome(half, replies@, k as int, finding_views(findings@)) == Err::<
                (int, Seq<(Level, Seq<char>, Seq<Seq<char>>)>),
                ActionView,
            >(a@),
        },
{
    let (k1, origin) = match run_probe(true, half, replies, k) {
        Ok(x) => x,
        Err(a) => return Err(a),
    };
    let q = refspec_query(half);
    if k1 >= replies.len() {
        return Err(Action::Quiet(q));
    }
    let found = match quiet_result_exec(&q, &replies[k1]) {
        Ok(_) => true,
        Err(_) => false,
    };
    let refspec = check_fetch_refspec(half, found);
    let (k2, sync) = match run_probe(false, half, replies, k1 + 1) {
        Ok(x) => x,
        Err(a) => return Err(a),
    };
    let ghost before = finding_views(findings@);
    let ghost (o, r, s) = (origin@, refspec@, sync@);
    let fs = add_finding(add_finding(add_finding(findings, origin), refspec), sync);
    assert(finding_views(fs@) =~= before + seq![o, r, s]);
    Ok((k2, fs))
}

/// Takes `doctor_tail(replies, k, ..)`.
fn doctor_tail_exec(replies: &[Reply], k: usize, findings: Vec<Finding>) -> (a: Action)
    ensures
        a@ == doctor_tail(replies@, k as int, finding_views(findings@)),
{
    let pq = blobs_query(Half::Public);
    if k >= replies.len() {
        return Action::Quiet(pq);
    }
    let qq = blobs_query(Half::Private);
    if k + 1 >= replies.len() {
        return Action::Quiet(qq);
    }
    if k + 2 >= replies.len() {
        return Action::Io(IoStep::TrackedListing);
    }
    let p = quiet_result_exec(&pq, &replies[k]);
    let q = quiet_result_exec(&qq, &replies[k + 1]);
    let superset = check_superset(&p, &q);
    proof {
        lemma_superset_determined(
            result_view(p),
            result_view(q),
            superset@,
            superset_finding(result_view(p), result_view(q)),
        );
    }
    let listing = io_result_exec(&replies[k + 2]);
    let conflicts = check_tracked_but_ignored(&listing);
    let ghost before = finding_views(findings@);
    let ghost (sv, cv) = (superset@, conflicts@);
    let fs = add_finding(add_finding(findings, superset), conflicts);
    assert(finding_views(fs@) =~= before + seq![sv, cv]);
    let report = doctor_report(fs.as_slice());
    if k + 3 >= replies.len() {
        Action::Say(report.lines)
    } else {
        Action::Finish(report.code)
    }
}

/// Takes `doctor_checks(replies, k)`.
fn doctor_checks_exec(replies: &[Reply], k: usize) -> (a: Action)
    ensures
        a@ == doctor_checks(replies@, k as int),
{
    if k >= replies.len() {
        return Action::Io(IoStep::ListExists);
    }
    if k + 1 >= replies.len() {
        return Action::Loud(fetch_command(Half::Public));
    }
    if k + 2 >= replies.len() {
        return Action::Loud(fetch_command(Half::Private));
    }
    let ph = head_query(Half::Public);
    if k + 3 >= replies.len() {
        return Action::Quiet(ph);
    }
    let qh = head_query(Half::Private);
    if k + 4 >= replies.len() {
        return Action::Quiet(qh);
    }
    let listed = match io_result_exec(&replies[k]) {
        Ok(_) => true,
        Err(_) => false,
    };
    let mut findings: Vec<Finding> = Vec::new();
    let ghost empty = finding_views(findings@);
    assert(empty =~= Seq::<(Level, Seq<char>, Seq<Seq<char>>)>::empty());
    findings = add_finding(findings, check_layout(listed));
    let public_fetched = loud_exit_exec("git", &replies[k + 1]).is_none();
    let private_fetched = loud_exit_exec("git", &replies[k + 2]).is_none();
    let ghost before = finding_views(findings@);
    match refresh_remotes(public_fetched, private_fetched) {
        Some(f) => {
            findings = add_finding(findings, f);
        },
        None => {},
    }
    assert(finding_views(findings@) =~= before + opt_seq(
        refresh_spec(fetched(replies@[k + 1]), fetched(replies@[k + 2])),
    ));
    let p = quiet_result_exec(&ph, &replies[k + 3]);
    let q = quiet_result_exec(&qh, &replies[k + 4]);
    let ghost before = finding_views(findings@);
    let b = check_branches(&p, &q);
    let ghost bv = b@;
    findings = add_finding(findings, b);
    assert(finding_views(findings@) =~= before + seq![bv]);
    assert(finding_views(findings@) =~= seq![layout_spec(listed)] + opt_seq(
        refresh_spec(fetched(replies@[k + 1]), fetched(replies@[k + 2])),
    ) + seq![bv]);
    let (k1, findings) = match half_checks(Half::Private, replies, k + 5, findings) {
        Ok(x) => x,
        Err(a) => return a,
    };
    let (k2, findings) = match half_checks(Half::Public, replies, k1, findings) {
        Ok(x) => x,
        Err(a) => return a,
    };
    doctor_tail_exec(replies, k2, findings)
}

/// The next action of `ppgit doctor`, given its whole command line
/// (`doctor` first) and the replies so far; see `doctor_spec`.
pub fn cmd_doctor(args: &[Vec<u8>], replies: &[Reply]) -> (a: Action)
    ensures
        a@ == doctor_spec(arg_views(args@), replies@),
{
    if args.len() > 1 {
        return warn_then_fail_exec(doctor_usage(), replies, 0);
    }
    if replies.len() == 0 {
        return Action::Io(IoStep::ProjectDirs);
    }
    match io_result_exec(&replies[0]) {
        Err(_) => {
            return warn_then_fail_exec(not_a_project(), replies, 1);
        },
        Ok(_) => {},
    }
    if replies.len() == 1 {
        let l = vec![owned("ppgit doctor"), owned("")];
        assert(string_views(l@) =~= seq!["ppgit doctor"@, ""@]);
        return Action::Say(l);
    }
    doctor_checks_exec(replies, 2)
}

} // verus!
