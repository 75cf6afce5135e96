use ppgit::commands::doctor::{
    blobs_query, check_branches, check_fetch_refspec, check_layout, check_remote, check_superset, check_sync,
    check_tracked_but_ignored, cmd_doctor, doctor_report, fetch_command, normalise_url, refresh_remotes,
    tracked_blobs, Finding, Half, Level, Probe,
};
use ppgit::exec::{ExitStatusModel, LoudOutcome, QuietOutcome};
use ppgit::flow::{Action, IoStep, Reply};

fn ok(s: &str) -> Result<String, String> {
    Ok(s.to_string())
}

fn err(s: &str) -> Result<String, String> {
    Err(s.to_string())
}

fn asked(p: Probe) -> Vec<String> {
    match p {
        Probe::Ask(c) => {
            let mut v = vec![c.program];
            v.extend(c.args);
            v
        }
        Probe::Found(f) => panic!("expected a query, found {}", f.headline),
    }
}

fn found(p: Probe) -> Finding {
    match p {
        Probe::Found(f) => f,
        Probe::Ask(c) => panic!("expected a finding, asked {:?}", c.args),
    }
}

fn out(s: &str) -> Reply {
    Reply::Output(QuietOutcome::Finished { success: true, status: "exit status: 0".to_string(), stdout: s.as_bytes().to_vec() })
}

fn ended(code: i32) -> Reply {
    Reply::Ended(LoudOutcome::Ended(ExitStatusModel { code: Some(code), signal: None }))
}

fn command_line(a: &Action) -> Vec<String> {
    let c = match a {
        Action::Quiet(c) | Action::Loud(c) => c,
        _ => panic!("expected a command"),
    };
    let mut v = vec![c.program.clone()];
    v.extend(c.args.iter().cloned());
    v
}

fn strings(v: &[&str]) -> Vec<String> {
    v.iter().map(|s| s.to_string()).collect()
}

#[test]
fn normalises_the_spellings_gh_and_git_disagree_on() {
    let bare = "https://github.com/o/n";
    assert_eq!(normalise_url("https://github.com/o/n.git"), bare);
    assert_eq!(normalise_url("https://github.com/o/n/"), bare);
    assert_eq!(normalise_url(bare), bare);
}

#[test]
fn leaves_an_ssh_url_comparable_with_itself() {
    assert_eq!(normalise_url("git@github.com:o/n.git"), "git@github.com:o/n");
}

#[test]
fn normalises_every_spelling_to_the_same_url() {
    let u = "https://github.com/o/n";
    let all = [format!("{u}.git"), format!("{u}/"), format!("{u}//"), u.to_string()];
    for a in &all {
        assert_eq!(normalise_url(a), normalise_url(u));
    }
    assert_eq!(normalise_url("https://github.com/o/n.git/"), u);
}

#[test]
fn reports_the_levels_right_aligned() {
    let f = Finding::problem("x".to_string(), vec!["fix".to_string()]);
    assert_eq!(f.report(), strings(&[" PROBLEM  x", "          fix"]));
    assert_eq!(Finding::ok("y".to_string()).report(), strings(&["      ok  y"]));
    assert_eq!(Finding::note("z".to_string(), vec![]).report(), strings(&["    note  z"]));
}

#[test]
fn says_nothing_when_both_fetches_worked() {
    assert!(refresh_remotes(true, true).is_none());
    let f = refresh_remotes(false, false).expect("a note");
    assert_eq!(f.level, Level::Note);
    assert_eq!(f.headline, "could not fetch the public and private remote(s)");
    let g = refresh_remotes(true, false).expect("a note");
    assert_eq!(g.headline, "could not fetch the private remote(s)");
}

#[test]
fn checks_that_both_halves_share_a_branch() {
    let same = check_branches(&ok("main"), &ok("main"));
    assert_eq!(same.level, Level::Fine);
    assert_eq!(same.headline, "branches: both halves on main");
    let differ = check_branches(&ok("main"), &ok("dev"));
    assert_eq!(differ.level, Level::Problem);
    assert_eq!(differ.headline, "branches: public on main, private on dev");
    assert_eq!(differ.detail[2], "Fix: pp checkout dev");
    let unknown = check_branches(&err("no"), &ok("dev"));
    assert_eq!(unknown.level, Level::Problem);
    assert_eq!(unknown.headline, "branches: could not read HEAD in both halves");
}

#[test]
fn checks_the_fetch_refspec() {
    assert_eq!(check_fetch_refspec(Half::Private, true).headline, "private: fetch refspec configured");
    let f = check_fetch_refspec(Half::Private, false);
    assert_eq!(f.level, Level::Problem);
    assert_eq!(
        f.detail[2],
        "Fix: git --git-dir=.ppgit config remote.origin.fetch '+refs/heads/*:refs/remotes/origin/*'"
    );
}

#[test]
fn notes_a_missing_list() {
    assert_eq!(check_layout(true).headline, "layout: .git, .ppgit and .ppgitignore present");
    let f = check_layout(false);
    assert_eq!(f.level, Level::Note);
    assert_eq!(f.headline, "layout: no .ppgitignore");
}

#[test]
fn reports_files_tracked_publicly_though_listed() {
    assert_eq!(check_tracked_but_ignored(&ok("")).level, Level::Fine);
    let f = check_tracked_but_ignored(&ok("a\nb"));
    assert_eq!(f.level, Level::Problem);
    assert_eq!(f.detail[0], "2 file(s) listed as private but tracked publicly:");
    assert_eq!(f.detail[1], "    a");
    assert_eq!(f.detail[5], "    git rm --cached -- a");
    let n = check_tracked_but_ignored(&err("git failed"));
    assert_eq!(n.level, Level::Note);
    assert_eq!(n.detail, strings(&["git failed"]));
}

#[test]
fn sync_asks_one_question_at_a_time() {
    assert_eq!(asked(check_sync(Half::Public, &[])), strings(&["git", "symbolic-ref", "--short", "HEAD"]));
    assert_eq!(
        asked(check_sync(Half::Private, &[ok("main")])),
        strings(&["git", "--git-dir=.ppgit", "rev-parse", "--abbrev-ref", "@{upstream}"])
    );
    assert_eq!(
        asked(check_sync(Half::Public, &[ok("main"), ok("origin/main")])),
        strings(&["git", "rev-list", "--left-right", "--count", "main...origin/main"])
    );
    assert_eq!(
        asked(check_sync(Half::Public, &[ok("main"), err("none")])),
        strings(&["git", "rev-parse", "--verify", "-q", "origin/main"])
    );
}

#[test]
fn sync_notes_ahead_and_behind_and_flags_divergence() {
    let base = [ok("main"), ok("origin/main")];
    let step = |counts: &str| {
        let mut a = base.to_vec();
        a.push(ok(counts));
        found(check_sync(Half::Public, &a))
    };
    let even = step("0\t0");
    assert_eq!(even.level, Level::Fine);
    assert_eq!(even.headline, "public: main in step with origin/main");
    let ahead = step("2\t0");
    assert_eq!(ahead.level, Level::Note);
    assert_eq!(ahead.headline, "public: 2 commit(s) to push");
    let behind = step("0\t3");
    assert_eq!(behind.headline, "public: 3 commit(s) to pull");
    let diverged = step("2\t3");
    assert_eq!(diverged.level, Level::Problem);
    assert_eq!(diverged.headline, "public: main has diverged from origin/main (2 local, 3 remote)");
    let garbled = step("x y");
    assert_eq!(garbled.level, Level::Fine);
}

#[test]
fn sync_tells_a_new_branch_from_a_disconnected_one() {
    let new = found(check_sync(Half::Public, &[ok("feat"), err("none"), err("none")]));
    assert_eq!(new.level, Level::Note);
    assert_eq!(new.headline, "public: feat is not on the remote yet");
    let cut = found(check_sync(Half::Private, &[ok("feat"), err("none"), ok("abc")]));
    assert_eq!(cut.level, Level::Problem);
    assert_eq!(cut.headline, "private: feat has no upstream, though origin/feat exists");
    assert_eq!(cut.detail[1], "Fix: git --git-dir=.ppgit branch --set-upstream-to=origin/feat feat");
    let detached = found(check_sync(Half::Public, &[err("detached")]));
    assert_eq!(detached.headline, "public: not on a branch");
}

#[test]
fn remote_check_compares_with_what_gh_would_hand_out() {
    assert_eq!(
        asked(check_remote(Half::Public, &[])),
        strings(&["git", "config", "--get", "remote.origin.url"])
    );
    let configured = ok("git@github.com:o/n.git");
    let id = ok("o/n\nfalse");
    assert_eq!(asked(check_remote(Half::Public, &[configured.clone()]))[1], "repo");
    assert_eq!(
        asked(check_remote(Half::Public, &[configured.clone(), id.clone()])),
        strings(&["gh", "config", "get", "git_protocol"])
    );
    assert_eq!(
        asked(check_remote(Half::Public, &[configured.clone(), id.clone(), ok("ssh")])),
        strings(&["gh", "repo", "view", "o/n", "--json", "sshUrl", "-q", ".sshUrl"])
    );
    let same = found(check_remote(
        Half::Public,
        &[configured.clone(), id.clone(), ok("ssh"), ok("git@github.com:o/n")],
    ));
    assert_eq!(same.level, Level::Fine);
    assert_eq!(same.headline, "public: origin is git@github.com:o/n.git");
    let other = found(check_remote(
        Half::Public,
        &[configured.clone(), id.clone(), ok("https"), ok("https://github.com/o/n")],
    ));
    assert_eq!(other.level, Level::Problem);
    assert_eq!(other.detail[4], "Fix: git --git-dir=.git remote set-url origin https://github.com/o/n");
    let offline = found(check_remote(Half::Public, &[configured.clone(), err("offline")]));
    assert_eq!(offline.level, Level::Note);
    let none = found(check_remote(Half::Private, &[err("unset")]));
    assert_eq!(none.level, Level::Problem);
    assert_eq!(none.headline, "private: no origin configured");
}

#[test]
fn reads_paths_and_hashes_from_a_tree_listing() {
    let listing = "100644 blob aaa\tREADME.md\0100644 blob bbb\tsrc/a b.rs\0";
    let mut blobs = tracked_blobs(listing);
    blobs.sort();
    assert_eq!(
        blobs,
        vec![
            ("README.md".to_string(), "aaa".to_string()),
            ("src/a b.rs".to_string(), "bbb".to_string()),
        ]
    );
}

#[test]
fn superset_holds_when_private_has_everything_public_does() {
    let public = ok("100644 blob aaa\ta\0");
    let private = ok("100644 blob aaa\ta\0100644 blob ccc\tnotes\0");
    let f = check_superset(&public, &private);
    assert_eq!(f.level, Level::Fine);
    assert_eq!(f.headline, "superset: private holds all 1 publicly tracked file(s)");
}

#[test]
fn superset_lists_missing_and_stale_paths_sorted() {
    let public = ok("100644 blob x\tz\0100644 blob y\tb\0100644 blob q\tstale\0");
    let private = ok("100644 blob old\tstale\0");
    let f = check_superset(&public, &private);
    assert_eq!(f.level, Level::Problem);
    assert_eq!(
        f.detail,
        strings(&[
            "2 file(s) the private half doesn't track:",
            "    b",
            "    z",
            "1 file(s) the private half has at an older version:",
            "    stale",
            "The private repository is meant to contain everything the public one",
            "does. This is what a public-only `pull` leaves behind.",
            "Fix: pp add . && pp commit",
        ])
    );
    let n = check_superset(&err("no HEAD"), &private);
    assert_eq!(n.level, Level::Note);
}

#[test]
fn fails_exactly_when_a_finding_is_a_problem() {
    let fine = [Finding::ok("a".to_string()), Finding::note("b".to_string(), vec![])];
    let r = doctor_report(&fine);
    assert_eq!(r.code, 0);
    assert_eq!(r.lines, strings(&["      ok  a", "    note  b", "", "No problems, 1 note(s)."]));
    let bad = [Finding::problem("c".to_string(), vec![]), Finding::note("d".to_string(), vec![])];
    let r = doctor_report(&bad);
    assert_eq!(r.code, 1);
    assert_eq!(r.lines.last().unwrap(), "1 problem(s), 1 note(s).");
    assert_eq!(doctor_report(&[]).lines, strings(&["", "Everything checks out."]));
}

#[test]
fn doctor_takes_no_arguments() {
    let args = vec![b"doctor".to_vec(), b"x".to_vec()];
    match cmd_doctor(&args, &[]) {
        Action::Warn(l) => assert_eq!(l[0], "usage: ppgit doctor"),
        _ => panic!("expected usage"),
    }
    assert!(matches!(cmd_doctor(&args, &[Reply::Done]), Action::Finish(1)));
}

#[test]
fn doctor_refuses_outside_a_project() {
    let args = vec![b"doctor".to_vec()];
    assert!(matches!(cmd_doctor(&args, &[]), Action::Io(IoStep::ProjectDirs)));
    let replies = vec![Reply::Io(Err("no".to_string()))];
    match cmd_doctor(&args, &replies) {
        Action::Warn(l) => assert!(l[0].starts_with("ppgit: not a ppgit project")),
        _ => panic!("expected a refusal"),
    }
}

#[test]
fn doctor_runs_every_check_and_reports() {
    let args = vec![b"doctor".to_vec()];
    let mut replies = vec![Reply::Io(Ok(String::new()))];
    assert!(matches!(cmd_doctor(&args, &replies), Action::Say(_)));
    replies.push(Reply::Done);
    assert!(matches!(cmd_doctor(&args, &replies), Action::Io(IoStep::ListExists)));
    replies.push(Reply::Io(Ok(String::new())));
    assert_eq!(command_line(&cmd_doctor(&args, &replies)), strings(&["git", "fetch", "--quiet"]));
    replies.push(ended(0));
    assert_eq!(command_line(&cmd_doctor(&args, &replies)), strings(&["git", "--git-dir=.ppgit", "fetch", "--quiet"]));
    replies.push(ended(1));
    replies.push(out("main\n"));
    replies.push(out("main\n"));
    for prefix in [vec!["--git-dir=.ppgit"], vec![]] {
        let mut expect = vec!["git"];
        expect.extend(prefix.iter().copied());
        expect.extend(["config", "--get", "remote.origin.url"]);
        assert_eq!(command_line(&cmd_doctor(&args, &replies)), strings(&expect));
        replies.push(out("https://github.com/o/n.git"));
        replies.push(out("o/n\nfalse\n"));
        replies.push(out("https"));
        replies.push(out("https://github.com/o/n"));
        replies.push(out("+refs/heads/*:refs/remotes/origin/*"));
        replies.push(out("main"));
        replies.push(out("origin/main"));
        replies.push(out("0\t0"));
    }
    assert_eq!(command_line(&cmd_doctor(&args, &replies)), strings(&["git", "ls-tree", "-r", "-z", "HEAD"]));
    replies.push(out("100644 blob a\tf\0"));
    replies.push(out("100644 blob a\tf\0"));
    assert!(matches!(cmd_doctor(&args, &replies), Action::Io(IoStep::TrackedListing)));
    replies.push(Reply::Io(Ok(String::new())));
    match cmd_doctor(&args, &replies) {
        Action::Say(lines) => {
            assert_eq!(lines[0], "      ok  layout: .git, .ppgit and .ppgitignore present");
            assert_eq!(lines[1], "    note  could not fetch the private remote(s)");
            assert_eq!(lines.last().unwrap(), "No problems, 1 note(s).");
        }
        _ => panic!("expected the report"),
    }
    replies.push(Reply::Done);
    assert!(matches!(cmd_doctor(&args, &replies), Action::Finish(0)));
}

#[test]
fn doctor_queries_address_each_half() {
    let c = blobs_query(Half::Private);
    assert_eq!(c.args, strings(&["--git-dir=.ppgit", "ls-tree", "-r", "-z", "HEAD"]));
    assert_eq!(fetch_command(Half::Public).args, strings(&["fetch", "--quiet"]));
    assert_eq!(Half::Private.git_dir(), ".ppgit");
    assert_eq!(Half::Public.name(), "public");
}

#[test]
fn normalises_a_url_with_both_decorations() {
    assert_eq!(normalise_url("https://github.com/o/n.git/"), "https://github.com/o/n");
}
