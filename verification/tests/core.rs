use ppgit::cli::{is_push, recognize, route, Builtin, Route, Scope};
use ppgit::commands::commit::{
    announce, cmd_commit, commit_on_both, commit_plan, opens_an_editor, public_commit_args, private_args,
    run_on_both, CommitPlan,
};
use ppgit::commands::init::cmd_init;
use ppgit::commands::{cmd_help, cmd_version};
use ppgit::exec::{
    into_exit_code, io_checked, run_loud_checked, run_quiet_ok, run_quiet_stdout, status_to_exit_code, to_git,
    command, ExitStatusModel, LoudOutcome, QuietOutcome,
};
use ppgit::flow::{Action, IoStep, Reply};
use ppgit::gh::{ensure_gh_ready, parse_repo_identity, repo_create, repo_exists, repo_url};
use ppgit::run;
use ppgit::text::{decimal_text, parse_u32, signed_text, sort_texts, trim, words};

fn out(s: &str) -> Reply {
    Reply::Output(QuietOutcome::Finished { success: true, status: "exit status: 0".to_string(), stdout: s.as_bytes().to_vec() })
}

fn failed() -> Reply {
    Reply::Output(QuietOutcome::Finished { success: false, status: "exit status: 1".to_string(), stdout: Vec::new() })
}

fn ended(code: i32) -> Reply {
    Reply::Ended(LoudOutcome::Ended(ExitStatusModel { code: Some(code), signal: None }))
}

fn status(code: Option<i32>, signal: Option<i32>) -> ExitStatusModel {
    ExitStatusModel { code, signal }
}

fn command_line(a: &Action) -> Vec<String> {
    let c = match a {
        Action::Quiet(c) | Action::Loud(c) => c,
        _ => panic!("expected a command"),
    };
    let mut v = vec![c.program.clone()];
    v.extend(c.args.iter().cloned());
    v
}

fn strings(v: &[&str]) -> Vec<String> {
    v.iter().map(|s| s.to_string()).collect()
}

fn args(v: &[&str]) -> Vec<Vec<u8>> {
    v.iter().map(|s| s.as_bytes().to_vec()).collect()
}

#[test]
fn recognizes_ppgits_own_commands() {
    assert_eq!(recognize(&[]), Some(Builtin::Help));
    for a in ["help", "--help", "-h"] {
        assert_eq!(recognize(&args(&[a])), Some(Builtin::Help));
    }
    assert_eq!(recognize(&args(&["--version"])), Some(Builtin::Version));
    assert_eq!(recognize(&args(&["-V", "x"])), Some(Builtin::Version));
    assert_eq!(recognize(&args(&["init"])), Some(Builtin::Init));
    assert_eq!(recognize(&args(&["clone", "proj"])), Some(Builtin::Clone));
    assert_eq!(recognize(&args(&["doctor"])), Some(Builtin::Doctor));
    assert_eq!(recognize(&args(&["status"])), None);
    assert_eq!(recognize(&[vec![0xff, 0xfe]]), None);
}

#[test]
fn knows_a_push() {
    assert!(is_push(&args(&["push", "origin"])));
    assert!(is_push(&args(&["--public", "push"])));
    assert!(!is_push(&args(&["--public"])));
    assert!(!is_push(&args(&["pull"])));
    assert!(!is_push(&[]));
}

#[test]
fn prints_help_and_version() {
    assert_eq!(cmd_version("1.2.3"), "ppgit 1.2.3");
    let h = cmd_help("1.2.3", "https://example.org/ppgit");
    assert!(h.starts_with("ppgit 1.2.3 — passthrough wrapper around git\n\nUsage:\n"));
    assert!(h.ends_with("\n\nhttps://example.org/ppgit"));
}

#[test]
fn exit_codes_keep_the_low_byte() {
    assert_eq!(status_to_exit_code(Some(3)), 3);
    assert_eq!(status_to_exit_code(Some(-1)), 255);
    assert_eq!(status_to_exit_code(Some(256)), 0);
    assert_eq!(status_to_exit_code(None), 1);
}

#[test]
fn explains_an_exit_without_a_code() {
    let ok = into_exit_code(&status(Some(0), None), "git");
    assert_eq!((ok.code, ok.message), (0, None));
    let code = into_exit_code(&status(Some(2), None), "git");
    assert_eq!((code.code, code.message), (2, None));
    let killed = into_exit_code(&status(None, Some(9)), "git");
    assert_eq!(killed.code, 137);
    assert_eq!(killed.message, Some("ppgit: git was terminated by signal 9".to_string()));
    let odd = into_exit_code(&status(None, None), "git");
    assert_eq!(odd.code, 1);
    assert_eq!(odd.message, Some("ppgit: git terminated abnormally, no exit code available".to_string()));
}

#[test]
fn passes_gits_exit_through() {
    let x = to_git(&LoudOutcome::Ended(status(Some(5), None)));
    assert_eq!((x.code, x.message), (5, None));
    let y = to_git(&LoudOutcome::NotLaunched { error: "not found".to_string() });
    assert_eq!(y.code, 1);
    assert_eq!(y.message, Some("ppgit: failed to launch git: not found".to_string()));
}

#[test]
fn checked_runs_succeed_only_on_exit_zero() {
    assert!(run_loud_checked("git", &LoudOutcome::Ended(status(Some(0), None))).is_ok());
    let e = run_loud_checked("gh", &LoudOutcome::Ended(status(Some(4), None))).unwrap_err();
    assert_eq!((e.code, e.message), (4, None));
    let f = run_loud_checked("gh", &LoudOutcome::NotLaunched { error: "missing".to_string() }).unwrap_err();
    assert_eq!(f.message, Some("ppgit: failed to launch gh: missing".to_string()));
    let g = run_loud_checked("git", &LoudOutcome::Ended(status(None, Some(15)))).unwrap_err();
    assert_eq!((g.code, g.message), (1, None));
}

#[test]
fn quiet_runs_yield_trimmed_output_or_why_not() {
    let c = command("git", strings(&["log", "-1"]));
    let good = QuietOutcome::Finished { success: true, status: "exit status: 0".to_string(), stdout: b"  msg\n\n".to_vec() };
    assert_eq!(run_quiet_stdout(&c, &good), Ok("msg".to_string()));
    assert!(run_quiet_ok(&good));
    let bad = QuietOutcome::Finished { success: false, status: "exit status: 128".to_string(), stdout: b"x".to_vec() };
    assert_eq!(run_quiet_stdout(&c, &bad), Err("git log -1 exited with exit status: 128".to_string()));
    assert!(!run_quiet_ok(&bad));
    let lost = QuietOutcome::NotLaunched { error: "No such file".to_string() };
    assert_eq!(run_quiet_stdout(&c, &lost), Err("No such file".to_string()));
    let invalid = QuietOutcome::Finished { success: true, status: String::new(), stdout: vec![b'a', 0xff, b'b'] };
    assert_eq!(run_quiet_stdout(&c, &invalid), Ok("a\u{fffd}b".to_string()));
}

#[test]
fn io_checked_names_the_failed_step() {
    assert_eq!(io_checked(Ok("x".to_string()), "read").ok(), Some("x".to_string()));
    let e = io_checked(Err("denied".to_string()), "create .ppgitignore").unwrap_err();
    assert_eq!(e.code, 1);
    assert_eq!(e.message, Some("ppgit: failed to create .ppgitignore: denied".to_string()));
}

#[test]
fn gh_commands_and_answers() {
    assert_eq!(repo_create("proj", true).args, strings(&["repo", "create", "proj", "--private"]));
    assert_eq!(repo_create("proj", false).args, strings(&["repo", "create", "proj", "--public"]));
    assert_eq!(
        repo_url("me/proj", &Ok("ssh".to_string())).args,
        strings(&["repo", "view", "me/proj", "--json", "sshUrl", "-q", ".sshUrl"])
    );
    assert_eq!(
        repo_url("me/proj", &Err("no config".to_string())).args,
        strings(&["repo", "view", "me/proj", "--json", "url", "-q", ".url"])
    );
    assert_eq!(repo_url("me/proj", &Ok("https".to_string())).args[4], "url");
    let id = parse_repo_identity("me/pp-proj\ntrue\n").unwrap();
    assert_eq!((id.name_with_owner.as_str(), id.is_private), ("me/pp-proj", true));
    assert_eq!(
        parse_repo_identity("garbage").err(),
        Some("gh returned an unexpected repository description: garbage".to_string())
    );
    let ready = QuietOutcome::Finished { success: true, status: String::new(), stdout: Vec::new() };
    assert!(ensure_gh_ready(&ready).is_ok());
    assert!(repo_exists(&ready));
    let not = QuietOutcome::NotLaunched { error: "gh".to_string() };
    let e = ensure_gh_ready(&not).unwrap_err();
    assert_eq!(e.message, Some("ppgit: `gh` is not installed or not logged in — run `gh auth login`".to_string()));
    assert!(!repo_exists(&not));
}

#[test]
fn text_helpers_match_std() {
    assert_eq!(trim(" \t a b \n"), "a b");
    assert_eq!(decimal_text(0), "0");
    assert_eq!(decimal_text(1234567890123), "1234567890123");
    assert_eq!(signed_text(-42), "-42");
    let c: Vec<char> = "12 x 4294967295 4294967296".chars().collect();
    let w = words(&c);
    assert_eq!(w.len(), 4);
    assert_eq!(parse_u32(&w[0]), Some(12));
    assert_eq!(parse_u32(&w[1]), None);
    assert_eq!(parse_u32(&w[2]), Some(u32::MAX));
    assert_eq!(parse_u32(&w[3]), None);
    assert_eq!(parse_u32(&['+', '7']), Some(7));
    assert_eq!(parse_u32(&[]), None);
}

#[test]
fn sorts_texts_by_code_point() {
    let mut v: Vec<Vec<char>> = ["b", "a/z", "B", "a", ""].iter().map(|s| s.chars().collect()).collect();
    sort_texts(&mut v);
    let got: Vec<String> = v.iter().map(|c| c.iter().collect()).collect();
    let mut expected = strings(&["b", "a/z", "B", "a", ""]);
    expected.sort();
    assert_eq!(got, expected);
}

#[test]
fn a_commit_shares_the_editor_only_when_git_would_open_one() {
    assert!(opens_an_editor(&args(&["-a"])));
    assert!(!opens_an_editor(&args(&["-am", "msg"])));
    assert!(!opens_an_editor(&args(&["--message=msg"])));
    assert!(!opens_an_editor(&args(&["--no-edit"])));
    assert!(!opens_an_editor(&args(&["-F", "file"])));
    assert!(!opens_an_editor(&args(&["--amend", "--", "-m"])));
    assert!(opens_an_editor(&args(&["--verbose"])));
    assert_eq!(commit_plan(Scope::Both, &args(&["-a"])), CommitPlan::SharedEditor);
    assert_eq!(commit_plan(Scope::Both, &args(&["-m", "x"])), CommitPlan::Both);
    assert_eq!(commit_plan(Scope::Public, &args(&["-a"])), CommitPlan::Public);
    assert_eq!(commit_plan(Scope::Private, &args(&[])), CommitPlan::Private);
}

#[test]
fn commit_arguments_for_each_half() {
    assert_eq!(
        private_args(&args(&["-a"])),
        args(&["--git-dir=.ppgit", "--work-tree=.", "-a"])
    );
    assert_eq!(public_commit_args(&args(&["-a"])), args(&["-a", "-F", ".ppgit/PPGIT_COMMIT_MSG"]));
    assert_eq!(announce(".ppgit"), strings(&["ppgit: [.ppgit]"]));
}

#[test]
fn commit_on_both_reuses_the_private_message() {
    let a = args(&["-a"]);
    let mut replies = vec![];
    assert!(matches!(commit_on_both(&a, &replies), Action::Say(_)));
    replies.push(Reply::Done);
    assert!(matches!(commit_on_both(&a, &replies), Action::LoudGit(_)));
    replies.push(ended(0));
    assert_eq!(
        command_line(&commit_on_both(&a, &replies)),
        strings(&["git", "--git-dir=.ppgit", "log", "-1", "--format=%B"])
    );
    replies.push(out("Fix it\n"));
    match commit_on_both(&a, &replies) {
        Action::Io(IoStep::WriteFile { path, contents }) => {
            assert_eq!(path, ".ppgit/PPGIT_COMMIT_MSG");
            assert_eq!(contents, "Fix it");
        }
        _ => panic!("expected the message file"),
    }
    replies.push(Reply::Io(Ok(String::new())));
    replies.push(Reply::Done);
    match commit_on_both(&a, &replies) {
        Action::LoudGit(v) => assert_eq!(v, args(&["-a", "-F", ".ppgit/PPGIT_COMMIT_MSG"])),
        _ => panic!("expected the public commit"),
    }
    replies.push(ended(1));
    assert!(matches!(commit_on_both(&a, &replies), Action::Io(IoStep::RemoveFile(_))));
    replies.push(Reply::Io(Ok(String::new())));
    assert!(matches!(commit_on_both(&a, &replies), Action::Finish(0)));
}

#[test]
fn commit_on_both_stops_when_the_private_commit_fails() {
    let a = args(&[]);
    let replies = vec![Reply::Done, ended(1)];
    assert!(matches!(commit_on_both(&a, &replies), Action::Finish(1)));
    let replies = vec![Reply::Done, ended(0), failed()];
    match commit_on_both(&a, &replies) {
        Action::Warn(l) => assert_eq!(l[1], "ppgit: commit the public half yourself with the same message"),
        _ => panic!("expected the warning"),
    }
}

#[test]
fn init_sets_up_both_halves_once() {
    let mut replies = vec![];
    assert_eq!(command_line(&cmd_init(&replies)), strings(&["git", "init"]));
    replies.push(ended(0));
    assert!(matches!(cmd_init(&replies), Action::Io(IoStep::CreateTemplate)));
    replies.push(Reply::Io(Ok(String::new())));
    assert_eq!(command_line(&cmd_init(&replies)), strings(&["git", "--git-dir=.ppgit", "rev-parse", "--git-dir"]));
    replies.push(failed());
    assert_eq!(command_line(&cmd_init(&replies)), strings(&["git", "rev-parse", "--verify", "--quiet", "HEAD"]));
    replies.push(failed());
    assert_eq!(command_line(&cmd_init(&replies)), strings(&["git", "init", "--bare", ".ppgit"]));
    replies.push(ended(0));
    assert!(matches!(cmd_init(&replies), Action::Io(IoStep::SyncExcludes)));
    replies.push(Reply::Io(Ok(String::new())));
    assert_eq!(command_line(&cmd_init(&replies)), strings(&["git", "config", "push.autoSetupRemote", "true"]));
    replies.push(ended(0));
    replies.push(ended(0));
    assert!(matches!(cmd_init(&replies), Action::Io(IoStep::ProjectName)));
    replies.push(Reply::Io(Ok("proj".to_string())));
    replies.push(out(""));
    assert_eq!(command_line(&cmd_init(&replies)), strings(&["gh", "repo", "view", "proj"]));
    replies.push(out(""));
    assert_eq!(command_line(&cmd_init(&replies)), strings(&["gh", "repo", "view", "pp-proj"]));
    replies.push(failed());
    assert_eq!(command_line(&cmd_init(&replies)), strings(&["gh", "repo", "create", "pp-proj", "--private"]));
    replies.push(ended(0));
    replies.push(out("https"));
    replies.push(out("https://github.com/me/proj"));
    replies.push(out("https"));
    replies.push(out("https://github.com/me/pp-proj"));
    assert_eq!(command_line(&cmd_init(&replies)), strings(&["git", "remote", "get-url", "origin"]));
    replies.push(out("https://github.com/me/proj"));
    assert_eq!(
        command_line(&cmd_init(&replies)),
        strings(&["git", "--git-dir=.ppgit", "remote", "get-url", "origin"])
    );
    replies.push(failed());
    assert_eq!(
        command_line(&cmd_init(&replies)),
        strings(&["git", "--git-dir=.ppgit", "remote", "add", "origin", "https://github.com/me/pp-proj"])
    );
    replies.push(ended(0));
    assert!(matches!(cmd_init(&replies), Action::Finish(0)));
}

#[test]
fn init_gives_up_on_the_first_failed_step() {
    let replies = vec![ended(0), Reply::Io(Err("denied".to_string()))];
    match cmd_init(&replies) {
        Action::Warn(l) => assert_eq!(l, strings(&["ppgit: failed to create .ppgitignore: denied"])),
        _ => panic!("expected the failure"),
    }
    let replies = vec![ended(0), Reply::Io(Err("denied".to_string())), Reply::Done];
    assert!(matches!(cmd_init(&replies), Action::Finish(1)));
}

#[test]
fn run_syncs_excludes_before_anything_else() {
    let a = args(&["status"]);
    assert!(matches!(run(&a, "1.0", "r", &[]), Action::Io(IoStep::SyncExcludes)));
    let failed_sync = vec![Reply::Io(Err("read-only".to_string()))];
    match run(&a, "1.0", "r", &failed_sync) {
        Action::Warn(l) => assert_eq!(l, strings(&["ppgit: failed to sync exclude files: read-only"])),
        _ => panic!("expected the failure"),
    }
    let replies = vec![Reply::Io(Ok(String::new()))];
    assert!(matches!(run(&a, "1.0", "r", &replies), Action::Io(IoStep::TrackedListing)));
}

#[test]
fn run_passes_other_commands_to_git() {
    let a = vec![b"log".to_vec(), vec![0xff, b'x']];
    let mut replies = vec![Reply::Io(Ok(String::new())), Reply::Io(Ok(String::new()))];
    match run(&a, "1.0", "r", &replies) {
        Action::LoudGit(v) => assert_eq!(v, a),
        _ => panic!("expected git"),
    }
    replies.push(ended(3));
    assert!(matches!(run(&a, "1.0", "r", &replies), Action::Finish(3)));
    let mut killed = vec![Reply::Io(Ok(String::new())), Reply::Io(Ok(String::new()))];
    killed.push(Reply::Ended(LoudOutcome::Ended(status(None, Some(2)))));
    match run(&a, "1.0", "r", &killed) {
        Action::Warn(l) => assert_eq!(l, strings(&["ppgit: git was terminated by signal 2"])),
        _ => panic!("expected the explanation"),
    }
    killed.push(Reply::Done);
    assert!(matches!(run(&a, "1.0", "r", &killed), Action::Finish(130)));
}

#[test]
fn run_refuses_a_push_while_private_files_are_tracked() {
    let a = args(&["push"]);
    let mut replies = vec![Reply::Io(Ok(String::new())), Reply::Io(Ok("secret.md\n".to_string()))];
    match run(&a, "1.0", "r", &replies) {
        Action::Warn(l) => assert_eq!(l[1], "    secret.md"),
        _ => panic!("expected the warning"),
    }
    replies.push(Reply::Done);
    match run(&a, "1.0", "r", &replies) {
        Action::Warn(l) => assert_eq!(l, strings(&["ppgit: refusing to push until the above is resolved"])),
        _ => panic!("expected the refusal"),
    }
    replies.push(Reply::Done);
    assert!(matches!(run(&a, "1.0", "r", &replies), Action::Finish(1)));
    let s = args(&["log"]);
    let replies = vec![Reply::Io(Ok(String::new())), Reply::Io(Ok("secret.md\n".to_string())), Reply::Done];
    assert!(matches!(run(&s, "1.0", "r", &replies), Action::LoudGit(_)));
    let scoped = args(&["--public", "push"]);
    assert!(matches!(run(&scoped, "1.0", "r", &replies), Action::Warn(_)));
}

#[test]
fn run_only_warns_when_the_check_fails() {
    let a = args(&["push"]);
    let replies = vec![Reply::Io(Ok(String::new())), Reply::Io(Err("git missing".to_string()))];
    match run(&a, "1.0", "r", &replies) {
        Action::Warn(l) => {
            assert_eq!(l, strings(&["ppgit: warning: could not check for .ppgitignore conflicts: git missing"]))
        }
        _ => panic!("expected the warning"),
    }
    let replies = vec![Reply::Io(Ok(String::new())), Reply::Io(Err("x".to_string())), Reply::Done];
    match run(&a, "1.0", "r", &replies) {
        Action::Say(l) => assert_eq!(l, strings(&["ppgit: [.ppgit]"])),
        _ => panic!("expected the private push first"),
    }
}

#[test]
fn run_answers_help_and_version_itself() {
    let replies = vec![Reply::Io(Ok(String::new())), Reply::Io(Ok(String::new()))];
    match run(&args(&["-V"]), "0.4.0", "r", &replies) {
        Action::Say(l) => assert_eq!(l, strings(&["ppgit 0.4.0"])),
        _ => panic!("expected the version"),
    }
    match run(&[], "0.4.0", "https://x", &replies) {
        Action::Say(l) => assert!(l[0].starts_with("ppgit 0.4.0 — ")),
        _ => panic!("expected the help"),
    }
    assert_eq!(command_line(&run(&args(&["init"]), "0.4.0", "r", &replies)), strings(&["git", "init"]));
    let mut done = replies;
    done.push(Reply::Done);
    assert!(matches!(run(&args(&["--help"]), "0.4.0", "r", &done), Action::Finish(0)));
}

#[test]
fn a_dual_run_goes_private_first_and_exits_as_it_did() {
    let a = args(&["status"]);
    let mut replies = vec![];
    match run_on_both(&a, &replies) {
        Action::Say(l) => assert_eq!(l, strings(&["ppgit: [.ppgit]"])),
        _ => panic!("expected the announcement"),
    }
    replies.push(Reply::Done);
    match run_on_both(&a, &replies) {
        Action::LoudGit(v) => assert_eq!(v, args(&["--git-dir=.ppgit", "--work-tree=.", "status"])),
        _ => panic!("expected the private run"),
    }
    replies.push(ended(0));
    match run_on_both(&a, &replies) {
        Action::Say(l) => assert_eq!(l, strings(&["ppgit: [.git]"])),
        _ => panic!("expected the announcement"),
    }
    replies.push(Reply::Done);
    match run_on_both(&a, &replies) {
        Action::LoudGit(v) => assert_eq!(v, a),
        _ => panic!("expected the public run"),
    }
    replies.push(ended(1));
    assert!(matches!(run_on_both(&a, &replies), Action::Finish(0)));
    let failed_private = vec![Reply::Done, ended(2), Reply::Done, ended(0)];
    assert!(matches!(run_on_both(&a, &failed_private), Action::Finish(2)));
}

#[test]
fn a_commit_to_one_repository_is_a_passthrough() {
    let a = args(&["-m", "x"]);
    match cmd_commit(Scope::Private, &a, &[]) {
        Action::LoudGit(v) => assert_eq!(v, args(&["--git-dir=.ppgit", "--work-tree=.", "-m", "x"])),
        _ => panic!("expected git"),
    }
    match cmd_commit(Scope::Public, &a, &[]) {
        Action::LoudGit(v) => assert_eq!(v, a),
        _ => panic!("expected git"),
    }
    assert!(matches!(cmd_commit(Scope::Public, &a, &[ended(1)]), Action::Finish(1)));
    assert!(matches!(cmd_commit(Scope::Both, &a, &[]), Action::Say(_)));
    assert!(matches!(cmd_commit(Scope::Both, &args(&["-a"]), &[Reply::Done]), Action::LoudGit(_)));
}

#[test]
fn run_hands_clone_and_doctor_their_own_replies() {
    let synced = vec![Reply::Io(Ok(String::new())), Reply::Io(Ok(String::new()))];
    assert_eq!(command_line(&run(&args(&["clone", "proj"]), "1", "r", &synced)), strings(&["gh", "auth", "status"]));
    let mut more = vec![Reply::Io(Ok(String::new())), Reply::Io(Ok(String::new()))];
    more.push(out("logged in"));
    assert_eq!(command_line(&run(&args(&["clone", "proj"]), "1", "r", &more))[3], "proj");
    assert!(matches!(run(&args(&["doctor"]), "1", "r", &synced), Action::Io(IoStep::ProjectDirs)));
    let mut outside = vec![Reply::Io(Ok(String::new())), Reply::Io(Ok(String::new()))];
    outside.push(Reply::Io(Err("no".to_string())));
    assert!(matches!(run(&args(&["doctor"]), "1", "r", &outside), Action::Warn(_)));
}

#[test]
fn a_second_init_creates_nothing() {
    let mut replies = vec![];
    let answers = vec![
        ended(0),
        Reply::Io(Ok(String::new())),
        out(".ppgit"),
        ended(0),
        Reply::Io(Ok(String::new())),
        ended(0),
        ended(0),
        Reply::Io(Ok("proj".to_string())),
        out("logged in"),
        out(""),
        out(""),
        out("https"),
        out("https://github.com/me/proj"),
        out("https"),
        out("https://github.com/me/pp-proj"),
        out("https://github.com/me/proj.git"),
        out("https://github.com/me/pp-proj.git"),
    ];
    for answer in answers {
        match cmd_init(&replies) {
            Action::Loud(c) => {
                assert_eq!(c.program, "git");
                assert!(!c.args.iter().any(|a| a == "add" || a == "create" || a == "clone"));
            }
            Action::Quiet(c) => assert!(!c.args.iter().any(|a| a == "add" || a == "create")),
            Action::Io(_) => {}
            _ => panic!("unexpected action"),
        }
        replies.push(answer);
    }
    assert!(matches!(cmd_init(&replies), Action::Finish(0)));
}

#[test]
fn init_starts_the_private_half_from_existing_public_history() {
    let mut replies = vec![ended(0), Reply::Io(Ok(String::new())), failed(), out("abc123")];
    assert_eq!(
        command_line(&cmd_init(&replies)),
        strings(&["git", "clone", "--bare", "--quiet", ".git", ".ppgit"])
    );
    replies.push(ended(0));
    assert_eq!(
        command_line(&cmd_init(&replies)),
        strings(&["git", "--git-dir=.ppgit", "remote", "remove", "origin"])
    );
    replies.push(ended(0));
    assert_eq!(
        command_line(&cmd_init(&replies)),
        strings(&["git", "--git-dir=.ppgit", "--work-tree=.", "reset", "--quiet"])
    );
    replies.push(ended(0));
    assert!(matches!(cmd_init(&replies), Action::Io(IoStep::SyncExcludes)));
    let mut refused = vec![ended(0), Reply::Io(Ok(String::new())), failed(), out("abc123"), ended(128)];
    assert!(matches!(cmd_init(&refused), Action::Finish(128)));
    refused.truncate(3);
    refused[2] = out(".ppgit");
    assert_eq!(command_line(&cmd_init(&refused)), strings(&["git", "init", "--bare", ".ppgit"]));
}

fn routed(v: &[&str]) -> (Scope, Vec<Vec<u8>>) {
    match route(&args(v)) {
        Route::Run(s, rest) => (s, rest),
        Route::Refuse(c) => panic!("refused {c}"),
    }
}

#[test]
fn routes_commands_to_one_repository_or_both() {
    for c in ["add", "commit", "status", "rm", "mv", "restore", "push", "pull", "fetch"] {
        assert_eq!(routed(&[c]), (Scope::Both, args(&[c])));
    }
    assert_eq!(routed(&["log", "-1"]), (Scope::Public, args(&["log", "-1"])));
    assert_eq!(routed(&["--private", "log"]), (Scope::Private, args(&["log"])));
    assert_eq!(routed(&["--public", "status"]), (Scope::Public, args(&["status"])));
    assert_eq!(routed(&["--both", "log"]), (Scope::Both, args(&["log"])));
    assert_eq!(routed(&[]), (Scope::Public, vec![]));
    assert_eq!(routed(&["--private"]), (Scope::Private, vec![]));
}

#[test]
fn branch_commands_always_run_against_both() {
    for c in ["branch", "checkout", "switch", "merge"] {
        assert_eq!(routed(&[c, "x"]), (Scope::Both, args(&[c, "x"])));
        assert_eq!(routed(&["--both", c]), (Scope::Both, args(&[c])));
        for flag in ["--public", "--private"] {
            match route(&args(&[flag, c])) {
                Route::Refuse(cmd) => assert_eq!(cmd, c),
                Route::Run(..) => panic!("expected a refusal"),
            }
        }
    }
    assert_eq!(routed(&["--private", "checkout", "--", "a.txt"]), (Scope::Private, args(&["checkout", "--", "a.txt"])));
    assert_eq!(routed(&["checkout", "--", "a.txt"]), (Scope::Both, args(&["checkout", "--", "a.txt"])));
}

#[test]
fn run_sends_each_command_where_it_goes() {
    let synced = vec![Reply::Io(Ok(String::new())), Reply::Io(Ok(String::new()))];
    match run(&args(&["--private", "log"]), "1", "r", &synced) {
        Action::LoudGit(v) => assert_eq!(v, args(&["--git-dir=.ppgit", "--work-tree=.", "log"])),
        _ => panic!("expected the private log"),
    }
    match run(&args(&["--public", "switch", "main"]), "1", "r", &synced) {
        Action::Warn(l) => assert_eq!(
            l,
            strings(&["ppgit: `switch` always runs against both repositories — they share one working tree"])
        ),
        _ => panic!("expected the refusal"),
    }
    let mut refused = vec![Reply::Io(Ok(String::new())), Reply::Io(Ok(String::new()))];
    refused.push(Reply::Done);
    assert!(matches!(run(&args(&["--public", "switch", "main"]), "1", "r", &refused), Action::Finish(1)));
    match run(&args(&["status"]), "1", "r", &synced) {
        Action::Say(l) => assert_eq!(l, strings(&["ppgit: [.ppgit]"])),
        _ => panic!("expected the private status first"),
    }
    let mut commit = vec![Reply::Io(Ok(String::new())), Reply::Io(Ok(String::new()))];
    commit.push(Reply::Done);
    match run(&args(&["commit", "-a"]), "1", "r", &commit) {
        Action::LoudGit(v) => assert_eq!(v, args(&["--git-dir=.ppgit", "--work-tree=.", "commit", "-a"])),
        _ => panic!("expected the private commit"),
    }
    commit.push(ended(0));
    assert_eq!(
        command_line(&run(&args(&["commit", "-a"]), "1", "r", &commit)),
        strings(&["git", "--git-dir=.ppgit", "log", "-1", "--format=%B"])
    );
}
