use ppgit::commands::clone::{
    cmd_clone, counterpart, destination_dir, halves, missing_counterpart, parse, warn_if_branches_differ,
};
use ppgit::exec::{ExitStatusModel, LoudOutcome, QuietOutcome};
use ppgit::flow::{Action, IoStep, Reply};
use ppgit::gh::RepoIdentity;

fn identity(name_with_owner: &str, is_private: bool) -> RepoIdentity {
    RepoIdentity { name_with_owner: name_with_owner.to_string(), is_private }
}

fn out(s: &str) -> Reply {
    Reply::Output(QuietOutcome::Finished { success: true, status: "exit status: 0".to_string(), stdout: s.as_bytes().to_vec() })
}

fn missing() -> Reply {
    Reply::Output(QuietOutcome::Finished { success: false, status: "exit status: 1".to_string(), stdout: Vec::new() })
}

fn ended(code: i32) -> Reply {
    Reply::Ended(LoudOutcome::Ended(ExitStatusModel { code: Some(code), signal: None }))
}

fn command_line(a: &Action) -> Vec<String> {
    let c = match a {
        Action::Quiet(c) | Action::Loud(c) => c,
        _ => panic!("expected a command"),
    };
    let mut v = vec![c.program.clone()];
    v.extend(c.args.iter().cloned());
    v
}

fn strings(v: &[&str]) -> Vec<String> {
    v.iter().map(|s| s.to_string()).collect()
}

#[test]
fn derives_the_private_half_from_the_public_one() {
    let (public, private) = halves(&identity("me/proj", false)).unwrap();
    assert_eq!(public, "me/proj");
    assert_eq!(private, "me/pp-proj");
}

#[test]
fn derives_the_public_half_from_the_private_one() {
    let (public, private) = halves(&identity("me/pp-proj", true)).unwrap();
    assert_eq!(public, "me/proj");
    assert_eq!(private, "me/pp-proj");
}

#[test]
fn treats_a_public_pp_name_as_a_public_half() {
    let (public, private) = halves(&identity("me/pp-proj", false)).unwrap();
    assert_eq!(public, "me/pp-proj");
    assert_eq!(private, "me/pp-pp-proj");
}

#[test]
fn treats_a_private_repo_without_the_prefix_as_a_public_half() {
    let (public, private) = halves(&identity("me/proj", true)).unwrap();
    assert_eq!(public, "me/proj");
    assert_eq!(private, "me/pp-proj");
}

#[test]
fn defaults_the_directory_to_the_public_name_without_its_owner() {
    assert_eq!(destination_dir(None, "me/proj"), b"proj".to_vec());
}

#[test]
fn prefers_an_explicit_directory() {
    let explicit = b"elsewhere".to_vec();
    assert_eq!(destination_dir(Some(explicit.clone()), "me/proj"), explicit);
}

#[test]
fn parses_the_two_positional_forms() {
    let repo = b"proj".to_vec();
    let dir = b"dir".to_vec();
    assert!(parse(std::slice::from_ref(&repo)).is_some());
    assert!(parse(&[repo.clone(), dir.clone()]).is_some());
}

#[test]
fn refuses_options_and_wrong_arity() {
    let repo = b"proj".to_vec();
    let dir = b"dir".to_vec();
    assert!(parse(&[]).is_none());
    assert!(parse(&[repo.clone(), dir.clone(), dir.clone()]).is_none());
    assert!(parse(&[b"--bare".to_vec(), repo]).is_none());
}

#[test]
fn both_halves_name_the_same_pair() {
    let from_public = halves(&identity("me/proj", false)).unwrap();
    let from_private = halves(&identity("me/pp-proj", true)).unwrap();
    assert_eq!(from_public, from_private);
}

#[test]
fn refuses_a_name_without_an_owner() {
    assert_eq!(
        halves(&identity("proj", false)),
        Err("gh returned a repository name without an owner: proj".to_string())
    );
}

#[test]
fn parse_keeps_the_directory() {
    let (repo, dir) = parse(&[b"o/p".to_vec(), b"d".to_vec()]).unwrap();
    assert_eq!(repo, b"o/p".to_vec());
    assert_eq!(dir, Some(b"d".to_vec()));
    assert_eq!(parse(&[b"o/p".to_vec()]).unwrap().1, None);
}

#[test]
fn the_counterpart_is_the_half_not_looked_up() {
    assert_eq!(counterpart("me/pp-proj", "me/proj", "me/pp-proj"), "me/proj");
    assert_eq!(counterpart("me/proj", "me/proj", "me/pp-proj"), "me/pp-proj");
    let lines = missing_counterpart("me/pp-proj", "me/proj");
    assert_eq!(lines[0], "ppgit: me/pp-proj does not exist, or isn't visible to the account");
    assert_eq!(lines.len(), 5);
}

#[test]
fn warns_only_when_the_branches_differ() {
    assert!(warn_if_branches_differ(&Ok("main".into()), &Ok("main".into())).is_empty());
    assert!(warn_if_branches_differ(&Err("x".into()), &Ok("main".into())).is_empty());
    let w = warn_if_branches_differ(&Ok("main".into()), &Ok("dev".into()));
    assert_eq!(w[1], "    public (.git):   main");
    assert_eq!(w[2], "    private (.ppgit): dev");
    assert_eq!(w[4], "  `pp checkout dev` puts them in step — the work tree already holds");
}

#[test]
fn clone_needs_a_repository() {
    let args = vec![b"clone".to_vec()];
    match cmd_clone(&args, &[]) {
        Action::Warn(l) => assert!(l[0].starts_with("usage: ppgit clone")),
        _ => panic!("expected usage"),
    }
    assert!(matches!(cmd_clone(&args, &[Reply::Done]), Action::Finish(1)));
}

#[test]
fn clone_stops_when_the_counterpart_is_missing() {
    let args = vec![b"clone".to_vec(), b"proj".to_vec()];
    let mut replies = vec![];
    assert_eq!(command_line(&cmd_clone(&args, &replies)), strings(&["gh", "auth", "status"]));
    replies.push(out("logged in"));
    assert_eq!(command_line(&cmd_clone(&args, &replies))[3], "proj");
    replies.push(out("me/proj\nfalse\n"));
    assert_eq!(command_line(&cmd_clone(&args, &replies)), strings(&["gh", "repo", "view", "me/pp-proj"]));
    replies.push(missing());
    match cmd_clone(&args, &replies) {
        Action::Warn(l) => assert_eq!(l[1], "  gh is logged in as — so me/proj has no counterpart."),
        _ => panic!("expected a refusal"),
    }
    replies.push(Reply::Done);
    assert!(matches!(cmd_clone(&args, &replies), Action::Finish(1)));
}

#[test]
fn clone_builds_both_halves() {
    let args = vec![b"clone".to_vec(), b"me/pp-proj".to_vec()];
    let mut replies = vec![out("ok"), out("me/pp-proj\ntrue\n"), out("")];
    assert_eq!(command_line(&cmd_clone(&args, &replies)), strings(&["gh", "config", "get", "git_protocol"]));
    replies.push(out("ssh"));
    assert_eq!(
        command_line(&cmd_clone(&args, &replies)),
        strings(&["gh", "repo", "view", "me/proj", "--json", "sshUrl", "-q", ".sshUrl"])
    );
    replies.push(out("git@github.com:me/proj.git"));
    replies.push(out("ssh"));
    replies.push(out("git@github.com:me/pp-proj.git"));
    match cmd_clone(&args, &replies) {
        Action::Say(l) => assert_eq!(l, strings(&["ppgit: [.git]"])),
        _ => panic!("expected the announcement"),
    }
    replies.push(Reply::Done);
    match cmd_clone(&args, &replies) {
        Action::LoudGit(a) => {
            assert_eq!(a, vec![b"clone".to_vec(), b"git@github.com:me/proj.git".to_vec(), b"proj".to_vec()])
        }
        _ => panic!("expected the public clone"),
    }
    replies.push(ended(0));
    match cmd_clone(&args, &replies) {
        Action::Io(IoStep::EnterDir(d)) => assert_eq!(d, b"proj".to_vec()),
        _ => panic!("expected to enter the clone"),
    }
    replies.push(Reply::Io(Ok(String::new())));
    replies.push(Reply::Done);
    assert_eq!(
        command_line(&cmd_clone(&args, &replies)),
        strings(&["git", "clone", "--bare", "git@github.com:me/pp-proj.git", ".ppgit"])
    );
    replies.push(ended(0));
    assert_eq!(
        command_line(&cmd_clone(&args, &replies)),
        strings(&["git", "--git-dir=.ppgit", "config", "remote.origin.fetch", "+refs/heads/*:refs/remotes/origin/*"])
    );
    replies.push(ended(0));
    replies.push(ended(0));
    replies.push(out("main\n"));
    assert_eq!(
        command_line(&cmd_clone(&args, &replies)),
        strings(&["git", "--git-dir=.ppgit", "branch", "--quiet", "--set-upstream-to=origin/main", "main"])
    );
    replies.push(ended(0));
    assert_eq!(
        command_line(&cmd_clone(&args, &replies)),
        strings(&["git", "--git-dir=.ppgit", "--work-tree=.", "reset", "--quiet", "--hard"])
    );
    replies.push(ended(0));
    assert!(matches!(cmd_clone(&args, &replies), Action::Io(IoStep::SyncExcludes)));
    replies.push(Reply::Io(Ok(String::new())));
    replies.push(ended(0));
    replies.push(ended(0));
    replies.push(out("main"));
    replies.push(out("main"));
    match cmd_clone(&args, &replies) {
        Action::Say(l) => assert_eq!(l, strings(&["ppgit: cloned me/proj and me/pp-proj into proj"])),
        _ => panic!("expected the closing line"),
    }
    replies.push(Reply::Done);
    assert!(matches!(cmd_clone(&args, &replies), Action::Finish(0)));
}

#[test]
fn clone_gives_up_with_a_failed_steps_own_exit() {
    let args = vec![b"clone".to_vec(), b"proj".to_vec()];
    let mut replies = vec![
        out("ok"),
        out("me/proj\nfalse"),
        out(""),
        out("https"),
        out("https://github.com/me/proj"),
        out("https"),
        out("https://github.com/me/pp-proj"),
        Reply::Done,
        ended(128),
    ];
    assert!(matches!(cmd_clone(&args, &replies), Action::Finish(128)));
    replies.truncate(1);
    replies.push(Reply::Output(QuietOutcome::NotLaunched { error: "no gh".to_string() }));
    match cmd_clone(&args, &replies) {
        Action::Warn(l) => assert_eq!(l, strings(&["ppgit: failed to look up proj on GitHub: no gh"])),
        _ => panic!("expected the failure"),
    }
}
