use ppgit::ppgitignore::{
    exclude_update, private_body, public_body, sync_excludes, tracked_but_ignored, tracked_listing_command,
    warn_tracked_but_ignored, with_managed_block, BLOCK_BEGIN, BLOCK_END,
};

/// The block as `with_managed_block` writes it, for building expectations
/// without repeating the marker strings by hand.
fn block(body: &str) -> String {
    format!("{BLOCK_BEGIN}\n{body}{BLOCK_END}\n")
}

#[test]
fn appends_to_an_empty_file() {
    assert_eq!(with_managed_block("", "a\n"), block("a\n"));
}

#[test]
fn appends_after_existing_content_with_a_blank_line() {
    assert_eq!(with_managed_block("mine\n", "a\n"), format!("mine\n\n{}", block("a\n")));
}

#[test]
fn adds_the_missing_newline_of_an_unterminated_file() {
    assert_eq!(with_managed_block("mine", "a\n"), format!("mine\n\n{}", block("a\n")));
}

#[test]
fn replaces_an_existing_block_and_keeps_what_surrounds_it() {
    let existing = format!("before\n\n{}after\n", block("old\n"));
    assert_eq!(
        with_managed_block(&existing, "new\n"),
        format!("before\n\n{}after\n", block("new\n"))
    );
}

#[test]
fn stays_idempotent_when_nothing_changed() {
    let once = with_managed_block("mine\n", "a\nb\n");
    assert_eq!(with_managed_block(&once, "a\nb\n"), once);
}

#[test]
fn repairs_a_block_that_lost_its_end_marker() {
    let existing = format!("mine\n{BLOCK_BEGIN}\nleftover\n");
    assert_eq!(with_managed_block(&existing, "a\n"), format!("mine\n{}", block("a\n")));
}

#[test]
fn terminates_a_body_that_has_no_trailing_newline() {
    assert_eq!(with_managed_block("", "a"), block("a\n"));
}

#[test]
fn block_ends_a_block_whose_end_marker_has_no_newline() {
    let existing = format!("x\n{BLOCK_BEGIN}\nold\n{BLOCK_END}");
    assert_eq!(with_managed_block(&existing, "n\n"), format!("x\n{}", block("n\n")));
}

#[test]
fn keeps_hand_written_lines_after_the_block() {
    let existing = format!("{}# mine\n/build\n", block("old\n"));
    let updated = with_managed_block(&existing, "new\n");
    assert!(updated.ends_with("# mine\n/build\n"));
    assert!(updated.starts_with(&block("new\n")));
}

#[test]
fn idempotence_fails_only_for_a_body_holding_the_end_marker() {
    let body = format!("a\n{BLOCK_END}\nb\n");
    let once = with_managed_block("", &body);
    let twice = with_managed_block(&once, &body);
    assert_ne!(twice, once);
}

#[test]
fn leaves_an_unchanged_exclude_file_unwritten() {
    let once = with_managed_block("mine\n", "a\n");
    assert_eq!(exclude_update(&once, "a\n"), None);
    assert_eq!(exclude_update("mine\n", "a\n"), Some(once));
}

#[test]
fn hides_the_private_git_dir_and_the_list_publicly() {
    assert_eq!(public_body("notes/\n"), "/.ppgit/\n/.ppgitignore\nnotes/\n");
    assert_eq!(private_body(), "/.ppgit/\n");
}

#[test]
fn syncing_twice_writes_nothing_the_second_time() {
    let list = "secrets.md\nnotes/\n";
    let first = sync_excludes(list, "# own\n", "");
    let public = first.public.clone().expect("public block written");
    let private = first.private.clone().expect("private block written");
    assert_eq!(public, format!("# own\n\n{}", block("/.ppgit/\n/.ppgitignore\nsecrets.md\nnotes/\n")));
    assert_eq!(private, block("/.ppgit/\n"));
    let second = sync_excludes(list, &public, &private);
    assert_eq!(second.public, None);
    assert_eq!(second.private, None);
}

#[test]
fn lists_the_nonempty_lines_of_the_tracked_listing() {
    assert_eq!(tracked_but_ignored("a.txt\n\nnotes/b.md\r\n"), vec!["a.txt".to_string(), "notes/b.md".to_string()]);
    assert!(tracked_but_ignored("").is_empty());
}

#[test]
fn asks_git_for_tracked_but_ignored_files() {
    let c = tracked_listing_command();
    assert_eq!(c.program, "git");
    assert_eq!(c.args, vec!["ls-files", "-i", "-c", "--exclude-standard"]);
}

#[test]
fn warns_with_the_commands_that_untrack() {
    let lines = warn_tracked_but_ignored(&["secret.md".to_string()]);
    assert_eq!(
        lines,
        vec![
            "ppgit: warning: the public repository still tracks 1 file(s) listed in .ppgitignore:".to_string(),
            "    secret.md".to_string(),
            "  Listing a path only hides it while it's untracked — these were committed".to_string(),
            "  publicly first, so they keep going out with every push. To untrack them".to_string(),
            "  (keeping the files on disk, and in the private repository):".to_string(),
            "    git rm --cached -- secret.md".to_string(),
            "  then commit that removal to the public repository.".to_string(),
        ]
    );
}

#[test]
fn a_second_rewrite_replaces_the_whole_first_block() {
    for existing in ["", "mine\n", "mine"] {
        let once = with_managed_block(existing, "old\nlines\n");
        assert_eq!(with_managed_block(&once, "new\n"), with_managed_block(existing, "new\n"));
    }
}
