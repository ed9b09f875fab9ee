use reliquaint::tap_fetch::{
    check_git, clone_tap, last_commit_date, local_head, pull_tap, remote_head, CloneOutcome, FetchError, GitOutput,
    CLONE_TIMEOUT_SECS,
};

fn out(success: bool, stdout: &str, stderr: &str) -> GitOutput {
    GitOutput { success, stdout: stdout.into(), stderr: stderr.into() }
}

#[test]
fn check_git_trims_version() {
    assert_eq!(check_git(Some(out(true, "git version 2.43.0\n", ""))).ok(), Some("git version 2.43.0".to_string()));
    assert!(matches!(check_git(Some(out(false, "", ""))), Err(FetchError::GitNotFound)));
    assert!(matches!(check_git(None), Err(FetchError::GitNotFound)));
}

#[test]
fn clone_outcomes_map_to_errors() {
    assert!(clone_tap("https://x/t", CloneOutcome::Exited { success: true, stderr: String::new() }).is_ok());
    let e = clone_tap("https://x/t", CloneOutcome::Exited { success: false, stderr: "fatal".into() }).unwrap_err();
    assert_eq!(e.message(), "git clone failed for \"https://x/t\":\nfatal");
    let e = clone_tap("https://x/t", CloneOutcome::TimedOut).unwrap_err();
    assert!(matches!(e, FetchError::CloneTimeout { seconds, .. } if seconds == CLONE_TIMEOUT_SECS));
    assert_eq!(e.message(), "git clone for \"https://x/t\" timed out after 300s");
}

#[test]
fn pull_result_compares_heads() {
    let r = pull_tap("/t", "abc".into(), Ok("abc".into())).ok().unwrap();
    assert!(r.already_up_to_date);
    let r = pull_tap("/t", "abc".into(), Ok("def".into())).ok().unwrap();
    assert!(!r.already_up_to_date);
    assert_eq!(r.after_hash, "def");
    let e = pull_tap("/t", "abc".into(), Err("conflict".into())).err().unwrap();
    assert_eq!(e.message(), "git pull failed at \"/t\":\nconflict");
}

#[test]
fn heads_and_dates_are_trimmed() {
    assert_eq!(local_head("0123abcd\n"), "0123abcd");
    assert_eq!(last_commit_date(Some(out(true, "2024-05-01\n", ""))), Some("2024-05-01".to_string()));
    assert_eq!(last_commit_date(Some(out(true, "  \n", ""))), None);
    assert_eq!(last_commit_date(Some(out(false, "2024-05-01", ""))), None);
    assert_eq!(last_commit_date(None), None);
}

#[test]
fn remote_head_takes_first_word() {
    assert_eq!(remote_head("u", Ok(out(true, "abc123\tHEAD\n", ""))).ok(), Some("abc123".to_string()));
    assert!(matches!(remote_head("u", Ok(out(true, "", ""))), Err(FetchError::PullFailed { stderr, .. }) if stderr == "git ls-remote returned no HEAD ref"));
    assert!(matches!(remote_head("u", Ok(out(false, "", "denied"))), Err(FetchError::PullFailed { stderr, .. }) if stderr == "denied"));
    assert!(matches!(remote_head("u", Err("spawn".into())), Err(FetchError::Io(m)) if m == "spawn"));
    assert_eq!(FetchError::GitNotFound.message(), "git is not available on PATH \u{2014} install it with: apt install git");
}
