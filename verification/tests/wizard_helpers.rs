use reliquaint::wizard::editor::{resolve_editor, shell_split};
use reliquaint::wizard::prompts::{AutoAccept, PromptError, Prompter, ScriptedPrompter};

#[test]
fn shell_split_handles_multiword_command() {
    assert_eq!(shell_split("emacs -nw"), vec!["emacs".to_string(), "-nw".to_string()]);
}

#[test]
fn scripted_prompter_returns_answers_in_order() {
    let mut p = ScriptedPrompter::new(vec![true, false], vec![2, 0]);
    assert!(p.confirm("?", false).unwrap());
    assert!(!p.confirm("?", true).unwrap());
    assert_eq!(p.select("?", &[]).unwrap(), 2);
    assert_eq!(p.select("?", &[]).unwrap(), 0);
}

#[test]
fn scripted_prompter_runs_out_cleanly() {
    let mut p = ScriptedPrompter::new(vec![], vec![]);
    assert!(matches!(p.confirm("?", true).unwrap_err(), PromptError::OutOfAnswers));
}

#[test]
fn auto_accept_says_yes_and_picks_first() {
    let mut p = AutoAccept;
    assert!(p.confirm("?", false).unwrap());
    assert_eq!(p.select("?", &["a".to_string(), "b".to_string()]).unwrap(), 0);
}

#[test]
fn resolve_editor_prefers_env_then_path() {
    assert_eq!(resolve_editor(Some("my-editor".into()), None, (true, true, true)), Some("my-editor".to_string()));
    assert_eq!(resolve_editor(Some("  ".into()), Some("vis".into()), (true, true, true)), Some("vis".to_string()));
    assert_eq!(resolve_editor(None, Some("".into()), (false, true, true)), Some("vim".to_string()));
    assert_eq!(resolve_editor(None, None, (false, false, false)), None);
}
