use reliquaint::launch::PreparedCommand;

#[test]
fn display_line_quotes_args_containing_whitespace() {
    let cmd = PreparedCommand {
        program: "flatpak".into(),
        args: vec![
            "run".into(),
            "io.github.dosbox-staging".into(),
            r#"MOUNT C "/home/me/games/qfg1""#.into(),
        ],
        working_dir: None,
    };
    let line = cmd.display_line();
    assert!(line.contains(r#""MOUNT C \"/home/me/games/qfg1\"""#), "got {line}");
}
