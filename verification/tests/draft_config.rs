use reliquaint::draft::dos::{default_dosbox_config, strip_autoexec};

#[test]
fn default_config_omits_autoexec_block() {
    let conf = default_dosbox_config();
    assert!(!conf.to_ascii_lowercase().contains("[autoexec]"));
    assert!(conf.contains("[sdl]"));
    assert!(conf.contains("[cpu]"));
}

#[test]
fn strip_autoexec_handles_section_in_middle() {
    let input = "[sdl]\nx=1\n[autoexec]\nMOUNT C foo\n[cpu]\ny=2\n";
    let out = strip_autoexec(input);
    assert!(out.contains("[sdl]"));
    assert!(out.contains("[cpu]"));
    assert!(!out.contains("[autoexec]"));
    assert!(!out.contains("MOUNT"));
}
