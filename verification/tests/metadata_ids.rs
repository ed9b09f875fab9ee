use reliquaint::heuristic::metadata::extract;

#[test]
fn leisure_suit_larry_yields_canonical_id() {
    let m = extract("/home/u/games/leisure-suit-larry");
    assert_eq!(m.id, "leisure-suit-larry");
    assert_eq!(m.title, "Leisure Suit Larry");
}

#[test]
fn underscores_become_hyphens_in_id_and_spaces_in_title() {
    let m = extract("/home/u/games/Quest_For_Glory_1");
    assert_eq!(m.id, "quest-for-glory-1");
    assert_eq!(m.title, "Quest For Glory 1");
}

#[test]
fn mixed_case_basename_lowercases_id_only() {
    let m = extract("/home/u/games/QFG1-EGA");
    assert_eq!(m.id, "qfg1-ega");
    assert_eq!(m.title, "QFG1 EGA");
}

#[test]
fn punctuation_dropped_from_id() {
    let m = extract("/home/u/games/Doom!");
    assert_eq!(m.id, "doom");
    assert_eq!(m.title, "Doom!");
}

#[test]
fn id_starting_with_digit_is_empty() {
    let m = extract("/home/u/games/2-pak");
    assert_eq!(m.id, "", "ids must start with [a-z]; wizard prompts");
    assert_eq!(m.title, "2 Pak");
}

#[test]
fn very_short_basename_rejected() {
    let m = extract("/home/u/games/a");
    assert_eq!(m.id, "");
}

#[test]
fn consecutive_separators_collapse() {
    let m = extract("/home/u/games/foo--bar__baz");
    assert_eq!(m.id, "foo-bar-baz");
}
