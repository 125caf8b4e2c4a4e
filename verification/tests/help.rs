use lazymvn::ui::panes::help::{
    filter_keybindings, help_list_lines, help_list_title, HelpPieceStyle, KeyBinding,
};

fn kb(keys: &str, description: &str, category: &str) -> KeyBinding {
    KeyBinding {
        keys: keys.to_string(),
        description: description.to_string(),
        category: category.to_string(),
    }
}

fn sample() -> Vec<KeyBinding> {
    vec![
        kb("j / ↓", "Move down", "Navigation"),
        kb("k / ↑", "Move up", "Navigation"),
        kb("b", "Build module", "Maven"),
        kb("Ctrl+G", "Git status", "Tools"),
    ]
}

fn texts(line: &[(String, HelpPieceStyle)]) -> Vec<&str> {
    line.iter().map(|(t, _)| t.as_str()).collect()
}

#[test]
fn help_filter_empty_query_lists_everything() {
    let all = sample();
    let r = filter_keybindings(&all, "");
    assert_eq!(r.len(), 4);
    assert_eq!(r[2].keys, "b");
}

#[test]
fn help_filter_ignores_case_over_all_fields() {
    let all = sample();
    let by_desc = filter_keybindings(&all, "MOVE");
    assert_eq!(by_desc.iter().map(|k| k.description.as_str()).collect::<Vec<_>>(), vec!["Move down", "Move up"]);
    let by_category = filter_keybindings(&all, "maven");
    assert_eq!(by_category.len(), 1);
    assert_eq!(by_category[0].keys, "b");
    let by_keys = filter_keybindings(&all, "ctrl+g");
    assert_eq!(by_keys.len(), 1);
    assert_eq!(filter_keybindings(&all, "nothing like it").len(), 0);
}

#[test]
fn help_lines_with_headers_group_by_category() {
    let all = sample();
    let lines = help_list_lines(&all, true);
    assert_eq!(lines.len(), 4 + 3 + 2);
    assert_eq!(lines[0], vec![("═══ Navigation ═══".to_string(), HelpPieceStyle::CategoryHeader)]);
    assert_eq!(texts(&lines[1]), vec!["  ", "j / ↓       ", " ", "Move down"]);
    assert_eq!(lines[1][1].1, HelpPieceStyle::Keys);
    assert_eq!(texts(&lines[2]), vec!["  ", "k / ↑       ", " ", "Move up"]);
    assert_eq!(lines[3], vec![(String::new(), HelpPieceStyle::Plain)]);
    assert_eq!(texts(&lines[4]), vec!["═══ Maven ═══"]);
    assert_eq!(texts(&lines[5]), vec!["  ", "b           ", " ", "Build module"]);
    assert_eq!(texts(&lines[6]), vec![""]);
    assert_eq!(texts(&lines[7]), vec!["═══ Tools ═══"]);
}

#[test]
fn help_lines_without_headers_note_the_category() {
    let all = filter_keybindings(&sample(), "git");
    let lines = help_list_lines(&all, false);
    assert_eq!(lines.len(), 1);
    assert_eq!(texts(&lines[0]), vec!["Ctrl+G      ", " ", "Git status", " ", "(Tools)"]);
    assert_eq!(lines[0][4].1, HelpPieceStyle::CategoryNote);
}

#[test]
fn help_keys_longer_than_column_are_kept_whole() {
    let all = vec![kb("Ctrl+Shift+Alt+X", "Something", "Misc")];
    let lines = help_list_lines(&all, false);
    assert_eq!(lines[0][0].0, "Ctrl+Shift+Alt+X");
    assert_eq!(format!("{:12}", "abc"), "abc         ");
}

#[test]
fn help_title_counts_bindings() {
    assert_eq!(help_list_title(3), " LazyMVN - Keyboard Shortcuts (3 bindings) ");
    assert_eq!(help_list_title(0), " LazyMVN - Keyboard Shortcuts (0 bindings) ");
}
