use diffstream::keymap::{
    b, bind_comment, bind_commitmsg, bind_palette_commit, bind_palette_file, bind_peek_blame, bind_peek_content,
    bind_peek_diff, bind_sidebar, bind_stream, bind_submit_edit, bind_submit_pick, bind_theme, bind_threads,
    help_column_rows, help_left, help_right, to_hint, Binding,
};

fn help_rows() -> Vec<(&'static str, &'static str)> {
    help_left().iter().chain(help_right().iter()).flat_map(|s| s.rows.iter().copied()).collect()
}

fn all_tables() -> Vec<Vec<Binding>> {
    vec![
        bind_stream(),
        bind_sidebar(),
        bind_peek_diff(),
        bind_peek_content(),
        bind_peek_blame(),
        bind_commitmsg(),
        bind_comment(),
        bind_threads(),
        bind_submit_pick(),
        bind_submit_edit(),
        bind_palette_file(),
        bind_palette_commit(),
        bind_theme(),
    ]
}

#[test]
fn help_catalog_is_well_formed() {
    let rows = help_rows();
    assert!(rows.len() > 10, "the help catalog should be substantial");
    for (keys, desc) in &rows {
        assert!(!keys.trim().is_empty(), "every help row names its keys");
        assert!(!desc.trim().is_empty(), "every help row has a description: {keys}");
    }
}

#[test]
fn binding_constructor_sets_both_fields() {
    let bind = b("X", "do X");
    assert_eq!((bind.key, bind.desc), ("X", "do X"));
}

#[test]
fn to_hint_renders_keys_and_prose_only_bindings() {
    let s = to_hint(&bind_palette_file());
    assert!(s.contains("type to filter"), "prose-only binding: {s}");
    assert!(s.contains("Enter jump"), "key + desc rendered: {s}");
    assert!(s.contains(" · "), "bindings joined by a separator: {s}");
}

#[test]
fn every_binding_has_a_description() {
    for table in all_tables() {
        for bind in &table {
            assert!(!bind.desc.trim().is_empty(), "every binding has a description (key {:?})", bind.key);
        }
    }
}

fn is_key_char(c: char) -> bool {
    c.is_ascii_alphanumeric() || "[]{}<>?=/".contains(c)
}

fn single_keys(s: &str) -> Vec<char> {
    s.split(['·', ' '])
        .filter(|tok| tok.chars().count() == 1)
        .filter_map(|tok| tok.chars().next())
        .filter(|c| is_key_char(*c))
        .collect()
}

#[test]
fn bindings_only_reference_documented_keys() {
    let documented: Vec<char> = help_rows().iter().flat_map(|(keys, _)| single_keys(keys)).collect();
    for table in all_tables() {
        for bind in &table {
            for c in single_keys(bind.key) {
                assert!(documented.contains(&c), "binding key '{c}' is not documented in the help catalog");
            }
        }
    }
}

#[test]
fn to_hint_joins_exactly_as_the_status_bar_shows_it() {
    let s = to_hint(&[b("", "type to filter"), b("Enter", "jump"), b("Esc", "close")]);
    assert_eq!(s, "type to filter · Enter jump · Esc close");
    assert_eq!(to_hint(&[]), "");
}

#[test]
fn a_help_column_is_as_tall_as_its_rows_titles_and_gaps() {
    let left = help_left();
    let expected: usize = left.iter().map(|s| s.rows.len() + 1).sum::<usize>() + left.len() - 1;
    assert_eq!(help_column_rows(&left), expected);
    assert_eq!(help_column_rows(&[]), 0);
}
