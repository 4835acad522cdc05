use colormap::color::{Color, ErrorKind};
use colormap::color_map::ColorMap;

#[test]
fn absent_name_is_none() {
    let m = ColorMap::new();
    assert_eq!(m.get("background"), None);
}

#[test]
fn get_returns_what_was_inserted() {
    let mut m = ColorMap::new();
    m.insert("background", Color::new((0, 0, 0, 255)));
    assert_eq!(m.get("background"), Some(Color::new((0, 0, 0, 255))));
    assert_eq!(m.get("Background"), None);
}

#[test]
fn last_insert_wins() {
    let mut m = ColorMap::new();
    m.insert("accent", Color::new((1, 1, 1, 1)));
    m.insert("other", Color::new((2, 2, 2, 2)));
    m.insert("accent", Color::new((3, 3, 3, 3)));
    assert_eq!(m.get("accent"), Some(Color::new((3, 3, 3, 3))));
    assert_eq!(m.get("other"), Some(Color::new((2, 2, 2, 2))));
}

#[test]
fn text_with_two_entries() {
    let m = ColorMap::from_text("background  #000000\naccent\t0xff00aa\n");
    assert_eq!(m.get("background"), Some(Color::from_hex("#000000").unwrap()));
    assert_eq!(m.get("accent"), Some(Color::new((255, 0, 170, 255))));
}

#[test]
fn malformed_line_is_skipped() {
    let m = ColorMap::from_text("broken #zzzzzz\nbackground #000000");
    assert_eq!(m.get("broken"), None);
    assert_eq!(m.get("background"), Some(Color::new((0, 0, 0, 255))));
    let m = ColorMap::from_text("background #000000\nbroken #12");
    assert_eq!(m.get("broken"), None);
    assert_eq!(m.get("background"), Some(Color::new((0, 0, 0, 255))));
}

#[test]
fn lines_without_exactly_two_fields_are_skipped() {
    let text = "\nlonely\nthree fields #000000\n  indented #111111\ntrailing #222222 \nok #333333\r\n";
    let m = ColorMap::from_text(text);
    assert_eq!(m.get("lonely"), None);
    assert_eq!(m.get("three"), None);
    assert_eq!(m.get("indented"), None);
    assert_eq!(m.get("trailing"), None);
    assert_eq!(m.get("ok"), Some(Color::new((0x33, 0x33, 0x33, 255))));
}

#[test]
fn empty_text_gives_empty_table() {
    let m = ColorMap::from_text("");
    assert_eq!(m.get(""), None);
}

#[test]
fn unreadable_source_is_an_error() {
    match ColorMap::from_source(None) {
        Ok(_) => panic!("an unreadable source must not give a table"),
        Err(e) => assert_eq!(e.kind, ErrorKind::SourceNotFound),
    }
    let m = ColorMap::from_source(Some("background #000000")).unwrap();
    assert_eq!(m.get("background"), Some(Color::new((0, 0, 0, 255))));
}

#[test]
fn records_build_a_table() {
    let records = vec![
        vec!["a".to_string(), "#010203".to_string()],
        vec!["b".to_string()],
        vec!["c".to_string(), "#010203".to_string(), "x".to_string()],
        vec!["d".to_string(), "#zz0000".to_string()],
        vec!["a".to_string(), "0x040506".to_string()],
    ];
    let m = ColorMap::from_records(&records);
    assert_eq!(m.get("a"), Some(Color::new((4, 5, 6, 255))));
    assert_eq!(m.get("b"), None);
    assert_eq!(m.get("c"), None);
    assert_eq!(m.get("d"), None);
}

#[test]
fn default_table_is_empty() {
    let m = ColorMap::default();
    assert_eq!(m.get("background"), None);
}

#[test]
fn line_endings_are_dropped_but_a_final_bare_cr_is_kept() {
    let m = ColorMap::from_text("a #010101\r\nb #020202\n\nc #030303\r");
    assert_eq!(m.get("a"), Some(Color::new((1, 1, 1, 255))));
    assert_eq!(m.get("b"), Some(Color::new((2, 2, 2, 255))));
    assert_eq!(m.get("c"), None);
}

#[test]
fn a_readable_source_always_loads() {
    let m = ColorMap::from_source(Some("")).unwrap();
    assert_eq!(m.get(""), None);
    let m = ColorMap::from_source(Some("only garbage here\n#zz")).unwrap();
    assert_eq!(m.get("only"), None);
}
