use colormap::color::{Color, ColorError, ErrorKind, NamedColor};

fn kind_of(r: Result<Color, ColorError>) -> ErrorKind {
    match r {
        Ok(c) => panic!("expected an error, got {:?}", c),
        Err(e) => e.kind,
    }
}

#[test]
fn check_hexcolor_0() {
    let hex = "#00ff01";
    let color = Color::new((0, 255, 1, 255));
    let hexcolor = Color::from_hex(hex);
    match hexcolor {
        Ok(hexcolor) => assert_eq!(hexcolor, color),
        Err(_) => panic!(),
    }
}

#[test]
fn check_hexcolor_1() {
    let hex = "0x00ff01";
    let color = Color::new((0, 255, 1, 255));
    let hexcolor = Color::from_hex(hex);
    match hexcolor {
        Ok(hexcolor) => assert_eq!(hexcolor, color),
        Err(_) => panic!(),
    }
}

#[test]
fn hash_form_decodes_each_byte() {
    assert_eq!(Color::from_hex("#12ab9f").unwrap(), Color::new((0x12, 0xab, 0x9f, 255)));
}

#[test]
fn digits_of_either_case_are_accepted() {
    assert_eq!(Color::from_hex("#ABCDEF").unwrap(), Color::new((171, 205, 239, 255)));
    assert_eq!(Color::from_hex("0xAbCdEf").unwrap(), Color::new((171, 205, 239, 255)));
}

#[test]
fn both_prefixes_agree() {
    assert_eq!(Color::from_hex("#ffffff").unwrap(), Color::from_hex("0xffffff").unwrap());
    assert_eq!(Color::from_hex("#0a0b0c").unwrap(), Color::new((10, 11, 12, 255)));
}

#[test]
fn fewer_than_two_chars_is_too_short() {
    assert_eq!(kind_of(Color::from_hex("")), ErrorKind::TooShort);
    assert_eq!(kind_of(Color::from_hex("#")), ErrorKind::TooShort);
}

#[test]
fn other_lengths_are_format_errors() {
    assert_eq!(kind_of(Color::from_hex("#0")), ErrorKind::Format);
    assert_eq!(kind_of(Color::from_hex("#00ff0")), ErrorKind::Format);
    assert_eq!(kind_of(Color::from_hex("0x00ff011")), ErrorKind::Format);
    assert_eq!(kind_of(Color::from_hex("#00ff01ff")), ErrorKind::Format);
}

#[test]
fn a_non_hex_digit_is_a_format_error() {
    assert_eq!(kind_of(Color::from_hex("#00ff0z")), ErrorKind::Format);
    assert_eq!(kind_of(Color::from_hex("#g0ff01")), ErrorKind::Format);
    assert_eq!(kind_of(Color::from_hex("0x00 f01")), ErrorKind::Format);
    assert_eq!(kind_of(Color::from_hex("#+f0000")), ErrorKind::Format);
}

#[test]
fn error_descriptions() {
    assert_eq!(ColorError::new(ErrorKind::TooShort).description(), "Too few chars");
    assert_eq!(ColorError::new(ErrorKind::Format).description(), "Incorrect hex format");
    assert_eq!(ColorError::new(ErrorKind::SourceNotFound).description(), "String not found");
}

#[test]
fn colors_from_equal_tuples_are_equal() {
    assert_eq!(Color::new((1, 2, 3, 4)), Color::new((1, 2, 3, 4)));
    assert_ne!(Color::new((1, 2, 3, 4)), Color::new((1, 2, 3, 5)));
    let c = Color::new((9, 8, 7, 6));
    assert_eq!((c.r, c.g, c.b, c.a), (9, 8, 7, 6));
}

#[test]
fn named_color_drops_its_name() {
    let n = NamedColor::new("sky", (10, 20, 30, 40));
    assert_eq!(n.name, "sky");
    let c: Color = Color::from(n);
    assert_eq!(c, Color::new((10, 20, 30, 40)));
}
