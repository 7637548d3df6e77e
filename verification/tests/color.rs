use playground::overloaded::color::{hex_bytes, hue_byte, try_hex_bytes, Error};

#[test]
fn colour_text_gives_three_bytes() {
    assert_eq!(hex_bytes("#FF0040"), Ok((255, 0, 64)));
    assert_eq!(hex_bytes("FF0040"), Ok((255, 0, 64)));
    assert_eq!(hex_bytes("#ff0140"), Ok((255, 1, 64)));
    assert_eq!(hex_bytes("#000000"), Ok((0, 0, 0)));
    assert_eq!(hex_bytes("#aBcDeF"), Ok((0xAB, 0xCD, 0xEF)));
    assert_eq!(hex_bytes("#+f+0+A"), Ok((15, 0, 10)));
    assert!(matches!(hex_bytes("##12345"), Err(Error::Parse(_))));
}

#[test]
fn colour_text_of_another_length_is_refused() {
    for text in ["", "#", "#FF004", "#FF00400", "not_a_color", "(-0.0001, 1, 1)", "FF004"] {
        assert_eq!(hex_bytes(text), Err(Error::InvalidColorString), "{text}");
    }
}

#[test]
fn colour_text_that_is_no_number_is_refused() {
    for text in ["#GG0040", "#FF00 0", "#-10000", "#FF 040", "#0x0x0x", "é1234", "#12é34", "#1234é"] {
        assert!(matches!(hex_bytes(text), Err(Error::Parse(_))), "{text}");
    }
}

#[test]
fn colour_text_that_cannot_be_cut_is_told_apart() {
    // a character of three bytes lies across the end of the first part
    assert_eq!(try_hex_bytes("1€45"), None);
    assert_eq!(try_hex_bytes("#1€45"), None);
    // the first part is a number, and a character lies across the end of the second
    assert_eq!(try_hex_bytes("123€"), None);
    // the first part is no number, so the second is never cut
    assert!(matches!(try_hex_bytes("zz3€"), Some(Err(Error::Parse(_)))));
    assert_eq!(try_hex_bytes("#FF0040"), Some(Ok((255, 0, 64))));
    assert_eq!(try_hex_bytes("€€"), None);
    assert_eq!(
        try_hex_bytes("é1234"),
        Some(Err(Error::Parse("é".parse::<u8>().unwrap_err())))
    );
    assert_eq!(try_hex_bytes("€"), Some(Err(Error::InvalidColorString)));
}

#[test]
fn hues_are_bytes() {
    assert_eq!(hue_byte(0), Ok(0));
    assert_eq!(hue_byte(64), Ok(64));
    assert_eq!(hue_byte(255), Ok(255));
    assert_eq!(hue_byte(256), Err(Error::NotInRange));
    assert_eq!(hue_byte(-1), Err(Error::NotInRange));
    assert_eq!(hue_byte(i64::MAX), Err(Error::NotInRange));
    assert_eq!(hue_byte(i64::MIN), Err(Error::NotInRange));
}
