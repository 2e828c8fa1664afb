use waylandsfpanel::args::{parse, ParseError};

fn toks(list: &[&str]) -> Vec<String> {
    list.iter().map(|s| s.to_string()).collect()
}

#[test]
fn one_button_with_defaults() {
    let args = parse(&toks(&["bin", "-b", "A", "echo a"])).unwrap();
    assert_eq!(args.height, 32);
    assert_eq!(args.font, "/usr/share/fonts/TTF/Symbola.ttf");
    assert_eq!(args.buttons.len(), 1);
    assert_eq!(args.buttons[0].text, "A");
    assert_eq!(args.buttons[0].action, "echo a");
}

#[test]
fn height_and_font_flags() {
    let args = parse(&toks(&[
        "bin", "--height", "64", "--font", "/tmp/f.ttf", "-b", "X", "run x",
    ]))
    .unwrap();
    assert_eq!(args.height, 64);
    assert_eq!(args.font, "/tmp/f.ttf");
    assert_eq!(args.buttons.len(), 1);
}

#[test]
fn long_and_short_button_flags_accumulate() {
    let args = parse(&toks(&[
        "bin", "-b", "A", "a", "--button", "B", "b", "-B", "C", "c", "--button-no-terminal", "D",
        "d",
    ]))
    .unwrap();
    assert_eq!(args.buttons.len(), 4);
    assert_eq!(args.buttons[3].text, "D");
}

#[test]
fn plus_prefixed_height_parses_like_std() {
    let args = parse(&toks(&["bin", "-h", "+12", "-b", "A", "a"])).unwrap();
    assert_eq!(args.height, 12);
}

#[test]
fn largest_height_is_accepted_and_overflow_rejected() {
    let args = parse(&toks(&["bin", "-h", "4294967295", "-b", "A", "a"])).unwrap();
    assert_eq!(args.height, 4294967295);
    match parse(&toks(&["bin", "-h", "4294967296", "-b", "A", "a"])) {
        Err(ParseError::InvalidHeight(tok)) => assert_eq!(tok, "4294967296"),
        _ => panic!("expected an invalid height"),
    }
}

#[test]
fn junk_height_is_invalid() {
    match parse(&toks(&["bin", "-h", "abc", "-b", "A", "a"])) {
        Err(ParseError::InvalidHeight(tok)) => assert_eq!(tok, "abc"),
        _ => panic!("expected an invalid height"),
    }
    match parse(&toks(&["bin", "-h", "", "-b", "A", "a"])) {
        Err(ParseError::InvalidHeight(tok)) => assert_eq!(tok, ""),
        _ => panic!("expected an invalid height"),
    }
    match parse(&toks(&["bin", "-h", "+", "-b", "A", "a"])) {
        Err(ParseError::InvalidHeight(tok)) => assert_eq!(tok, "+"),
        _ => panic!("expected an invalid height"),
    }
}

#[test]
fn height_flag_without_value() {
    match parse(&toks(&["bin", "-b", "A", "a", "-h"])) {
        Err(ParseError::MissingHeight) => {}
        _ => panic!("expected a missing height"),
    }
}

#[test]
fn button_without_text_or_action() {
    match parse(&toks(&["bin", "-b"])) {
        Err(ParseError::ButtonMissingText) => {}
        _ => panic!("expected a button missing its text"),
    }
    match parse(&toks(&["bin", "-b", "A"])) {
        Err(ParseError::ButtonMissingAction) => {}
        _ => panic!("expected a button missing its action"),
    }
}

#[test]
fn unknown_flag_is_rejected() {
    match parse(&toks(&["bin", "--nope", "-b", "A", "a"])) {
        Err(ParseError::InvalidArg(tok)) => assert_eq!(tok, "--nope"),
        _ => panic!("expected an invalid argument"),
    }
}

#[test]
fn no_buttons_is_rejected() {
    match parse(&toks(&["bin"])) {
        Err(ParseError::NoButtons) => {}
        _ => panic!("expected a rejection for want of buttons"),
    }
    match parse(&toks(&["bin", "-h", "40"])) {
        Err(ParseError::NoButtons) => {}
        _ => panic!("expected a rejection for want of buttons"),
    }
}

#[test]
fn font_flag_without_value_keeps_default() {
    let args = parse(&toks(&["bin", "-b", "A", "a", "-f"])).unwrap();
    assert_eq!(args.font, "/usr/share/fonts/TTF/Symbola.ttf");
}
