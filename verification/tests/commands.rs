use pico_limbo::commands::{split_whitespace, toggle_fly, Command, ParseCommandError};

fn words(s: &str) -> Vec<String> {
    let cs: Vec<char> = s.chars().collect();
    split_whitespace(&cs).into_iter().map(|w| w.into_iter().collect()).collect()
}

#[test]
fn splits_on_unicode_whitespace() {
    assert_eq!(words("  a bb\tccc\u{3000}d \n"), vec!["a", "bb", "ccc", "d"]);
    assert_eq!(words(""), Vec::<String>::new());
    assert_eq!(words(" \t "), Vec::<String>::new());
    let text = "fly\u{2003}speed\u{85}x";
    let expected: Vec<String> = text.split_whitespace().map(String::from).collect();
    assert_eq!(words(text), expected);
}

#[test]
fn parses_known_commands() {
    assert!(matches!(Command::parse("spawn"), Ok(Command::Spawn)));
    assert!(matches!(Command::parse("  fly  extra"), Ok(Command::Fly)));
    match Command::parse("flyspeed 0.8") {
        Ok(Command::FlySpeed(s)) => assert_eq!(s, "0.8"),
        other => panic!("unexpected {other:?}"),
    }
    match Command::parse("flyspeed") {
        Ok(Command::FlySpeed(s)) => assert_eq!(s, "0.5"),
        other => panic!("unexpected {other:?}"),
    }
}

#[test]
fn refuses_empty_and_unknown_commands() {
    assert!(matches!(Command::parse(""), Err(ParseCommandError::Empty)));
    assert!(matches!(Command::parse("   "), Err(ParseCommandError::Empty)));
    assert!(matches!(Command::parse("Spawn"), Err(ParseCommandError::Unknown)));
    assert!(matches!(Command::parse("flying"), Err(ParseCommandError::Unknown)));
}

#[test]
fn fly_toggles_permission() {
    let on = toggle_fly(false, true);
    assert!(on.allow_flying && on.flying && on.now_flying);
    let off = toggle_fly(true, true);
    assert!(!off.allow_flying && !off.flying && !off.now_flying);
    let on_grounded = toggle_fly(false, false);
    assert!(on_grounded.allow_flying && !on_grounded.flying && on_grounded.now_flying);
}
