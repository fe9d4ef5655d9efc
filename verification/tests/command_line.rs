use survey_cad_truck_gui::command_line::{is_float_text, parse_command, parse_words, ParsedCommand};

#[test]
fn point_command() {
    match parse_command("point 1.5 -2") {
        Some(ParsedCommand::Point { x, y }) => {
            assert_eq!(x, "1.5");
            assert_eq!(y, "-2");
        }
        _ => panic!("expected a point"),
    }
}

#[test]
fn quoted_words_are_one_word() {
    match parse_command("load 'my project.json'") {
        Some(ParsedCommand::Load(path)) => assert_eq!(path, "my project.json"),
        _ => panic!("expected load"),
    }
    match parse_command("export a b  c") {
        Some(ParsedCommand::Export(path)) => assert_eq!(path, "a b c"),
        _ => panic!("expected export"),
    }
}

#[test]
fn arity_and_unknown_commands() {
    assert!(parse_command("point 1").is_none());
    assert!(parse_command("line 1 2 3").is_none());
    assert!(parse_command("circle 1 2").is_none());
    assert!(parse_command("arc 1 2 3 4 5").is_none());
    assert!(parse_command("load").is_none());
    assert!(parse_command("").is_none());
    assert!(parse_command("jump 1 2").is_none());
    assert!(parse_command("point 'unterminated").is_none());
    assert!(matches!(parse_command("undo"), Some(ParsedCommand::Undo)));
    assert!(matches!(parse_command("redo now"), Some(ParsedCommand::Redo)));
}

#[test]
fn line_circle_arc() {
    match parse_command("line 0 0 3 4") {
        Some(ParsedCommand::Line { x1, y1, x2, y2 }) => {
            assert_eq!((x1.as_str(), y1.as_str(), x2.as_str(), y2.as_str()), ("0", "0", "3", "4"))
        }
        _ => panic!("expected a line"),
    }
    match parse_command("circle 1 2 5 extra") {
        Some(ParsedCommand::Circle { x, y, r }) => {
            assert_eq!((x.as_str(), y.as_str(), r.as_str()), ("1", "2", "5"))
        }
        _ => panic!("expected a circle"),
    }
    match parse_command("arc 0 0 1 1 2 0") {
        Some(ParsedCommand::Arc { x1, y3, .. }) => {
            assert_eq!(x1, "0");
            assert_eq!(y3, "0");
        }
        _ => panic!("expected an arc"),
    }
}

#[test]
fn words_are_read_as_given() {
    let words = vec!["point".to_string(), "1e3".to_string(), "-.5".to_string()];
    match parse_words(&words) {
        Some(ParsedCommand::Point { x, y }) => {
            assert_eq!(x, "1e3");
            assert_eq!(y, "-.5");
        }
        _ => panic!("expected a point"),
    }
    assert!(parse_words(&Vec::new()).is_none());
}

#[test]
fn coordinates_must_be_numbers() {
    assert!(parse_command("point a b").is_none());
    assert!(parse_command("point 1 b").is_none());
    assert!(parse_command("line 0 0 3 x").is_none());
    assert!(parse_command("circle 1 2 r").is_none());
    assert!(parse_command("arc 0 0 1 1 2 zero").is_none());
    assert!(parse_command("point 'a b' c").is_none());
    // only the required words are read
    assert!(matches!(parse_command("point 1 2 extra"), Some(ParsedCommand::Point { .. })));
    assert!(matches!(parse_command("point inf NaN"), Some(ParsedCommand::Point { .. })));
    // load and export take paths, not numbers
    assert!(matches!(parse_command("load a"), Some(ParsedCommand::Load(_))));
}

#[test]
fn number_words_as_str_parse_reads_them() {
    for w in [
        "0", "1.5", "-2", "+3", ".5", "5.", "1e3", "1E-3", "2.5e+10", "inf", "-Infinity", "NaN",
        "+nan", "INF", "infinity", "", "+", "-", ".", "e5", "1e", "1e+", "1.2.3", "1..2", "a",
        " 1", "1 ", "0x10", "1_000", "in", "infinit", "nana", "1e5.5", "--1", "+-1", "1f", ".e1",
    ] {
        assert_eq!(is_float_text(w), w.parse::<f64>().is_ok(), "word {w:?}");
    }
}
