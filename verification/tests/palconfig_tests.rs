use palcommand::palconfig::{apply_updates, parse, serialize, PalConfig};

const SAMPLE: &str = "[/Script/Pal.PalGameWorldSettings]\r\nOptionSettings=(Difficulty=None,DayTimeSpeedRate=1.000000,ServerName=\"My (cool), Server\",CrossplayPlatforms=(Steam,Xbox,PS5,Mac),AdminPassword=\"x\")\r\n";

fn pairs(c: &PalConfig) -> Vec<(&str, &str)> {
    c.pairs.iter().map(|(k, v)| (k.as_str(), v.as_str())).collect()
}

#[test]
fn parses_keys_values_and_header() {
    let c = parse(SAMPLE).unwrap();
    assert_eq!(c.header, "[/Script/Pal.PalGameWorldSettings]");
    assert_eq!(
        pairs(&c),
        vec![
            ("Difficulty", "None"),
            ("DayTimeSpeedRate", "1.000000"),
            ("ServerName", "\"My (cool), Server\""),
            ("CrossplayPlatforms", "(Steam,Xbox,PS5,Mac)"),
            ("AdminPassword", "\"x\""),
        ]
    );
}

#[test]
fn default_header_when_none() {
    let c = parse("OptionSettings=(A=1)").unwrap();
    assert_eq!(c.header, "[/Script/Pal.PalGameWorldSettings]");
    assert_eq!(pairs(&c), vec![("A", "1")]);
}

#[test]
fn keys_are_trimmed_values_kept_verbatim() {
    let c = parse("[H]\nOptionSettings=( A = 1 , B=\" two \",,)").unwrap();
    assert_eq!(pairs(&c), vec![("A", " 1"), ("B", "\" two \"")]);
}

#[test]
fn parse_errors() {
    assert_eq!(
        parse("[H]\nnothing here").unwrap_err(),
        "No OptionSettings=(...) found in PalWorldSettings.ini"
    );
    assert_eq!(
        parse("OptionSettings=(A=(1)").unwrap_err(),
        "OptionSettings parentheses are not balanced"
    );
    assert_eq!(parse("OptionSettings=( , )").unwrap_err(), "OptionSettings had no keys");
    assert_eq!(
        parse("OptionSettings=(A=1,Broken)").unwrap_err(),
        "Malformed setting (no '='): Broken"
    );
}

#[test]
fn updates_replace_in_place_and_append_new_keys() {
    let mut c = parse(SAMPLE).unwrap();
    apply_updates(
        &mut c,
        &[
            ("Difficulty".to_string(), "Hard".to_string()),
            ("NewKey".to_string(), "5".to_string()),
            ("Difficulty".to_string(), "Normal".to_string()),
        ],
    );
    assert_eq!(c.pairs[0], ("Difficulty".to_string(), "Normal".to_string()));
    assert_eq!(c.pairs[1].0, "DayTimeSpeedRate");
    assert_eq!(c.pairs.len(), 6);
    assert_eq!(c.pairs[5], ("NewKey".to_string(), "5".to_string()));
    assert_eq!(c.header, "[/Script/Pal.PalGameWorldSettings]");
}

#[test]
fn serializes_the_two_line_form() {
    let c = PalConfig {
        header: "[H]".into(),
        pairs: vec![("A".into(), "1".into()), ("B".into(), "\"x\"".into())],
    };
    assert_eq!(serialize(&c).unwrap(), "[H]\nOptionSettings=(A=1,B=\"x\")\n");
}

#[test]
fn serialize_then_parse_gives_the_same_settings() {
    let c = parse(SAMPLE).unwrap();
    let text = serialize(&c).unwrap();
    let back = parse(&text).unwrap();
    assert_eq!(back.header, c.header);
    assert_eq!(back.pairs, c.pairs);
}

#[test]
fn serialize_refuses_what_would_corrupt_the_file() {
    let mk = |v: &str| PalConfig { header: "[H]".into(), pairs: vec![("A".into(), v.into())] };
    assert_eq!(
        serialize(&PalConfig { header: "[H]".into(), pairs: vec![] }).unwrap_err(),
        "Refusing to write an empty OptionSettings line"
    );
    assert_eq!(
        serialize(&mk("a\nb")).unwrap_err(),
        "A value contains a line break — refusing to write (would corrupt the file)"
    );
    assert_eq!(
        serialize(&mk("a\rb")).unwrap_err(),
        "A value contains a line break — refusing to write (would corrupt the file)"
    );
    assert_eq!(
        serialize(&mk(")(")).unwrap_err(),
        "Unbalanced ')' in settings — refusing to write"
    );
    assert_eq!(
        serialize(&mk("((")).unwrap_err(),
        "Unbalanced '(' in settings — refusing to write"
    );
    assert_eq!(
        serialize(&mk("\"x")).unwrap_err(),
        "Odd number of quotes in settings — refusing to write"
    );
}
