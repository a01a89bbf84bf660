use pico_limbo::env_placeholders::{expand_env_placeholders, placeholder_names, ConfigError};

fn env(pairs: &[(&str, &str)]) -> Vec<(String, String)> {
    pairs.iter().map(|(k, v)| (k.to_string(), v.to_string())).collect()
}

#[test]
fn expands_placeholders() {
    let e = env(&[("HOST", "example.org"), ("PORT", "25565")]);
    assert_eq!(
        expand_env_placeholders("bind = \"${HOST}:${PORT}\"", &e).unwrap(),
        "bind = \"example.org:25565\""
    );
    assert_eq!(expand_env_placeholders("no placeholders", &e).unwrap(), "no placeholders");
}

#[test]
fn escaped_placeholders_stay_literal() {
    let e = env(&[]);
    assert_eq!(expand_env_placeholders("cost \\${PRICE} é", &e).unwrap(), "cost ${PRICE} é");
    assert_eq!(placeholder_names("a \\${X} ${Y} ${_z9}"), vec!["Y", "_z9"]);
}

#[test]
fn missing_variable_is_reported_first_in_order() {
    let e = env(&[("B", "2")]);
    assert_eq!(
        expand_env_placeholders("${A} ${B} ${C}", &e),
        Err(ConfigError::MissingEnvVar("A".to_string()))
    );
    assert_eq!(
        expand_env_placeholders("${B} ${C} ${A}", &e),
        Err(ConfigError::MissingEnvVar("C".to_string()))
    );
}

#[test]
fn names_must_be_identifiers() {
    let e = env(&[("9X", "no")]);
    assert_eq!(expand_env_placeholders("${9X} ${} $X", &e).unwrap(), "${9X} ${} $X");
}
