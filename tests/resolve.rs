use declconf::{
    err_to_parse_err, from_cli_arg, from_env_var, optional_from_cli_arg, optional_from_env_var,
    ArgMap, ConfError, ConfErrors, EnvVars, MissingField, ParseError,
};

fn env_of(pairs: &[(&str, &str)]) -> EnvVars {
    let mut env = EnvVars::new();
    for (k, v) in pairs {
        env.insert(k.to_string(), v.to_string());
    }
    env
}

fn args_of(pairs: &[(&str, Option<&str>)]) -> ArgMap {
    let mut m = ArgMap::new();
    for (k, v) in pairs {
        m.insert(k.to_string(), v.map(|s| s.to_string()));
    }
    m
}

fn missing(name: &str) -> ConfError {
    ConfError::MissingField(MissingField { field_name: name.to_string() })
}

fn is_parse_error_for(e: &ConfError, name: &str) -> bool {
    matches!(e, ConfError::ParseError(p) if p.field_name == name)
}

#[test]
fn required_env_present_parses() {
    let env = env_of(&[("PORT", "8080"), ("URL", "http://x/")]);
    assert_eq!(from_env_var::<u16>(&env, "PORT"), Ok(8080));
    assert_eq!(from_env_var::<String>(&env, "URL"), Ok("http://x/".to_string()));
}

#[test]
fn required_env_absent_is_missing() {
    let env = env_of(&[("OTHER", "1")]);
    assert_eq!(from_env_var::<u16>(&env, "PORT"), Err(missing("PORT")));
    assert_eq!(from_env_var::<String>(&env, "URL"), Err(missing("URL")));
}

#[test]
fn required_env_malformed_is_parse_error() {
    let env = env_of(&[("PORT", "eighty")]);
    let r = from_env_var::<u16>(&env, "PORT");
    assert_eq!(
        r,
        Err(ConfError::ParseError(ParseError {
            field_name: "PORT".to_string(),
            message: "invalid digit found in string".to_string(),
        }))
    );
}

#[test]
fn env_names_are_case_sensitive() {
    let env = env_of(&[("port", "1")]);
    assert_eq!(from_env_var::<u16>(&env, "PORT"), Err(missing("PORT")));
}

#[test]
fn optional_env_absent_is_none() {
    let env = env_of(&[]);
    assert_eq!(optional_from_env_var::<u16>(&env, "PORT"), Ok(None));
}

#[test]
fn optional_env_present_parses() {
    let env = env_of(&[("PORT", "7")]);
    assert_eq!(optional_from_env_var::<u16>(&env, "PORT"), Ok(Some(7)));
}

#[test]
fn optional_env_malformed_is_parse_error() {
    let env = env_of(&[("PORT", "70000")]);
    let r = optional_from_env_var::<u16>(&env, "PORT");
    assert!(is_parse_error_for(&r.unwrap_err(), "PORT"));
}

#[test]
fn required_cli_present_parses() {
    let args = args_of(&[("n", Some("64"))]);
    assert_eq!(from_cli_arg::<u16>(&args, "n"), Ok(64));
    assert_eq!(from_cli_arg::<String>(&args, "n"), Ok("64".to_string()));
}

#[test]
fn required_cli_absent_or_bare_is_missing() {
    let args = args_of(&[("flag", None)]);
    assert_eq!(from_cli_arg::<String>(&args, "flag"), Err(missing("flag")));
    assert_eq!(from_cli_arg::<String>(&args, "other"), Err(missing("other")));
}

#[test]
fn required_cli_malformed_is_parse_error() {
    let args = args_of(&[("n", Some("-1"))]);
    let r = from_cli_arg::<u16>(&args, "n");
    assert!(is_parse_error_for(&r.unwrap_err(), "n"));
}

#[test]
fn optional_cli_absent_or_bare_is_none() {
    let args = args_of(&[("flag", None)]);
    assert_eq!(optional_from_cli_arg::<u16>(&args, "flag"), Ok(None));
    assert_eq!(optional_from_cli_arg::<u16>(&args, "other"), Ok(None));
}

#[test]
fn optional_cli_present_parses() {
    let args = args_of(&[("extras", Some("fast-mode,less-mem"))]);
    assert_eq!(
        optional_from_cli_arg::<String>(&args, "extras"),
        Ok(Some("fast-mode,less-mem".to_string()))
    );
}

#[test]
fn optional_cli_malformed_is_parse_error() {
    let args = args_of(&[("n", Some(""))]);
    let r = optional_from_cli_arg::<u16>(&args, "n");
    assert_eq!(
        r,
        Err(err_to_parse_err("n", "cannot parse integer from empty string".to_string()))
    );
}

#[test]
fn numbers_round_trip() {
    for v in [0u16, 1, 8, 64, 8080, 65535] {
        let args = args_of(&[("n", Some(v.to_string().as_str()))]);
        assert_eq!(from_cli_arg::<u16>(&args, "n"), Ok(v));
    }
    let args = args_of(&[("n", Some("+8"))]);
    assert_eq!(from_cli_arg::<u16>(&args, "n"), Ok(8));
    let args = args_of(&[("n", Some("65536"))]);
    assert!(is_parse_error_for(&from_cli_arg::<u16>(&args, "n").unwrap_err(), "n"));
}

#[test]
fn text_round_trips() {
    for s in ["", "plain", "with space", "ünïcode", "--dashes"] {
        let env = env_of(&[("K", s)]);
        assert_eq!(from_env_var::<String>(&env, "K"), Ok(s.to_string()));
    }
}

#[test]
fn error_texts() {
    assert_eq!(missing("A").describe(), "MissingField: A");
    let e = err_to_parse_err("B", "bad".to_string());
    assert_eq!(e.describe(), "ParseError: Failed to parse B: bad");
    let all = ConfErrors(vec![missing("A"), e]);
    assert_eq!(all.describe(), "MissingField: AParseError: Failed to parse B: bad");
    assert_eq!(ConfErrors(vec![]).describe(), "");
}
