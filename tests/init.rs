use declconf::{
    build_arg_map_from_vec, init, resolve_field, ArgMap, ConfError, EnvVars, FieldDescriptor,
    FieldValue, MissingField, SourceKind, ValueType,
};

fn field(name: &str, source: SourceKind, key: &str, value_type: ValueType) -> FieldDescriptor {
    FieldDescriptor {
        field_name: name.to_string(),
        source,
        key: key.to_string(),
        value_type,
    }
}

fn env_of(pairs: &[(&str, &str)]) -> EnvVars {
    let mut env = EnvVars::new();
    for (k, v) in pairs {
        env.insert(k.to_string(), v.to_string());
    }
    env
}

fn tokens(ts: &[&str]) -> Vec<String> {
    ts.iter().map(ToString::to_string).collect()
}

#[test]
fn scenario_env_url_and_cli_threads() {
    let fields = vec![
        field("api_base_url", SourceKind::EnvRequired, "API_BASE_URL", ValueType::Text),
        field("threads", SourceKind::CliRequired, "threads", ValueType::U16),
    ];
    let env = env_of(&[("API_BASE_URL", "http://localhost/")]);
    let args = build_arg_map_from_vec(tokens(&["prog", "--threads", "8"]));
    let r = init(&fields, &env, &args);
    assert_eq!(
        r,
        Ok(vec![
            Some(FieldValue::Text("http://localhost/".to_string())),
            Some(FieldValue::U16(8)),
        ])
    );
}

#[test]
fn required_absent_fails_with_one_missing_field() {
    let fields = vec![
        field("api_base_url", SourceKind::EnvRequired, "API_BASE_URL", ValueType::Text),
        field("threads", SourceKind::CliRequired, "threads", ValueType::U16),
    ];
    let env = env_of(&[]);
    let args = build_arg_map_from_vec(tokens(&["prog", "--threads", "8"]));
    let errs = init(&fields, &env, &args).unwrap_err();
    assert_eq!(
        errs.0,
        vec![ConfError::MissingField(MissingField { field_name: "API_BASE_URL".to_string() })]
    );
}

#[test]
fn optional_absent_is_none_and_malformed_is_error() {
    let fields = vec![
        field("region", SourceKind::EnvOptional, "REGION", ValueType::Text),
        field("limit", SourceKind::CliOptional, "limit", ValueType::U16),
    ];
    let env = env_of(&[]);
    let args = build_arg_map_from_vec(tokens(&["prog"]));
    assert_eq!(init(&fields, &env, &args), Ok(vec![None, None]));

    let args = build_arg_map_from_vec(tokens(&["prog", "--limit", "lots"]));
    let errs = init(&fields, &env, &args).unwrap_err();
    assert_eq!(errs.0.len(), 1);
    assert!(matches!(&errs.0[0], ConfError::ParseError(p) if p.field_name == "limit"));
}

#[test]
fn every_broken_field_is_reported_in_order() {
    let fields = vec![
        field("a", SourceKind::EnvRequired, "A", ValueType::Text),
        field("ok", SourceKind::EnvRequired, "OK", ValueType::Text),
        field("b", SourceKind::CliRequired, "b", ValueType::U16),
        field("c", SourceKind::CliOptional, "c", ValueType::U16),
    ];
    let env = env_of(&[("OK", "fine")]);
    let args = build_arg_map_from_vec(tokens(&["prog", "--b", "x", "--c", "99999"]));
    let errs = init(&fields, &env, &args).unwrap_err();
    assert_eq!(errs.0.len(), 3);
    assert_eq!(
        errs.0[0],
        ConfError::MissingField(MissingField { field_name: "A".to_string() })
    );
    assert!(matches!(&errs.0[1], ConfError::ParseError(p) if p.field_name == "b"));
    assert!(matches!(&errs.0[2], ConfError::ParseError(p) if p.field_name == "c"));
}

#[test]
fn init_twice_gives_same_outcome() {
    let fields = vec![
        field("a", SourceKind::EnvRequired, "A", ValueType::Text),
        field("n", SourceKind::CliRequired, "n", ValueType::U16),
        field("m", SourceKind::CliRequired, "m", ValueType::U16),
    ];
    let env = env_of(&[("A", "x")]);
    let ts = tokens(&["prog", "--n", "3", "--m", "z"]);
    let r1 = init(&fields, &env, &build_arg_map_from_vec(ts.clone()));
    let r2 = init(&fields, &env, &build_arg_map_from_vec(ts));
    assert_eq!(r1, r2);
    assert!(r1.is_err());

    let ts = tokens(&["prog", "--n", "3", "--m", "4"]);
    let r1 = init(&fields, &env, &build_arg_map_from_vec(ts.clone()));
    let r2 = init(&fields, &env, &build_arg_map_from_vec(ts));
    assert_eq!(r1, r2);
    assert!(r1.is_ok());
}

#[test]
fn ignored_fields_take_defaults() {
    let fields = vec![
        field("threads", SourceKind::Ignored, "threads", ValueType::U16),
        field("name", SourceKind::Ignored, "NAME", ValueType::Text),
    ];
    let env = env_of(&[("NAME", "set")]);
    let args = build_arg_map_from_vec(tokens(&["prog", "--threads", "8"]));
    assert_eq!(
        init(&fields, &env, &args),
        Ok(vec![Some(FieldValue::U16(0)), Some(FieldValue::Text(String::new()))])
    );
}

#[test]
fn mixed_schema_initializes() {
    let fields = vec![
        field("api_base_url", SourceKind::EnvRequired, "API_BASE_URL", ValueType::Text),
        field("region_override", SourceKind::EnvOptional, "REGION_OVERRIDE", ValueType::Text),
        field("region_fallback", SourceKind::EnvRequired, "REGION_FALLBACK", ValueType::Text),
        field("threads", SourceKind::Ignored, "threads", ValueType::U16),
        field("extras", SourceKind::CliOptional, "extras", ValueType::Text),
    ];
    let env = env_of(&[("API_BASE_URL", "http://localhost/"), ("REGION_FALLBACK", "us-east-1")]);
    let mut args = ArgMap::new();
    args.insert("extras".to_string(), Some("fast-mode,less-mem".to_string()));
    let conf = init(&fields, &env, &args).expect("should init");
    assert_eq!(conf[0], Some(FieldValue::Text("http://localhost/".to_string())));
    assert_eq!(conf[1], None);
    assert_eq!(conf[2], Some(FieldValue::Text("us-east-1".to_string())));
    assert_eq!(conf[3], Some(FieldValue::U16(0)));
    assert_eq!(conf[4], Some(FieldValue::Text("fast-mode,less-mem".to_string())));
}

#[test]
fn empty_schema_succeeds() {
    let fields: Vec<FieldDescriptor> = Vec::new();
    let r = init(&fields, &EnvVars::new(), &ArgMap::new());
    assert_eq!(r, Ok(vec![]));
}

#[test]
fn resolve_single_field() {
    let env = env_of(&[("N", "12")]);
    let args = ArgMap::new();
    let d = field("n", SourceKind::EnvRequired, "N", ValueType::U16);
    assert_eq!(resolve_field(&d, &env, &args), Ok(Some(FieldValue::U16(12))));
    let d = field("n", SourceKind::EnvOptional, "M", ValueType::U16);
    assert_eq!(resolve_field(&d, &env, &args), Ok(None));
}
