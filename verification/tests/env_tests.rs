use nauman::env::{extend_env, lookup_env, parse_env_file, push_binding, Env};

fn pair(k: &str, v: &str) -> (String, String) {
    (k.to_string(), v.to_string())
}

#[test]
fn lookup_takes_latest_binding() {
    let mut env: Env = vec![pair("X", "1"), pair("Y", "a")];
    push_binding(&mut env, "X".to_string(), "2".to_string());
    assert_eq!(lookup_env(&env, &"X".to_string()), Some("2".to_string()));
    assert_eq!(lookup_env(&env, &"Y".to_string()), Some("a".to_string()));
    assert_eq!(lookup_env(&env, &"Z".to_string()), None);
}

#[test]
fn extend_layers_later_environment_over_earlier() {
    let mut env: Env = vec![pair("X", "1"), pair("K", "keep")];
    let over: Env = vec![pair("X", "2")];
    extend_env(&mut env, &over);
    assert_eq!(lookup_env(&env, &"X".to_string()), Some("2".to_string()));
    assert_eq!(lookup_env(&env, &"K".to_string()), Some("keep".to_string()));
}

#[test]
fn parse_empty_file_gives_empty_env() {
    let parsed = parse_env_file(&String::new()).unwrap();
    assert!(parsed.is_empty());
}

#[test]
fn parse_single_line_without_newline() {
    let parsed = parse_env_file(&"FOO=bar".to_string()).unwrap();
    assert_eq!(parsed, vec![pair("FOO", "bar")]);
}

#[test]
fn parse_multiple_lines_and_blank_lines() {
    let text = "A=1\n\nB=two\nC=\n".to_string();
    let parsed = parse_env_file(&text).unwrap();
    assert_eq!(parsed, vec![pair("A", "1"), pair("B", "two"), pair("C", "")]);
}

#[test]
fn parse_value_keeps_later_equals_signs() {
    let parsed = parse_env_file(&"URL=a=b=c".to_string()).unwrap();
    assert_eq!(parsed, vec![pair("URL", "a=b=c")]);
}

#[test]
fn parse_rejects_line_without_separator() {
    assert!(parse_env_file(&"JUSTAWORD\n".to_string()).is_err());
}

#[test]
fn parse_rejects_empty_key() {
    assert!(parse_env_file(&"=value\n".to_string()).is_err());
}

#[test]
fn parse_rejects_one_bad_line_among_good_ones() {
    assert!(parse_env_file(&"A=1\nbroken\nB=2\n".to_string()).is_err());
}
