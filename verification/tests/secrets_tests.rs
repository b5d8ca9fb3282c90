use hop_cli::{format_secrets, validate_name, Secret};

#[test]
fn valid_names_pass() {
    assert!(validate_name("MY_SECRET").is_ok());
    assert!(validate_name("a").is_ok());
    assert!(validate_name("Token_2024").is_ok());
    assert!(validate_name(&"x".repeat(64)).is_ok());
}

#[test]
fn empty_name_fails() {
    assert!(validate_name("").is_err());
}

#[test]
fn overlong_name_fails() {
    assert!(validate_name(&"x".repeat(65)).is_err());
}

#[test]
fn punctuated_names_fail() {
    assert!(validate_name("bad-name").is_err());
    assert!(validate_name("has space").is_err());
    assert!(validate_name("dotted.name").is_err());
}

#[test]
fn rejection_explains_the_rule() {
    let msg = validate_name("!").unwrap_err();
    assert!(msg.contains("64 characters"));
    assert!(msg.contains("alphanumeric"));
}

#[test]
fn secrets_format_one_line_each() {
    let secrets = vec![
        Secret { name: "API_KEY".to_string(), id: "secret_1".to_string() },
        Secret { name: "DB_URL".to_string(), id: "secret_2".to_string() },
    ];
    assert_eq!(
        format_secrets(&secrets),
        vec![" API_KEY (secret_1)".to_string(), " DB_URL (secret_2)".to_string()]
    );
    assert!(format_secrets(&Vec::new()).is_empty());
}
