use tone::auth::{AuthError, OneCredentials};

#[test]
fn test_parse_auth_string() {
    let (user, pass) = OneCredentials::parse_auth_string("testuser:testpass").unwrap();
    assert_eq!(user, "testuser");
    assert_eq!(pass, "testpass");
}

#[test]
fn test_parse_auth_string_with_colon_in_password() {
    let (user, pass) = OneCredentials::parse_auth_string("testuser:test:pass:123").unwrap();
    assert_eq!(user, "testuser");
    assert_eq!(pass, "test:pass:123");
}

#[test]
fn test_debug_redacts_password() {
    let creds =
        OneCredentials::new("testuser:supersecret", "https://localhost:2633/RPC2").unwrap();
    let debug_output = creds.redacted();
    assert!(!debug_output.contains("supersecret"));
    assert!(debug_output.contains("[REDACTED]"));
    assert!(debug_output.contains("testuser"));
}

#[test]
fn redacted_has_the_shape_of_a_struct() {
    let creds = OneCredentials::new("u:p", "http://h/RPC2").unwrap();
    assert_eq!(
        creds.redacted(),
        "OneCredentials { username: \"u\", password: \"[REDACTED]\", endpoint: \"http://h/RPC2\" }"
    );
}

#[test]
fn auth_string_without_colon_is_refused() {
    assert_eq!(
        OneCredentials::parse_auth_string("nocolon"),
        Err(AuthError::InvalidFormat)
    );
    assert!(OneCredentials::new("", "http://h").is_err());
}

#[test]
fn auth_string_with_empty_parts() {
    assert_eq!(
        OneCredentials::parse_auth_string(":"),
        Ok((String::new(), String::new()))
    );
    assert_eq!(
        OneCredentials::parse_auth_string("user:"),
        Ok(("user".to_string(), String::new()))
    );
}

#[test]
fn auth_string_is_name_colon_password() {
    let creds = OneCredentials::new("oneadmin:pa:ss", "https://one:2633/RPC2").unwrap();
    assert_eq!(creds.auth_string(), "oneadmin:pa:ss");
    assert_eq!(creds.username(), "oneadmin");
    assert_eq!(creds.endpoint(), "https://one:2633/RPC2");
}

#[test]
fn insecure_endpoint_is_plain_http_to_another_machine() {
    assert!(OneCredentials::warn_insecure_endpoint("http://example.org:2633/RPC2"));
    assert!(!OneCredentials::warn_insecure_endpoint("https://example.org:2633/RPC2"));
    assert!(!OneCredentials::warn_insecure_endpoint("http://localhost:2633/RPC2"));
    assert!(!OneCredentials::warn_insecure_endpoint("http://127.0.0.1:2633/RPC2"));
    assert!(!OneCredentials::warn_insecure_endpoint(""));
    assert!(!OneCredentials::warn_insecure_endpoint("xhttp://example.org"));
}

#[test]
fn set_endpoint_replaces_and_warns() {
    let mut creds = OneCredentials::new("u:p", "https://a/RPC2").unwrap();
    assert!(creds.set_endpoint("http://remote/RPC2".to_string()));
    assert_eq!(creds.endpoint(), "http://remote/RPC2");
    assert!(!creds.set_endpoint("https://remote/RPC2".to_string()));
    assert_eq!(creds.username(), "u");
    assert_eq!(creds.auth_string(), "u:p");
}

#[test]
fn file_permissions_open_to_group_or_others_are_exposed() {
    assert!(!OneCredentials::validate_file_permissions(0o600));
    assert!(!OneCredentials::validate_file_permissions(0o100600));
    assert!(OneCredentials::validate_file_permissions(0o644));
    assert!(OneCredentials::validate_file_permissions(0o604));
    assert!(OneCredentials::validate_file_permissions(0o640));
}
