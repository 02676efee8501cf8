use minikyu::accounts::normalize_server_url;

#[test]
fn test_normalize_server_url_lowercase() {
    assert_eq!(normalize_server_url("HTTPS://EXAMPLE.COM"), "https://example.com");
}

#[test]
fn test_normalize_server_url_trailing_slash() {
    assert_eq!(normalize_server_url("https://example.com/"), "https://example.com");
}

#[test]
fn test_normalize_server_url_whitespace() {
    assert_eq!(normalize_server_url("  https://example.com  "), "https://example.com");
}

#[test]
fn test_normalize_server_url_internal_whitespace() {
    assert_eq!(normalize_server_url("https://example. com"), "https://example.com");
}

#[test]
fn test_normalize_server_url_combined() {
    assert_eq!(normalize_server_url("  HTTPS://EXAMPLE.COM/  "), "https://example.com");
}

#[test]
fn test_normalize_server_url_many_slashes() {
    assert_eq!(normalize_server_url("https://example.com///"), "https://example.com");
}
