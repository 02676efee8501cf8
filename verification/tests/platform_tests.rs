use minikyu::platform::normalize_path_for_serialization;

#[test]
fn test_normalize_path_forward_slashes() {
    let normalized = normalize_path_for_serialization("foo/bar/baz.txt");
    assert_eq!(normalized, "foo/bar/baz.txt");
}

#[test]
fn test_normalize_path_empty() {
    let normalized = normalize_path_for_serialization("");
    assert_eq!(normalized, "");
}

#[test]
fn test_normalize_path_backslashes() {
    let normalized = normalize_path_for_serialization("C:\\Users\\foo\\bar.txt");
    assert_eq!(normalized, "C:/Users/foo/bar.txt");
}
