use minikyu::accounts::credential_key;
use minikyu::media::{extract_filename, parse_png_dimensions};

#[test]
fn filename_is_the_last_segment() {
    assert_eq!(
        extract_filename("https://cdn.example.com/media/episode.mp3"),
        Some("episode.mp3".to_string())
    );
    assert_eq!(extract_filename("episode.mp3"), Some("episode.mp3".to_string()));
    assert_eq!(extract_filename("https://cdn.example.com/media/"), None);
    assert_eq!(extract_filename(""), None);
}

#[test]
fn png_dimensions_come_from_the_header() {
    let mut data = vec![0x89, 0x50, 0x4e, 0x47, 0x0d, 0x0a, 0x1a, 0x0a];
    data.extend_from_slice(&[0, 0, 0, 13, b'I', b'H', b'D', b'R']);
    data.extend_from_slice(&[0, 0, 0x01, 0x40]);
    data.extend_from_slice(&[0, 0, 0, 0xc8]);
    assert_eq!(parse_png_dimensions(&data), Some((320, 200)));
    assert_eq!(parse_png_dimensions(&data[..20]), None);
    let mut bad = data.clone();
    bad[0] = 0x88;
    assert_eq!(parse_png_dimensions(&bad), None);
}

#[test]
fn credential_keys_use_the_normalized_url() {
    assert_eq!(
        credential_key("HTTPS://EXAMPLE.COM/", "alice", "token"),
        "minikyu:https://example.com:alice:token"
    );
}
