use minikyu::types::{
    validate_chinese_conversion_mode, validate_close_behavior, validate_custom_chinese_conversions,
    validate_download_path, validate_filename, validate_language, validate_reader_code_theme,
    validate_reader_settings, validate_string_input, validate_theme, ChineseConversionMode,
    ChineseConversionRule,
};

#[test]
fn filename_accepts_plain_names_and_one_extension() {
    assert!(validate_filename("notes").is_ok());
    assert!(validate_filename("my-file_01.json").is_ok());
}

#[test]
fn filename_rejects_bad_shapes() {
    assert_eq!(validate_filename("").unwrap_err(), "Filename cannot be empty");
    let long: String = std::iter::repeat('a').take(101).collect();
    assert_eq!(
        validate_filename(&long).unwrap_err(),
        "Filename too long (max 100 characters)"
    );
    assert!(validate_filename("two.dots.txt").is_err());
    assert!(validate_filename(".hidden").is_err());
    assert!(validate_filename("name.").is_err());
    assert!(validate_filename("bad/char").is_err());
    assert!(validate_filename("ext.bad-ext").is_err());
}

#[test]
fn string_input_counts_characters() {
    assert!(validate_string_input("abc", 3, "field").is_ok());
    let err = validate_string_input("abcd", 3, "field").unwrap_err();
    assert_eq!(err, "field too long (max 3 characters)");
}

#[test]
fn theme_values() {
    assert!(validate_theme("light").is_ok());
    assert!(validate_theme("dark").is_ok());
    assert!(validate_theme("system").is_ok());
    assert!(validate_theme("solarized").is_err());
}

#[test]
fn language_values() {
    assert!(validate_language(&None).is_ok());
    assert!(validate_language(&Some("en".to_string())).is_ok());
    assert!(validate_language(&Some("zh-CN".to_string())).is_ok());
    assert!(validate_language(&Some("fr".to_string())).is_err());
}

#[test]
fn close_behavior_values() {
    assert!(validate_close_behavior("quit").is_ok());
    assert!(validate_close_behavior("minimize_to_tray").is_ok());
    assert!(validate_close_behavior("hide").is_err());
}

#[test]
fn reader_settings_ranges_and_families() {
    assert!(validate_reader_settings(16, 65, "sans-serif").is_ok());
    assert_eq!(
        validate_reader_settings(13, 65, "serif").unwrap_err(),
        "Font size must be between 14 and 24"
    );
    assert_eq!(
        validate_reader_settings(16, 81, "serif").unwrap_err(),
        "Line width must be between 45 and 80"
    );
    assert!(validate_reader_settings(16, 65, "comic-sans").is_err());
}

#[test]
fn chinese_conversion_mode_is_always_valid() {
    assert!(validate_chinese_conversion_mode(ChineseConversionMode::Off).is_ok());
    assert!(validate_chinese_conversion_mode(ChineseConversionMode::S2tw).is_ok());
    assert!(validate_chinese_conversion_mode(ChineseConversionMode::S2hk).is_ok());
    assert!(validate_chinese_conversion_mode(ChineseConversionMode::T2s).is_ok());
}

#[test]
fn custom_conversions_rules() {
    let ok = vec![ChineseConversionRule { from: " 台 ".to_string(), to: "臺".to_string() }];
    assert!(validate_custom_chinese_conversions(&ok).is_ok());
    let empty_from = vec![ChineseConversionRule { from: "   ".to_string(), to: "x".to_string() }];
    assert_eq!(
        validate_custom_chinese_conversions(&empty_from).unwrap_err(),
        "Custom conversion 'from' term cannot be empty"
    );
    let mut many = Vec::new();
    for _ in 0..201 {
        many.push(ChineseConversionRule { from: "a".to_string(), to: "b".to_string() });
    }
    assert_eq!(
        validate_custom_chinese_conversions(&many).unwrap_err(),
        "Too many custom conversion rules (max 200)"
    );
}

#[test]
fn reader_code_theme_rules() {
    assert!(validate_reader_code_theme("auto").is_ok());
    assert!(validate_reader_code_theme("  ").is_err());
    let long: String = std::iter::repeat('x').take(65).collect();
    assert!(validate_reader_code_theme(&long).is_err());
}

#[test]
fn download_path_rules() {
    assert!(validate_download_path(&None).is_ok());
    assert!(validate_download_path(&Some("/tmp/media".to_string())).is_ok());
    assert_eq!(
        validate_download_path(&Some("  ".to_string())).unwrap_err(),
        "Download path cannot be empty"
    );
    assert_eq!(
        validate_download_path(&Some("/a/../b".to_string())).unwrap_err(),
        "Download path cannot contain '..'"
    );
}
