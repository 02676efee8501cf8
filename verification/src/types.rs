//! Shared application types and input validation.
//!
//! Validation counts characters, not bytes, and treats the ASCII blank
//! characters (space, tab, carriage return, line feed) as whitespace.

use vstd::prelude::*;

use crate::text::{push_decimal_u64, str_eq};

verus! {

/// Chinese conversion mode for the reading panel.
#[derive(Debug, Clone, Copy, PartialEq, Eq, Structural)]
pub enum ChineseConversionMode {
    /// Keep source content unchanged.
    Off,
    /// Convert Simplified Chinese to Traditional Chinese (Taiwan).
    S2tw,
    /// Convert Simplified Chinese to Traditional Chinese (Hong Kong).
    S2hk,
    /// Convert Traditional Chinese to Simplified Chinese.
    T2s,
}

/// Custom rule for Chinese term conversion.
#[derive(Debug)]
pub struct ChineseConversionRule {
    pub from: String,
    pub to: String,
}

/// Window close behavior options.
#[derive(Debug, Clone, Copy, PartialEq, Eq, Structural)]
pub enum CloseBehavior {
    Quit,
    MinimizeToTray,
}

/// Tray icon states for visual feedback.
#[derive(Debug, Clone, Copy, PartialEq, Eq, Structural)]
pub enum TrayIconState {
    Normal,
    Notification,
    Alert,
}

/// Application preferences that persist to disk.
#[derive(Debug)]
pub struct AppPreferences {
    pub theme: String,
    pub quick_pane_shortcut: Option<String>,
    pub language: Option<String>,
    pub close_behavior: CloseBehavior,
    pub show_tray_icon: bool,
    pub start_minimized: bool,
    pub reader_font_size: u32,
    pub reader_line_width: u32,
    pub reader_font_family: String,
    pub reader_code_theme: String,
    pub reader_chinese_conversion: ChineseConversionMode,
    pub reader_bionic_reading: bool,
    pub reader_custom_conversions: Vec<ChineseConversionRule>,
    pub image_download_path: Option<String>,
    pub video_download_path: Option<String>,
}

impl Default for AppPreferences {
    /// The preferences a fresh installation starts from.
    fn default() -> (p: AppPreferences)
        ensures
            p.theme@ == "system"@,
            p.quick_pane_shortcut is None,
            p.language is None,
            p.close_behavior is MinimizeToTray,
            p.show_tray_icon == true,
            p.start_minimized == false,
            p.reader_font_size == 16,
            p.reader_line_width == 65,
            p.reader_font_family@ == "sans-serif"@,
            p.reader_code_theme@ == "auto"@,
            p.reader_chinese_conversion is S2tw,
            p.reader_bionic_reading == false,
            p.reader_custom_conversions@.len() == 0,
            p.image_download_path is None,
            p.video_download_path is None,
    {
        AppPreferences {
            theme: "system".to_owned(),
            quick_pane_shortcut: None,
            language: None,
            close_behavior: CloseBehavior::MinimizeToTray,
            show_tray_icon: true,
            start_minimized: false,
            reader_font_size: 16,
            reader_line_width: 65,
            reader_font_family: "sans-serif".to_owned(),
            reader_code_theme: "auto".to_owned(),
            reader_chinese_conversion: ChineseConversionMode::S2tw,
            reader_bionic_reading: false,
            reader_custom_conversions: Vec::new(),
            image_download_path: None,
            video_download_path: None,
        }
    }
}

/// Error types for recovery operations.
#[derive(Debug)]
pub enum RecoveryError {
    /// File does not exist (expected case, not a failure).
    FileNotFound,
    /// Filename validation failed.
    ValidationError { message: String },
    /// Data exceeds size limit.
    DataTooLarge { max_bytes: u32 },
    /// File system read/write error.
    IoError { message: String },
    /// Serialization error.
    ParseError { message: String },
}

/// The last reading position, kept to restore it on restart.
#[derive(Debug, Clone, Copy, PartialEq, Eq, Structural)]
pub struct LastReadingEntry {
    pub entry_id: i64,
    pub timestamp: i64,
}

/// An ASCII blank character.
pub open spec fn is_space(c: char) -> bool {
    c == ' ' || c == '\t' || c == '\n' || c == '\r'
}

/// A character a filename stem may hold.
pub open spec fn is_word_char(c: char) -> bool {
    ('a' <= c && c <= 'z') || ('A' <= c && c <= 'Z') || ('0' <= c && c <= '9') || c == '_' || c
        == '-'
}

/// A character a filename extension may hold.
pub open spec fn is_ext_char(c: char) -> bool {
    ('a' <= c && c <= 'z') || ('A' <= c && c <= 'Z') || ('0' <= c && c <= '9')
}

/// A decimal digit.
pub open spec fn is_digit_char(c: char) -> bool {
    '0' <= c && c <= '9'
}

/// Some character of the sequence is a dot.
pub open spec fn has_dot(s: Seq<char>) -> bool {
    exists|i: int| 0 <= i < s.len() && s[i] == '.'
}

/// Index of the first dot.
pub open spec fn first_dot(s: Seq<char>) -> int {
    choose|i: int| 0 <= i < s.len() && s[i] == '.' && forall|j: int| 0 <= j < i ==> s[j] != '.'
}

/// The filename shape accepted for file-system operations: a nonempty stem
/// of word characters, optionally followed by one dot and a nonempty
/// alphanumeric extension.
#[verifier::opaque]
pub open spec fn spec_filename_ok(s: Seq<char>) -> bool {
    if has_dot(s) {
        let d = first_dot(s);
        &&& 1 <= d
        &&& d + 1 < s.len()
        &&& forall|j: int| 0 <= j < d ==> is_word_char(s[j])
        &&& forall|j: int| d < j < s.len() ==> is_ext_char(s[j])
    } else {
        s.len() >= 1 && forall|j: int| 0 <= j < s.len() ==> is_word_char(s[j])
    }
}

/// Validates a filename for safe file system operations.
pub fn validate_filename(filename: &str) -> (r: Result<(), String>)
    ensures
        r is Ok <==> 1 <= filename@.len() <= 100 && spec_filename_ok(filename@),
{
    proof {
        reveal(spec_filename_ok);
    }
    let n = filename.unicode_len();
    if n == 0 {
        return Err("Filename cannot be empty".to_owned());
    }
    if n > 100 {
        return Err("Filename too long (max 100 characters)".to_owned());
    }
    let mut dot: usize = n;
    let mut i: usize = 0;
    while i < n
        invariant
            i <= n,
            dot <= n,
            n == filename@.len(),
            dot == n ==> forall|j: int| 0 <= j < i ==> filename@[j] != '.',
            dot < n ==> dot < i && filename@[dot as int] == '.' && (forall|j: int|
                0 <= j < dot ==> filename@[j] != '.'),
        decreases n - i,
    {
        if filename.get_char(i) == '.' && dot == n {
            dot = i;
        }
        i += 1;
    }
    let mut stem_ok = dot > 0;
    let mut i: usize = 0;
    while i < dot
        invariant
            i <= dot <= n,
            n == filename@.len(),
            dot > 0 ==> (stem_ok <==> forall|j: int| 0 <= j < i ==> is_word_char(filename@[j])),
            dot == 0 ==> !stem_ok,
        decreases dot - i,
    {
        let c = filename.get_char(i);
        let wc = ('a' <= c && c <= 'z') || ('A' <= c && c <= 'Z') || ('0' <= c && c <= '9') || c
            == '_' || c == '-';
        if !wc {
            stem_ok = false;
        }
        i += 1;
    }
    let mut ext_ok = true;
    if dot < n {
        if dot + 1 == n {
            ext_ok = false;
        } else {
            let mut j: usize = dot + 1;
            while j < n
                invariant
                    dot + 1 <= j <= n,
                    n == filename@.len(),
                    ext_ok <==> forall|k: int| dot < k < j ==> is_ext_char(filename@[k]),
                decreases n - j,
            {
                let c = filename.get_char(j);
                let ec = ('a' <= c && c <= 'z') || ('A' <= c && c <= 'Z') || ('0' <= c && c
                    <= '9');
                if !ec {
                    ext_ok = false;
                }
                j += 1;
            }
        }
    }
    proof {
        if dot < n {
            assert(has_dot(filename@));
            assert(first_dot(filename@) == dot as int) by {
                assert(0 <= dot < filename@.len() && filename@[dot as int] == '.' && forall|j: int|
                    0 <= j < dot ==> filename@[j] != '.');
                let i = first_dot(filename@);
                if i < dot as int {
                    assert(filename@[i] != '.');
                } else if i > dot as int {
                    assert(filename@[dot as int] != '.');
                }
            }
        } else {
            assert(!has_dot(filename@)) by {
                if has_dot(filename@) {
                    let i = choose|i: int| 0 <= i < filename@.len() && filename@[i] == '.';
                    assert(filename@[i] != '.');
                }
            }
        }
    }
    if stem_ok && ext_ok {
        Ok(())
    } else {
        Err(
            "Invalid filename: only alphanumeric characters, dashes, underscores, and dots allowed".to_owned(),
        )
    }
}

/// Validates string input length, counted in characters.
pub fn validate_string_input(input: &str, max_len: usize, field_name: &str) -> (r: Result<
    (),
    String,
>)
    ensures
        r is Ok <==> input@.len() <= max_len,
{
    let char_count = input.unicode_len();
    if char_count > max_len {
        let mut msg = field_name.to_owned();
        msg.append(" too long (max ");
        push_decimal_u64(max_len as u64, &mut msg);
        msg.append(" characters)");
        return Err(msg);
    }
    Ok(())
}

/// Validates a theme value.
pub fn validate_theme(theme: &str) -> (r: Result<(), String>)
    ensures
        r is Ok <==> theme@ == "light"@ || theme@ == "dark"@ || theme@ == "system"@,
{
    if str_eq(theme, "light") || str_eq(theme, "dark") || str_eq(theme, "system") {
        Ok(())
    } else {
        Err("Invalid theme: must be 'light', 'dark', or 'system'".to_owned())
    }
}

/// Validates a language value; nothing set means the system locale.
pub fn validate_language(language: &Option<String>) -> (r: Result<(), String>)
    ensures
        r is Ok <==> match language {
            None => true,
            Some(lang) => lang@ == "en"@ || lang@ == "zh-CN"@ || lang@ == "zh-TW"@ || lang@
                == "ja"@ || lang@ == "ko"@,
        },
{
    match language {
        None => Ok(()),
        Some(lang) => {
            let l = lang.as_str();
            if str_eq(l, "en") || str_eq(l, "zh-CN") || str_eq(l, "zh-TW") || str_eq(l, "ja")
                || str_eq(l, "ko") {
                Ok(())
            } else {
                Err(
                    "Invalid language: must be 'en', 'zh-CN', 'zh-TW', 'ja', 'ko', or null".to_owned(),
                )
            }
        },
    }
}

/// Validates a close behavior value.
pub fn validate_close_behavior(behavior: &str) -> (r: Result<(), String>)
    ensures
        r is Ok <==> behavior@ == "quit"@ || behavior@ == "minimize_to_tray"@,
{
    if str_eq(behavior, "quit") || str_eq(behavior, "minimize_to_tray") {
        Ok(())
    } else {
        Err("Invalid close behavior: must be 'quit' or 'minimize_to_tray'".to_owned())
    }
}

/// Validates reader settings: font size 14–24, line width 45–80, and a
/// known font family.
pub fn validate_reader_settings(font_size: u32, line_width: u32, font_family: &str) -> (r: Result<
    (),
    String,
>)
    ensures
        r is Ok <==> 14 <= font_size <= 24 && 45 <= line_width <= 80 && (font_family@
            == "sans-serif"@ || font_family@ == "system-ui"@ || font_family@ == "humanist"@
            || font_family@ == "serif"@ || font_family@ == "georgia"@ || font_family@
            == "book-serif"@ || font_family@ == "monospace"@),
{
    if !(14 <= font_size && font_size <= 24) {
        return Err("Font size must be between 14 and 24".to_owned());
    }
    if !(45 <= line_width && line_width <= 80) {
        return Err("Line width must be between 45 and 80".to_owned());
    }
    if str_eq(font_family, "sans-serif") || str_eq(font_family, "system-ui") || str_eq(
        font_family,
        "humanist",
    ) || str_eq(font_family, "serif") || str_eq(font_family, "georgia") || str_eq(
        font_family,
        "book-serif",
    ) || str_eq(font_family, "monospace") {
        Ok(())
    } else {
        Err(
            "Invalid font family: must be one of 'sans-serif', 'system-ui', 'humanist', 'serif', 'georgia', 'book-serif', or 'monospace'".to_owned(),
        )
    }
}

/// Validates a Chinese conversion mode value: every closed variant is
/// valid.
pub fn validate_chinese_conversion_mode(mode: ChineseConversionMode) -> (r: Result<(), String>)
    ensures
        r is Ok,
{
    match mode {
        ChineseConversionMode::Off => Ok(()),
        ChineseConversionMode::S2tw => Ok(()),
        ChineseConversionMode::S2hk => Ok(()),
        ChineseConversionMode::T2s => Ok(()),
    }
}

/// Every character of the sequence is an ASCII blank.
pub open spec fn all_spaces(s: Seq<char>) -> bool {
    forall|j: int| 0 <= j < s.len() ==> is_space(s[j])
}

/// Index of the first character that is not a blank.
pub open spec fn first_non_space(s: Seq<char>) -> int {
    choose|i: int|
        0 <= i < s.len() && !is_space(s[i]) && forall|j: int| 0 <= j < i ==> is_space(s[j])
}

/// Index of the last character that is not a blank.
pub open spec fn last_non_space(s: Seq<char>) -> int {
    choose|i: int|
        0 <= i < s.len() && !is_space(s[i]) && forall|j: int| i < j < s.len() ==> is_space(s[j])
}

/// Character count after stripping blanks from both ends.
#[verifier::opaque]
pub open spec fn spec_trimmed_len(s: Seq<char>) -> int {
    if all_spaces(s) {
        0
    } else {
        last_non_space(s) - first_non_space(s) + 1
    }
}

/// Index of the first character of the input that is not a blank, or its
/// length when every character is one.
fn scan_first_non_space(s: &str) -> (r: usize)
    ensures
        r <= s@.len(),
        forall|j: int| 0 <= j < r ==> is_space(s@[j]),
        r < s@.len() ==> !is_space(s@[r as int]),
{
    let len = s.unicode_len();
    let mut i: usize = 0;
    while i < len
        invariant
            i <= len,
            len == s@.len(),
            forall|j: int| 0 <= j < i ==> is_space(s@[j]),
        decreases len - i,
    {
        let c = s.get_char(i);
        if !(c == ' ' || c == '\t' || c == '\n' || c == '\r') {
            return i;
        }
        i += 1;
    }
    len
}

/// Index of the last character at or after `from` that is not a blank,
/// assuming the character at `from` is not one.
fn scan_last_non_space(s: &str, from: usize) -> (r: usize)
    requires
        from < s@.len(),
        !is_space(s@[from as int]),
    ensures
        from <= r < s@.len(),
        !is_space(s@[r as int]),
        forall|j: int| r < j < s@.len() ==> is_space(s@[j]),
{
    let len = s.unicode_len();
    let mut last: usize = len - 1;
    while last > from
        invariant
            from <= last < len,
            len == s@.len(),
            !is_space(s@[from as int]),
            forall|j: int| last < j < len ==> is_space(s@[j]),
        decreases last,
    {
        let c = s.get_char(last);
        if !(c == ' ' || c == '\t' || c == '\n' || c == '\r') {
            return last;
        }
        last -= 1;
    }
    last
}

/// Character count of the input with leading and trailing blanks stripped.
pub fn trimmed_len(s: &str) -> (n: usize)
    ensures
        n == spec_trimmed_len(s@),
{
    proof {
        reveal(spec_trimmed_len);
    }
    let len = s.unicode_len();
    let first = scan_first_non_space(s);
    if first == len {
        proof {
            assert(all_spaces(s@));
        }
        return 0;
    }
    let last = scan_last_non_space(s, first);
    proof {
        assert(!all_spaces(s@)) by {
            assert(!is_space(s@[first as int]));
        }
        assert(first_non_space(s@) == first as int) by {
            assert(0 <= first < s@.len() && !is_space(s@[first as int]) && forall|j: int|
                0 <= j < first ==> is_space(s@[j]));
            let i = first_non_space(s@);
            if i < first as int {
                assert(is_space(s@[i]));
            } else if i > first as int {
                assert(is_space(s@[first as int]));
            }
        }
        assert(last_non_space(s@) == last as int) by {
            assert(0 <= last < s@.len() && !is_space(s@[last as int]) && forall|j: int|
                last < j < s@.len() ==> is_space(s@[j]));
            let i = last_non_space(s@);
            if i < last as int {
                assert(is_space(s@[last as int]));
            } else if i > last as int {
                assert(is_space(s@[i]));
            }
        }
    }
    last - first + 1
}

/// Validates custom Chinese conversion rules: at most 200 rules, each with
/// a nonempty source term and both terms at most 100 characters after
/// trimming.
#[verifier::rlimit(100)]
pub fn validate_custom_chinese_conversions(rules: &Vec<ChineseConversionRule>) -> (r: Result<
    (),
    String,
>)
    ensures
        r is Ok <==> rules@.len() <= 200 && forall|j: int|
            0 <= j < rules@.len() ==> 1 <= spec_trimmed_len(rules@[j].from@) <= 100
                && spec_trimmed_len(rules@[j].to@) <= 100,
{
    if rules.len() > 200 {
        return Err("Too many custom conversion rules (max 200)".to_owned());
    }
    let n = rules.len();
    let mut i: usize = 0;
    while i < n
        invariant
            i <= n,
            n == rules@.len(),
            forall|j: int|
                0 <= j < i ==> 1 <= spec_trimmed_len(rules@[j].from@) <= 100 && spec_trimmed_len(
                    rules@[j].to@,
                ) <= 100,
        decreases n - i,
    {
        let from_len = trimmed_len(rules[i].from.as_str());
        let to_len = trimmed_len(rules[i].to.as_str());
        if from_len == 0 {
            return Err("Custom conversion 'from' term cannot be empty".to_owned());
        }
        if from_len > 100 {
            return Err(
                "Custom conversion 'from' term too long (max 100 characters)".to_owned(),
            );
        }
        if to_len > 100 {
            return Err("Custom conversion 'to' term too long (max 100 characters)".to_owned());
        }
        i += 1;
    }
    Ok(())
}

/// Validates a reader code theme identifier: nonempty after trimming, at
/// most 64 characters.
pub fn validate_reader_code_theme(theme: &str) -> (r: Result<(), String>)
    ensures
        r is Ok <==> 1 <= spec_trimmed_len(theme@) <= 64,
{
    let t = trimmed_len(theme);
    if t == 0 {
        return Err("Invalid reader code theme: cannot be empty".to_owned());
    }
    if t > 64 {
        return Err("Invalid reader code theme: maximum length is 64 characters".to_owned());
    }
    Ok(())
}

/// Two consecutive dots occur somewhere in the sequence.
#[verifier::opaque]
pub open spec fn has_dot_dot(s: Seq<char>) -> bool {
    exists|i: int| 0 <= i && i + 1 < s.len() && (#[trigger] s[i]) == '.' && s[i + 1] == '.'
}

/// Validates a download path: nothing set is allowed; a set path must be
/// nonempty after trimming, at most 500 characters, and free of `..`.
#[verifier::rlimit(60)]
pub fn validate_download_path(path: &Option<String>) -> (r: Result<(), String>)
    ensures
        r is Ok <==> match path {
            None => true,
            Some(p) => 1 <= spec_trimmed_len(p@) && p@.len() <= 500 && !has_dot_dot(p@),
        },
{
    proof {
        reveal(has_dot_dot);
    }
    let p = match path {
        None => {
            return Ok(());
        },
        Some(p) => p,
    };
    if trimmed_len(p.as_str()) == 0 {
        return Err("Download path cannot be empty".to_owned());
    }
    let len = p.as_str().unicode_len();
    if len > 500 {
        return Err("Download path too long (max 500 characters)".to_owned());
    }
    let s = p.as_str();
    let mut i: usize = 0;
    while i + 1 < len
        invariant
            i <= len,
            len <= 500,
            len == s@.len(),
            s@ == p@,
            path is Some,
            path->0@ == p@,
            1 <= spec_trimmed_len(p@),
            forall|j: int| 0 <= j && j < i && j + 1 < len ==> !(#[trigger] s@[j] == '.' && s@[j + 1] == '.'),
        decreases len - i,
    {
        if s.get_char(i) == '.' && s.get_char(i + 1) == '.' {
            proof {
                assert(has_dot_dot(s@)) by {
                    reveal(has_dot_dot);
                    assert(0 <= i as int && i as int + 1 < s@.len() && (s@[i as int]) == '.'
                        && s@[i as int + 1] == '.');
                }
            }
            return Err("Download path cannot contain '..'".to_owned());
        }
        i += 1;
    }
    proof {
        assert(!has_dot_dot(s@)) by {
            if has_dot_dot(s@) {
                let k = choose|k: int|
                    0 <= k && k + 1 < s@.len() && #[trigger] s@[k] == '.' && s@[k + 1] == '.';
            }
        }
    }
    Ok(())
}

} // verus!
