//! Log line colorization: levels, timestamps, module paths and key-value
//! pairs, each styled with ANSI color codes.

use vstd::prelude::*;

use crate::text::{char_index, has_char, find_char, push_char};
use crate::types::{is_digit_char, is_space};

verus! {

pub const RESET: &'static str = "\x1b[0m";

pub const ERROR_COLOR: &'static str = "\x1b[38;5;196m";

pub const WARN_COLOR: &'static str = "\x1b[38;5;208m";

pub const INFO_COLOR: &'static str = "\x1b[38;5;39m";

pub const DEBUG_COLOR: &'static str = "\x1b[38;5;183m";

pub const TRACE_COLOR: &'static str = "\x1b[38;5;245m";

pub const TIMESTAMP_COLOR: &'static str = "\x1b[38;5;242m";

pub const TIMESTAMP_BRIGHT: &'static str = "\x1b[38;5;250m";

pub const TARGET_COLOR: &'static str = "\x1b[38;5;111m";

pub const TARGET_BRIGHT: &'static str = "\x1b[38;5;75m";

pub const SEPARATOR_COLOR: &'static str = "\x1b[38;5;240m";

pub const KEY_COLOR: &'static str = "\x1b[38;5;149m";

pub const STRING_COLOR: &'static str = "\x1b[38;5;180m";

pub const NUMBER_COLOR: &'static str = "\x1b[38;5;141m";

pub const BOOLEAN_COLOR: &'static str = "\x1b[38;5;81m";

pub const NULL_COLOR: &'static str = "\x1b[38;5;245m";

/// A log level, mirroring the standard five levels.
#[derive(Debug, Clone, Copy, PartialEq, Eq, Structural)]
pub enum LogLevel {
    Error,
    Warn,
    Info,
    Debug,
    Trace,
}

/// The foreground color of a log level.
pub fn level_color(level: LogLevel) -> (r: &'static str)
    ensures
        level is Error ==> r@ == ERROR_COLOR@,
        level is Warn ==> r@ == WARN_COLOR@,
        level is Info ==> r@ == INFO_COLOR@,
        level is Debug ==> r@ == DEBUG_COLOR@,
        level is Trace ==> r@ == TRACE_COLOR@,
{
    match level {
        LogLevel::Error => ERROR_COLOR,
        LogLevel::Warn => WARN_COLOR,
        LogLevel::Info => INFO_COLOR,
        LogLevel::Debug => DEBUG_COLOR,
        LogLevel::Trace => TRACE_COLOR,
    }
}

/// The three-letter tag of a log level.
pub fn level_short_name(level: LogLevel) -> (r: &'static str)
    ensures
        level is Error ==> r@ == "ERR"@,
        level is Warn ==> r@ == "WRN"@,
        level is Info ==> r@ == "INF"@,
        level is Debug ==> r@ == "DBG"@,
        level is Trace ==> r@ == "TRC"@,
{
    match level {
        LogLevel::Error => "ERR",
        LogLevel::Warn => "WRN",
        LogLevel::Info => "INF",
        LogLevel::Debug => "DBG",
        LogLevel::Trace => "TRC",
    }
}

/// A formatted timestamp: the date dimmed, the time brighter, fractional
/// seconds dropped. A timestamp without a date-time separator is emitted
/// dimmed as a whole.
pub open spec fn spec_format_timestamp(ts: Seq<char>) -> Seq<char> {
    if has_char(ts, 'T') {
        let t = char_index(ts, 'T');
        let date = ts.subrange(0, t);
        let time = ts.subrange(t + 1, ts.len() as int);
        let clean = if has_char(time, '.') {
            time.subrange(0, char_index(time, '.'))
        } else {
            time
        };
        TIMESTAMP_COLOR@ + date + seq![' '] + TIMESTAMP_BRIGHT@ + clean + RESET@
    } else {
        TIMESTAMP_COLOR@ + ts + RESET@
    }
}

/// Appends the styled form of a timestamp.
#[verifier::rlimit(100)]
pub fn format_timestamp(timestamp: &str, output: &mut String)
    ensures
        final(output)@ == old(output)@ + spec_format_timestamp(timestamp@),
{
    match find_char(timestamp, 'T') {
        Some(t) => {
            let n = timestamp.unicode_len();
            let date = timestamp.substring_char(0, t);
            let time = timestamp.substring_char(t + 1, n);
            output.append(TIMESTAMP_COLOR);
            output.append(date);
            push_char(output, ' ');
            output.append(TIMESTAMP_BRIGHT);
            match find_char(time, '.') {
                Some(d) => {
                    output.append(time.substring_char(0, d));
                },
                None => {
                    output.append(time);
                },
            }
            output.append(RESET);
            proof {
                assert(output@ =~= old(output)@ + spec_format_timestamp(timestamp@));
            }
        },
        None => {
            output.append(TIMESTAMP_COLOR);
            output.append(timestamp);
            output.append(RESET);
            proof {
                assert(output@ =~= old(output)@ + spec_format_timestamp(timestamp@));
            }
        },
    }
}

/// A `::` separator occurs at some position.
pub open spec fn has_sep(s: Seq<char>) -> bool {
    exists|i: int| 0 <= i && i + 1 < s.len() && (#[trigger] s[i]) == ':' && s[i + 1] == ':'
}

/// Position of the first `::` separator.
pub open spec fn sep_index(s: Seq<char>) -> int {
    choose|i: int|
        0 <= i && i + 1 < s.len() && (#[trigger] s[i]) == ':' && s[i + 1] == ':' && forall|j: int|
            0 <= j < i ==> !((#[trigger] s[j]) == ':' && s[j + 1] == ':')
}

/// The styled components of a module path: every component before a
/// separator plain, the separator dimmed, and the final component bright.
pub open spec fn spec_target_parts(s: Seq<char>) -> Seq<char>
    decreases s.len(),
{
    if has_sep(s) {
        let i = sep_index(s);
        if 0 <= i && i + 2 <= s.len() {
            s.subrange(0, i) + SEPARATOR_COLOR@ + "::"@ + TARGET_COLOR@ + spec_target_parts(
                s.subrange(i + 2, s.len() as int),
            )
        } else {
            s
        }
    } else {
        TARGET_BRIGHT@ + s + TARGET_COLOR@
    }
}

/// Finds the first `::` separator.
fn find_sep(s: &str) -> (r: Option<usize>)
    ensures
        match r {
            Some(i) => has_sep(s@) && i == sep_index(s@) && i + 1 < s@.len(),
            None => !has_sep(s@),
        },
{
    let n = s.unicode_len();
    if n < 2 {
        proof {
            assert(!has_sep(s@)) by {
                if has_sep(s@) {
                    let i = choose|i: int|
                        0 <= i && i + 1 < s@.len() && (#[trigger] s@[i]) == ':' && s@[i + 1]
                            == ':';
                }
            }
        }
        return None;
    }
    let mut i: usize = 0;
    while i < n - 1
        invariant
            i <= n,
            2 <= n == s@.len(),
            forall|j: int| 0 <= j < i ==> !((#[trigger] s@[j]) == ':' && s@[j + 1] == ':'),
        decreases n - i,
    {
        if s.get_char(i) == ':' && s.get_char(i + 1) == ':' {
            proof {
                assert(has_sep(s@));
                assert(sep_index(s@) == i as int) by {
                    assert(0 <= i as int && i as int + 1 < s@.len() && s@[i as int] == ':'
                        && s@[i as int + 1] == ':' && forall|j: int|
                        0 <= j < i ==> !((#[trigger] s@[j]) == ':' && s@[j + 1] == ':'));
                    let k = sep_index(s@);
                    if k < i as int {
                        assert(!(s@[k] == ':' && s@[k + 1] == ':'));
                    } else if k > i as int {
                        assert(!(s@[i as int] == ':' && s@[i as int + 1] == ':'));
                    }
                }
            }
            return Some(i);
        }
        i += 1;
    }
    proof {
        assert(!has_sep(s@)) by {
            if has_sep(s@) {
                let k = choose|k: int|
                    0 <= k && k + 1 < s@.len() && (#[trigger] s@[k]) == ':' && s@[k + 1] == ':';
                assert(!(s@[k] == ':' && s@[k + 1] == ':'));
            }
        }
    }
    None
}

/// Appends the styled components of a module path.
#[verifier::rlimit(100)]
fn emit_target_parts(target: &str, output: &mut String)
    ensures
        final(output)@ == old(output)@ + spec_target_parts(target@),
    decreases target@.len(),
{
    let n = target.unicode_len();
    match find_sep(target) {
        Some(i) => {
            output.append(target.substring_char(0, i));
            output.append(SEPARATOR_COLOR);
            output.append("::");
            output.append(TARGET_COLOR);
            emit_target_parts(target.substring_char(i + 2, n), output);
            proof {
                assert(output@ =~= old(output)@ + spec_target_parts(target@));
            }
        },
        None => {
            output.append(TARGET_BRIGHT);
            output.append(target);
            output.append(TARGET_COLOR);
            proof {
                assert(output@ =~= old(output)@ + spec_target_parts(target@));
            }
        },
    }
}

/// Appends the styled form of a module path: the whole path in the target
/// color, components separated by dimmed `::`, the final component bright.
pub fn format_target(target: &str, output: &mut String)
    ensures
        final(output)@ == old(output)@ + TARGET_COLOR@ + spec_target_parts(target@) + RESET@,
{
    output.append(TARGET_COLOR);
    emit_target_parts(target, output);
    output.append(RESET);
    proof {
        assert(output@ =~= old(output)@ + TARGET_COLOR@ + spec_target_parts(target@) + RESET@);
    }
}

/// A character that ends a key when scanning backwards from `=`.
pub open spec fn is_boundary(c: char) -> bool {
    is_space(c) || c == ',' || c == '{' || c == '[' || c == '('
}

/// A character that ends a value.
pub open spec fn is_value_end(c: char) -> bool {
    is_space(c) || c == ',' || c == '}' || c == ']' || c == ')'
}

/// `k` is where the key starts in the text before an `=`: just after the
/// last boundary character, or the start of the text.
pub open spec fn is_key_start(p: Seq<char>, k: int) -> bool {
    0 <= k <= p.len() && (k == 0 || is_boundary(p[k - 1])) && forall|j: int|
        k <= j < p.len() ==> !is_boundary(#[trigger] p[j])
}

/// Start of the key inside the text before an `=`.
pub open spec fn key_start(p: Seq<char>) -> int {
    choose|k: int| is_key_start(p, k)
}

/// Length of the value after an `=`: up to the first value-ending
/// character, or the whole rest.
pub open spec fn has_value_end(rest: Seq<char>) -> bool {
    exists|i: int| 0 <= i < rest.len() && is_value_end(#[trigger] rest[i])
}

/// Position of the first value-ending character.
pub open spec fn value_end(rest: Seq<char>) -> int {
    choose|i: int|
        0 <= i < rest.len() && is_value_end(#[trigger] rest[i]) && forall|j: int|
            0 <= j < i ==> !is_value_end(#[trigger] rest[j])
}

/// The color a value is styled with, decided by its shape: quoted strings,
/// the boolean words, the null words, numbers, and plain text.
pub open spec fn spec_value_color(v: Seq<char>) -> Seq<char> {
    if v.len() > 0 && (v[0] == '"' || v[0] == '\'') {
        STRING_COLOR@
    } else if v == "true"@ || v == "false"@ {
        BOOLEAN_COLOR@
    } else if v == "null"@ || v == "undefined"@ {
        NULL_COLOR@
    } else if v.len() > 0 && (is_digit_char(v[0]) || v[0] == '-') {
        NUMBER_COLOR@
    } else {
        STRING_COLOR@
    }
}

/// The styled form of one key: the text before the `=` as written, then
/// the key repeated in the key color, then the dimmed `=`.
pub open spec fn spec_key_eq_part(p: Seq<char>) -> Seq<char> {
    p + KEY_COLOR@ + p.subrange(key_start(p), p.len() as int) + RESET@ + SEPARATOR_COLOR@
        + seq!['='] + RESET@
}

/// The styled form of one value.
pub open spec fn spec_value_part(v: Seq<char>) -> Seq<char> {
    spec_value_color(v) + v + RESET@
}

/// The message with every `key=value` pair styled: the text up to the `=`
/// as written, the key repeated in the key color, the `=` dimmed, and the
/// value in its shape's color.
#[verifier::opaque]
pub open spec fn spec_highlight(s: Seq<char>) -> Seq<char>
    decreases s.len(),
{
    if !has_char(s, '=') {
        s
    } else {
        let e = char_index(s, '=');
        if 0 <= e < s.len() {
            let p = s.subrange(0, e);
            let rest = s.subrange(e + 1, s.len() as int);
            let ve = if has_value_end(rest) {
                value_end(rest)
            } else {
                rest.len() as int
            };
            if 0 <= ve <= rest.len() {
                let v = rest.subrange(0, ve);
                spec_key_eq_part(p) + spec_value_part(v) + spec_highlight(
                    rest.subrange(ve, rest.len() as int),
                )
            } else {
                s
            }
        } else {
            s
        }
    }
}

/// Start of the key in the text before an `=`.
fn scan_key_start(p: &str) -> (k: usize)
    ensures
        k == key_start(p@),
        k <= p@.len(),
{
    let n = p.unicode_len();
    let mut k: usize = n;
    while k > 0
        invariant_except_break
            k <= n,
            n == p@.len(),
            forall|j: int| k <= j < n ==> !is_boundary(#[trigger] p@[j]),
        ensures
            k <= n,
            n == p@.len(),
            forall|j: int| k <= j < n ==> !is_boundary(#[trigger] p@[j]),
            k == 0 || is_boundary(p@[k - 1]),
        decreases k,
    {
        let c = p.get_char(k - 1);
        if c == ' ' || c == '\t' || c == '\n' || c == '\r' || c == ',' || c == '{' || c == '['
            || c == '(' {
            break ;
        }
        k -= 1;
    }
    proof {
        assert(key_start(p@) == k as int) by {
            assert(is_key_start(p@, k as int));
            let k2 = key_start(p@);
            assert(is_key_start(p@, k2));
            if k2 < k as int {
                assert(is_boundary(p@[k as int - 1]));
                assert(!is_boundary(p@[k as int - 1]));
            } else if k2 > k as int {
                assert(is_boundary(p@[k2 - 1]));
                assert(!is_boundary(p@[k2 - 1]));
            }
        }
    }
    k
}

/// Position after the value that follows an `=`.
fn scan_value_end(rest: &str) -> (ve: usize)
    ensures
        ve == if has_value_end(rest@) {
            value_end(rest@)
        } else {
            rest@.len() as int
        },
        ve <= rest@.len(),
{
    let n = rest.unicode_len();
    let mut i: usize = 0;
    while i < n
        invariant
            i <= n,
            n == rest@.len(),
            forall|j: int| 0 <= j < i ==> !is_value_end(#[trigger] rest@[j]),
        decreases n - i,
    {
        let c = rest.get_char(i);
        if c == ' ' || c == '\t' || c == '\n' || c == '\r' || c == ',' || c == '}' || c == ']'
            || c == ')' {
            proof {
                assert(has_value_end(rest@));
                assert(value_end(rest@) == i as int) by {
                    assert(0 <= (i as int) < rest@.len() && is_value_end(rest@[i as int])
                        && forall|j: int| 0 <= j < i ==> !is_value_end(#[trigger] rest@[j]));
                    let k = value_end(rest@);
                    if k < i as int {
                        assert(!is_value_end(rest@[k]));
                    } else if k > i as int {
                        assert(!is_value_end(rest@[i as int]));
                    }
                }
            }
            return i;
        }
        i += 1;
    }
    proof {
        assert(!has_value_end(rest@)) by {
            if has_value_end(rest@) {
                let k = choose|k: int| 0 <= k < rest@.len() && is_value_end(#[trigger] rest@[k]);
                assert(!is_value_end(rest@[k]));
            }
        }
    }
    n
}

/// Appends the value's color code.
fn emit_value_color(v: &str, output: &mut String)
    ensures
        final(output)@ == old(output)@ + spec_value_color(v@),
{
    let n = v.unicode_len();
    let quoted = n > 0 && {
        let c = v.get_char(0);
        c == '"' || c == '\''
    };
    if quoted {
        output.append(STRING_COLOR);
        return ;
    }
    if crate::text::str_eq(v, "true") || crate::text::str_eq(v, "false") {
        output.append(BOOLEAN_COLOR);
        return ;
    }
    if crate::text::str_eq(v, "null") || crate::text::str_eq(v, "undefined") {
        output.append(NULL_COLOR);
        return ;
    }
    let numeric = n > 0 && {
        let c = v.get_char(0);
        ('0' <= c && c <= '9') || c == '-'
    };
    if numeric {
        output.append(NUMBER_COLOR);
        return ;
    }
    output.append(STRING_COLOR);
}

/// Appends the text before the `=`, the colored key, and the dimmed `=`.
#[verifier::rlimit(100)]
fn emit_key_eq(prefix: &str, output: &mut String)
    ensures
        final(output)@ == old(output)@ + spec_key_eq_part(prefix@),
{
    output.append(prefix);
    let k = scan_key_start(prefix);
    let n = prefix.unicode_len();
    output.append(KEY_COLOR);
    output.append(prefix.substring_char(k, n));
    output.append(RESET);
    output.append(SEPARATOR_COLOR);
    push_char(output, '=');
    output.append(RESET);
    proof {
        assert(output@ =~= old(output)@ + spec_key_eq_part(prefix@));
    }
}

/// Appends the value in its shape's color.
#[verifier::rlimit(100)]
fn emit_value_part(value: &str, output: &mut String)
    ensures
        final(output)@ == old(output)@ + spec_value_part(value@),
{
    emit_value_color(value, output);
    output.append(value);
    output.append(RESET);
    proof {
        assert(output@ =~= old(output)@ + spec_value_part(value@));
    }
}

#[verifier::rlimit(100)]
proof fn lemma_highlight_compose(
    s: Seq<char>,
    out0: Seq<char>,
    out1: Seq<char>,
    out2: Seq<char>,
    out3: Seq<char>,
    e: int,
    ve: int,
)
    requires
        has_char(s, '='),
        e == char_index(s, '='),
        0 <= e < s.len(),
        ve == if has_value_end(s.subrange(e + 1, s.len() as int)) {
            value_end(s.subrange(e + 1, s.len() as int))
        } else {
            s.len() - e - 1
        },
        0 <= ve <= s.len() - e - 1,
        out1 == out0 + spec_key_eq_part(s.subrange(0, e)),
        out2 == out1 + spec_value_part(s.subrange(e + 1, s.len() as int).subrange(0, ve)),
        out3 == out2 + spec_highlight(
            s.subrange(e + 1, s.len() as int).subrange(ve, s.len() - e - 1),
        ),
    ensures
        out3 == out0 + spec_highlight(s),
{
    reveal(spec_highlight);
    let p = s.subrange(0, e);
    let rest = s.subrange(e + 1, s.len() as int);
    let v = rest.subrange(0, ve);
    let tail = rest.subrange(ve, rest.len() as int);
    assert(spec_highlight(s) == spec_key_eq_part(p) + spec_value_part(v) + spec_highlight(tail));
    lemma_add_assoc(out0, spec_key_eq_part(p), spec_value_part(v));
    lemma_add_assoc(out0, spec_key_eq_part(p) + spec_value_part(v), spec_highlight(tail));
}

proof fn lemma_add_assoc(a: Seq<char>, b: Seq<char>, c: Seq<char>)
    ensures
        (a + b) + c == a + (b + c),
{
    assert((a + b) + c =~= a + (b + c));
}

/// Appends the message with every `key=value` pair styled.
#[verifier::rlimit(100)]
pub fn highlight_key_values(message: &str, output: &mut String)
    ensures
        final(output)@ == old(output)@ + spec_highlight(message@),
    decreases message@.len(),
{
    proof {
        reveal(spec_highlight);
    }
    let e = match find_char(message, '=') {
        None => {
            output.append(message);
            return ;
        },
        Some(e) => e,
    };
    let n = message.unicode_len();
    let prefix = message.substring_char(0, e);
    emit_key_eq(prefix, output);
    let ghost out1 = output@;
    let rest = message.substring_char(e + 1, n);
    let rn = rest.unicode_len();
    let ve = scan_value_end(rest);
    let value = rest.substring_char(0, ve);
    emit_value_part(value, output);
    let ghost out2 = output@;
    highlight_key_values(rest.substring_char(ve, rn), output);
    proof {
        lemma_highlight_compose(
            message@,
            old(output)@,
            out1,
            out2,
            output@,
            e as int,
            ve as int,
        );
    }
}

} // verus!
