//! Account handling: server-url normalization for credential keys, and the
//! account records the application stores.
//!
//! Normalization treats the ASCII blanks as whitespace and lowers the ASCII
//! letters; a server url is expected to be plain ASCII.

use vstd::prelude::*;

use crate::text::push_char;
use crate::types::is_space;

verus! {

/// Error types for account operations.
#[derive(Debug)]
pub enum AccountError {
    /// Credentials not found in the vault.
    NotFound,
    /// Invalid credentials provided.
    InvalidCredentials,
    /// The credential vault failed.
    KeyringError { message: String },
    /// The local database failed.
    DatabaseError(String),
}

/// A stored server connection.
#[derive(Debug)]
pub struct MinifluxAccount {
    pub id: i64,
    pub username: String,
    pub server_url: String,
    pub auth_method: String,
    pub is_active: bool,
    pub created_at: String,
    pub updated_at: String,
}

/// The ASCII-lowered character.
pub open spec fn spec_lower_char(c: char) -> char {
    if c == 'A' {
        'a'
    } else if c == 'B' {
        'b'
    } else if c == 'C' {
        'c'
    } else if c == 'D' {
        'd'
    } else if c == 'E' {
        'e'
    } else if c == 'F' {
        'f'
    } else if c == 'G' {
        'g'
    } else if c == 'H' {
        'h'
    } else if c == 'I' {
        'i'
    } else if c == 'J' {
        'j'
    } else if c == 'K' {
        'k'
    } else if c == 'L' {
        'l'
    } else if c == 'M' {
        'm'
    } else if c == 'N' {
        'n'
    } else if c == 'O' {
        'o'
    } else if c == 'P' {
        'p'
    } else if c == 'Q' {
        'q'
    } else if c == 'R' {
        'r'
    } else if c == 'S' {
        's'
    } else if c == 'T' {
        't'
    } else if c == 'U' {
        'u'
    } else if c == 'V' {
        'v'
    } else if c == 'W' {
        'w'
    } else if c == 'X' {
        'x'
    } else if c == 'Y' {
        'y'
    } else if c == 'Z' {
        'z'
    } else {
        c
    }
}

/// The ASCII-lowered character.
pub fn lower_char(c: char) -> (r: char)
    ensures
        r == spec_lower_char(c),
{
    match c {
        'A' => 'a',
        'B' => 'b',
        'C' => 'c',
        'D' => 'd',
        'E' => 'e',
        'F' => 'f',
        'G' => 'g',
        'H' => 'h',
        'I' => 'i',
        'J' => 'j',
        'K' => 'k',
        'L' => 'l',
        'M' => 'm',
        'N' => 'n',
        'O' => 'o',
        'P' => 'p',
        'Q' => 'q',
        'R' => 'r',
        'S' => 's',
        'T' => 't',
        'U' => 'u',
        'V' => 'v',
        'W' => 'w',
        'X' => 'x',
        'Y' => 'y',
        'Z' => 'z',
        _ => c,
    }
}

/// The sequence with trailing blanks dropped.
pub open spec fn spec_trim_end(s: Seq<char>) -> Seq<char>
    decreases s.len(),
{
    if s.len() > 0 && is_space(s.last()) {
        spec_trim_end(s.drop_last())
    } else {
        s
    }
}

/// The sequence with trailing slashes dropped.
pub open spec fn spec_strip_slashes(s: Seq<char>) -> Seq<char>
    decreases s.len(),
{
    if s.len() > 0 && s.last() == '/' {
        spec_strip_slashes(s.drop_last())
    } else {
        s
    }
}

/// The sequence lowered, with every blank removed.
pub open spec fn spec_remove_blanks_lower(s: Seq<char>) -> Seq<char>
    decreases s.len(),
{
    if s.len() == 0 {
        Seq::empty()
    } else if is_space(s.last()) {
        spec_remove_blanks_lower(s.drop_last())
    } else {
        spec_remove_blanks_lower(s.drop_last()).push(spec_lower_char(s.last()))
    }
}

/// The normalized form of a server url: trailing blanks dropped, then
/// trailing slashes dropped, then lowered with every remaining blank
/// removed.
pub open spec fn spec_normalize_server_url(s: Seq<char>) -> Seq<char> {
    spec_remove_blanks_lower(spec_strip_slashes(spec_trim_end(s)))
}

proof fn lemma_trim_end_prefix(s: Seq<char>, e: int)
    requires
        0 <= e <= s.len(),
        forall|j: int| e <= j < s.len() ==> is_space(s[j]),
        e > 0 ==> !is_space(s[e - 1]),
    ensures
        spec_trim_end(s) == s.subrange(0, e),
    decreases s.len() - e,
{
    if e == s.len() {
        if s.len() == 0 || !is_space(s.last()) {
            assert(spec_trim_end(s) =~= s.subrange(0, e));
        } else {
            assert(e > 0 && is_space(s[e - 1]));
        }
    } else {
        assert(is_space(s.last()));
        assert(s.len() > 0);
        lemma_trim_end_prefix(s.drop_last(), e);
        assert(s.drop_last().subrange(0, e) =~= s.subrange(0, e));
    }
}

proof fn lemma_strip_slashes_prefix(s: Seq<char>, e: int)
    requires
        0 <= e <= s.len(),
        forall|j: int| e <= j < s.len() ==> s[j] == '/',
        e > 0 ==> s[e - 1] != '/',
    ensures
        spec_strip_slashes(s) == s.subrange(0, e),
    decreases s.len() - e,
{
    if e == s.len() {
        if s.len() == 0 || s.last() != '/' {
            assert(spec_strip_slashes(s) =~= s.subrange(0, e));
        } else {
            assert(s[e - 1] == '/');
        }
    } else {
        assert(s.last() == '/');
        assert(s.len() > 0);
        lemma_strip_slashes_prefix(s.drop_last(), e);
        assert(s.drop_last().subrange(0, e) =~= s.subrange(0, e));
    }
}

/// Normalizes a server url for use as a stable credential key: trailing
/// slashes go, every blank goes, letters are lowered.
pub fn normalize_server_url(url: &str) -> (r: String)
    ensures
        r@ == spec_normalize_server_url(url@),
{
    let n = url.unicode_len();
    let mut e1: usize = n;
    while e1 > 0
        invariant_except_break
            e1 <= n,
            n == url@.len(),
            forall|j: int| e1 <= j < n ==> is_space(url@[j]),
        ensures
            e1 <= n,
            n == url@.len(),
            forall|j: int| e1 <= j < n ==> is_space(url@[j]),
            e1 > 0 ==> !is_space(url@[e1 - 1]),
        decreases e1,
    {
        let c = url.get_char(e1 - 1);
        if !(c == ' ' || c == '\t' || c == '\n' || c == '\r') {
            break ;
        }
        e1 -= 1;
    }
    proof {
        lemma_trim_end_prefix(url@, e1 as int);
    }
    let mut e2: usize = e1;
    while e2 > 0
        invariant_except_break
            e2 <= e1 <= n,
            n == url@.len(),
            forall|j: int| e2 <= j < e1 ==> url@[j] == '/',
        ensures
            e2 <= e1 <= n,
            n == url@.len(),
            forall|j: int| e2 <= j < e1 ==> url@[j] == '/',
            e2 > 0 ==> url@[e2 - 1] != '/',
        decreases e2,
    {
        if url.get_char(e2 - 1) != '/' {
            break ;
        }
        e2 -= 1;
    }
    proof {
        lemma_strip_slashes_prefix(url@.subrange(0, e1 as int), e2 as int);
    }
    let mut out = String::new();
    let mut i: usize = 0;
    while i < e2
        invariant
            i <= e2 <= n,
            n == url@.len(),
            out@ == spec_remove_blanks_lower(url@.subrange(0, i as int)),
        decreases e2 - i,
    {
        let c = url.get_char(i);
        proof {
            assert(url@.subrange(0, i + 1).drop_last() =~= url@.subrange(0, i as int));
            assert(url@.subrange(0, i + 1).last() == url@[i as int]);
        }
        if !(c == ' ' || c == '\t' || c == '\n' || c == '\r') {
            push_char(&mut out, lower_char(c));
            proof {
                assert(out@ =~= spec_remove_blanks_lower(url@.subrange(0, i + 1)));
            }
        } else {
            proof {
                assert(out@ =~= spec_remove_blanks_lower(url@.subrange(0, i + 1)));
            }
        }
        i += 1;
    }
    proof {
        assert(spec_trim_end(url@) == url@.subrange(0, e1 as int));
        assert(spec_strip_slashes(url@.subrange(0, e1 as int)) == url@.subrange(0, e2 as int));
        assert(url@.subrange(0, e1 as int).subrange(0, e2 as int) =~= url@.subrange(
            0,
            e2 as int,
        ));
        assert(out@ == spec_remove_blanks_lower(url@.subrange(0, e2 as int)));
    }
    out
}


/// The stable vault key of one credential: the service name, the
/// normalized server url, the user name and the credential kind, joined by
/// colons.
pub fn credential_key(server_url: &str, username: &str, suffix: &str) -> (r: String)
    ensures
        r@ == "minikyu:"@ + spec_normalize_server_url(server_url@) + seq![':'] + username@
            + seq![':'] + suffix@,
{
    let normalized = normalize_server_url(server_url);
    let mut key = "minikyu:".to_owned();
    key.append(normalized.as_str());
    push_char(&mut key, ':');
    key.append(username);
    push_char(&mut key, ':');
    key.append(suffix);
    proof {
        assert(key@ =~= "minikyu:"@ + spec_normalize_server_url(server_url@) + seq![':']
            + username@ + seq![':'] + suffix@);
    }
    key
}

} // verus!
