//! Small media helpers: the file name at the end of a download url, and
//! the dimensions in a PNG header.

use vstd::prelude::*;

use crate::text::push_char;

verus! {

/// Index just after the last slash, or zero without one.
pub open spec fn spec_after_last_slash(s: Seq<char>) -> int {
    if exists|i: int| 0 <= i < s.len() && s[i] == '/' {
        (choose|i: int|
            0 <= i < s.len() && s[i] == '/' && forall|j: int| i < j < s.len() ==> s[j] != '/') + 1
    } else {
        0
    }
}

/// The last path segment of a url, if it is nonempty.
pub open spec fn spec_extract_filename(s: Seq<char>) -> Option<Seq<char>> {
    let seg = s.subrange(spec_after_last_slash(s), s.len() as int);
    if seg.len() == 0 {
        None
    } else {
        Some(seg)
    }
}

/// The file name a download url ends in: the text after the last slash,
/// or nothing when the url ends in a slash or is empty.
pub fn extract_filename(url: &str) -> (r: Option<String>)
    ensures
        match r {
            Some(name) => spec_extract_filename(url@) == Some(name@),
            None => spec_extract_filename(url@) is None,
        },
{
    let n = url.unicode_len();
    let mut start: usize = n;
    while start > 0
        invariant_except_break
            start <= n,
            n == url@.len(),
            forall|j: int| start <= j < n ==> url@[j] != '/',
        ensures
            start <= n,
            n == url@.len(),
            forall|j: int| start <= j < n ==> url@[j] != '/',
            start > 0 ==> url@[start - 1] == '/',
        decreases start,
    {
        if url.get_char(start - 1) == '/' {
            break ;
        }
        start -= 1;
    }
    proof {
        if start > 0 {
            assert(spec_after_last_slash(url@) == start as int) by {
                assert(exists|i: int| 0 <= i < url@.len() && url@[i] == '/') by {
                    assert(url@[start - 1] == '/');
                }
                let i = choose|i: int|
                    0 <= i < url@.len() && url@[i] == '/' && forall|j: int|
                        i < j < url@.len() ==> url@[j] != '/';
                if i < start - 1 {
                    assert(url@[start - 1] != '/');
                } else if i > start - 1 {
                    assert(url@[i] != '/');
                }
            }
        } else {
            assert(spec_after_last_slash(url@) == 0) by {
                if exists|i: int| 0 <= i < url@.len() && url@[i] == '/' {
                    let i = choose|i: int| 0 <= i < url@.len() && url@[i] == '/';
                    assert(url@[i] != '/');
                }
            }
        }
    }
    if start == n {
        return None;
    }
    let mut name = String::new();
    let mut i: usize = start;
    while i < n
        invariant
            start <= i <= n,
            n == url@.len(),
            name@ == url@.subrange(start as int, i as int),
        decreases n - i,
    {
        push_char(&mut name, url.get_char(i));
        proof {
            assert(name@ =~= url@.subrange(start as int, i + 1));
        }
        i += 1;
    }
    Some(name)
}

/// The value of four big-endian bytes.
pub open spec fn spec_be32(b0: u8, b1: u8, b2: u8, b3: u8) -> u32 {
    (b0 * 0x100_0000 + b1 * 0x1_0000 + b2 * 0x100 + b3) as u32
}

/// The eight-byte PNG signature stands at the start of the data.
pub open spec fn spec_png_signature(d: Seq<u8>) -> bool {
    &&& d.len() >= 8
    &&& d[0] == 0x89
    &&& d[1] == 0x50
    &&& d[2] == 0x4e
    &&& d[3] == 0x47
    &&& d[4] == 0x0d
    &&& d[5] == 0x0a
    &&& d[6] == 0x1a
    &&& d[7] == 0x0a
}

/// Reads the width and height out of a PNG header: the signature is eight
/// bytes, the header record follows, and the two dimensions sit big-endian
/// at bytes sixteen through twenty-three.
pub fn parse_png_dimensions(data: &[u8]) -> (r: Option<(u32, u32)>)
    ensures
        match r {
            Some(dims) => data@.len() >= 24 && spec_png_signature(data@) && dims.0 == spec_be32(
                data@[16],
                data@[17],
                data@[18],
                data@[19],
            ) && dims.1 == spec_be32(data@[20], data@[21], data@[22], data@[23]),
            None => data@.len() < 24 || !spec_png_signature(data@),
        },
{
    if data.len() < 24 {
        return None;
    }
    let sig_ok = data[0] == 0x89 && data[1] == 0x50 && data[2] == 0x4e && data[3] == 0x47
        && data[4] == 0x0d && data[5] == 0x0a && data[6] == 0x1a && data[7] == 0x0a;
    if !sig_ok {
        return None;
    }
    let width = be32(data[16], data[17], data[18], data[19]);
    let height = be32(data[20], data[21], data[22], data[23]);
    Some((width, height))
}

fn be32(b0: u8, b1: u8, b2: u8, b3: u8) -> (r: u32)
    ensures
        r == spec_be32(b0, b1, b2, b3),
{
    (b0 as u32) * 0x100_0000 + (b1 as u32) * 0x1_0000 + (b2 as u32) * 0x100 + (b3 as u32)
}

} // verus!
