//! SHA-256 checksums of file contents, written in lowercase hexadecimal.

use vstd::prelude::*;
use vstd::utf8::{valid_utf8, decode_utf8};
use sha2::Digest;
use crate::text::{char_is_space, is_space, push_char, utf8_decode, chars_of};

verus! {

/// The SHA-256 digest of some bytes.
pub uninterp spec fn sha256_digest(data: Seq<u8>) -> Seq<u8>;

/// The SHA-256 digest of `data`.
///
/// Trusted: wraps `sha2::Sha256::digest`. The result is the digest of the
/// bytes given, whose output size is 32 bytes; the digest itself is not
/// stated here.
#[verifier::external_body]
fn sha256(data: &[u8]) -> (d: Vec<u8>)
    ensures
        d@ == sha256_digest(data@),
        d@.len() == 32,
{
    sha2::Sha256::digest(data).to_vec()
}

/// The lowercase hexadecimal digit of `d`.
pub open spec fn hex_char(d: int) -> char {
    if d < 10 {
        ((d + '0' as int) as u32) as char
    } else {
        ((d - 10 + 'a' as int) as u32) as char
    }
}

/// Two lowercase hexadecimal digits per byte.
pub open spec fn hex_lower(bytes: Seq<u8>) -> Seq<char>
    decreases bytes.len(),
{
    if bytes.len() == 0 {
        Seq::empty()
    } else {
        hex_lower(bytes.drop_last()) + seq![hex_char(bytes.last() as int / 16), hex_char(bytes.last() as int % 16)]
    }
}

fn hex_digit(d: u8) -> (c: char)
    requires
        d < 16,
    ensures
        c == hex_char(d as int),
{
    let table = ['0', '1', '2', '3', '4', '5', '6', '7', '8', '9', 'a', 'b', 'c', 'd', 'e', 'f'];
    let c = table[d as usize];
    proof {
        assert(table@[0] == '0' && table@[1] == '1' && table@[2] == '2' && table@[3] == '3');
        assert(table@[10] == 'a' && table@[15] == 'f');
        assert(c == hex_char(d as int)) by {
            reveal_with_fuel(hex_char, 1);
            assert(('0' as int) == 48);
            assert(('a' as int) == 97);
            assert(table@[d as int] == hex_char(d as int)) by {
                assert(table@[4] == '4' && table@[5] == '5' && table@[6] == '6' && table@[7] == '7');
                assert(table@[8] == '8' && table@[9] == '9' && table@[11] == 'b' && table@[12] == 'c');
                assert(table@[13] == 'd' && table@[14] == 'e');
                assert((52u32 as char) == '4');
                assert(('0' as u32) == 48 && ('1' as u32) == 49 && ('2' as u32) == 50 && ('3' as u32) == 51);
                assert(('4' as u32) == 52 && ('5' as u32) == 53 && ('6' as u32) == 54 && ('7' as u32) == 55);
                assert(('8' as u32) == 56 && ('9' as u32) == 57 && ('a' as u32) == 97 && ('b' as u32) == 98);
                assert(('c' as u32) == 99 && ('d' as u32) == 100 && ('e' as u32) == 101 && ('f' as u32) == 102);
            }
        }
    }
    c
}

/// Writes bytes in lowercase hexadecimal, two digits per byte.
pub fn to_hex(bytes: &[u8]) -> (s: String)
    ensures
        s@ == hex_lower(bytes@),
{
    let mut s = String::new();
    let mut i: usize = 0;
    while i < bytes.len()
        invariant
            i <= bytes@.len(),
            s@ == hex_lower(bytes@.take(i as int)),
        decreases bytes@.len() - i,
    {
        let b = bytes[i];
        push_char(&mut s, hex_digit(b / 16));
        push_char(&mut s, hex_digit(b % 16));
        proof {
            let t = bytes@.take(i + 1);
            assert(t.drop_last() =~= bytes@.take(i as int));
            assert(t.last() == b);
            assert(s@ =~= hex_lower(t));
        }
        i = i + 1;
    }
    assert(bytes@.take(bytes@.len() as int) =~= bytes@);
    s
}

/// The SHA-256 checksum of some content, as `sha256sum` prints it.
pub fn sha256_hex(data: &[u8]) -> (s: String)
    ensures
        s@ == hex_lower(sha256_digest(data@)),
        s@.len() == 64,
{
    let d = sha256(data);
    let s = to_hex(d.as_slice());
    proof {
        lemma_hex_len(d@);
    }
    s
}

proof fn lemma_hex_len(b: Seq<u8>)
    ensures
        hex_lower(b).len() == 2 * b.len(),
    decreases b.len(),
{
    if b.len() > 0 {
        lemma_hex_len(b.drop_last());
    }
}

/// Why the output of `sha256sum` gave no checksum.
#[derive(Debug, Clone, Copy, PartialEq, Eq, Structural)]
pub enum ChecksumError {
    /// The command printed nothing.
    NoOutput,
    /// The output is not UTF-8 text.
    NotUtf8,
    /// The output holds only whitespace.
    NoChecksum,
}

/// Index of the first character at or after `from` that is (or is not) whitespace.
pub open spec fn scan(s: Seq<char>, from: int, space: bool) -> int
    decreases s.len() - from,
{
    if from >= s.len() || is_space(s[from]) == space {
        from
    } else {
        scan(s, from + 1, space)
    }
}

/// The first whitespace-separated word of `s`, if any.
pub open spec fn first_word(s: Seq<char>) -> Option<Seq<char>> {
    let start = scan(s, 0, false);
    if start >= s.len() {
        None
    } else {
        Some(s.subrange(start, scan(s, start, true)))
    }
}

proof fn lemma_scan_bounds(s: Seq<char>, from: int, space: bool)
    requires
        0 <= from <= s.len(),
    ensures
        from <= scan(s, from, space) <= s.len(),
    decreases s.len() - from,
{
    if from < s.len() && is_space(s[from]) != space {
        lemma_scan_bounds(s, from + 1, space);
    }
}

fn scan_exec(s: &Vec<char>, from: usize, space: bool) -> (r: usize)
    requires
        from <= s@.len(),
    ensures
        r == scan(s@, from as int, space),
        from <= r <= s@.len(),
    decreases s@.len() - from,
{
    if from >= s.len() || char_is_space(s[from]) == space {
        from
    } else {
        scan_exec(s, from + 1, space)
    }
}

/// The checksum printed by `sha256sum`: its first word.
pub fn checksum_from_output(output: &[u8]) -> (r: Result<String, ChecksumError>)
    ensures
        output@.len() == 0 ==> r == Err::<String, ChecksumError>(ChecksumError::NoOutput),
        output@.len() > 0 && !valid_utf8(output@) ==> r == Err::<String, ChecksumError>(ChecksumError::NotUtf8),
        output@.len() > 0 && valid_utf8(output@) ==> match first_word(decode_utf8(output@)) {
            None => r == Err::<String, ChecksumError>(ChecksumError::NoChecksum),
            Some(w) => r matches Ok(c) && c@ == w,
        },
{
    if output.len() == 0 {
        return Err(ChecksumError::NoOutput);
    }
    let text = match utf8_decode(output) {
        Some(t) => t,
        None => {
            return Err(ChecksumError::NotUtf8);
        },
    };
    let cs = chars_of(text.as_str());
    let start = scan_exec(&cs, 0, false);
    if start >= cs.len() {
        return Err(ChecksumError::NoChecksum);
    }
    let end = scan_exec(&cs, start, true);
    let mut word = String::new();
    let mut i = start;
    while i < end
        invariant
            start <= i <= end,
            end <= cs@.len(),
            word@ == cs@.subrange(start as int, i as int),
        decreases end - i,
    {
        push_char(&mut word, cs[i]);
        i = i + 1;
        assert(word@ =~= cs@.subrange(start as int, i as int));
    }
    Ok(word)
}

} // verus!
