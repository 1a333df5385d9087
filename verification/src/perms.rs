//! File permission modes in their octal text form (`"644"`).

use vstd::prelude::*;
use crate::text::{chars_of, push_char};

verus! {

/// Error of the permission conversions.
#[derive(Debug, Clone, Copy, PartialEq, Eq, Structural)]
pub enum PermissionsError {
    /// The text is not an octal number that fits in 32 bits.
    InvalidOctal,
}

/// The character of an octal digit.
pub open spec fn octal_char(d: int) -> char {
    if d == 0 {
        '0'
    } else if d == 1 {
        '1'
    } else if d == 2 {
        '2'
    } else if d == 3 {
        '3'
    } else if d == 4 {
        '4'
    } else if d == 5 {
        '5'
    } else if d == 6 {
        '6'
    } else {
        '7'
    }
}

fn octal_digit(d: u32) -> (c: char)
    requires
        d < 8,
    ensures
        c == octal_char(d as int),
{
    if d == 0 {
        '0'
    } else if d == 1 {
        '1'
    } else if d == 2 {
        '2'
    } else if d == 3 {
        '3'
    } else if d == 4 {
        '4'
    } else if d == 5 {
        '5'
    } else if d == 6 {
        '6'
    } else {
        '7'
    }
}

/// The last three octal digits of a mode.
pub open spec fn mode_digits(p: u32) -> Seq<char> {
    seq![octal_char((p as int / 64) % 8), octal_char((p as int / 8) % 8), octal_char(p as int % 8)]
}

/// Writes a mode as octal text, keeping its last three digits (the
/// permission bits of a file mode). The mode must have at least three octal
/// digits.
pub fn perms_int_to_str(p: u32) -> (r: Result<String, PermissionsError>)
    requires
        p >= 64,
    ensures
        r matches Ok(s) && s@ == mode_digits(p),
{
    let mut s = String::new();
    push_char(&mut s, octal_digit((p / 64) % 8));
    push_char(&mut s, octal_digit((p / 8) % 8));
    push_char(&mut s, octal_digit(p % 8));
    proof {
        assert(s@ =~= mode_digits(p));
    }
    Ok(s)
}

/// An octal digit character.
pub open spec fn is_octal_char(c: char) -> bool {
    '0' <= c && c <= '7'
}

/// The value of a string of octal digits.
pub open spec fn octal_value(s: Seq<char>) -> int
    decreases s.len(),
{
    if s.len() == 0 {
        0
    } else {
        octal_value(s.drop_last()) * 8 + (s.last() as int - '0' as int)
    }
}

/// The digits after an optional leading `+`.
pub open spec fn octal_body(s: Seq<char>) -> Seq<char> {
    if s.len() > 0 && s[0] == '+' {
        s.drop_first()
    } else {
        s
    }
}

/// Reading octal text as with `u32::from_str_radix(_, 8)`: an optional `+`,
/// then one or more octal digits, whose value fits in 32 bits.
pub open spec fn parse_octal(s: Seq<char>) -> Option<u32> {
    let d = octal_body(s);
    if d.len() == 0 || exists|i: int| 0 <= i < d.len() && !is_octal_char(#[trigger] d[i]) {
        None
    } else if octal_value(d) > u32::MAX {
        None
    } else {
        Some(octal_value(d) as u32)
    }
}

proof fn lemma_octal_value_nonneg(s: Seq<char>)
    requires
        forall|i: int| 0 <= i < s.len() ==> is_octal_char(#[trigger] s[i]),
    ensures
        octal_value(s) >= 0,
        s.len() > 0 ==> octal_value(s) >= octal_value(s.drop_last()),
    decreases s.len(),
{
    if s.len() > 0 {
        assert(forall|i: int| 0 <= i < s.drop_last().len() ==> s.drop_last()[i] == s[i]);
        lemma_octal_value_nonneg(s.drop_last());
        assert(is_octal_char(s[s.len() - 1]));
    }
}

proof fn lemma_octal_value_prefix_grows(s: Seq<char>, k: int)
    requires
        0 <= k <= s.len(),
        forall|i: int| 0 <= i < s.len() ==> is_octal_char(#[trigger] s[i]),
    ensures
        octal_value(s.take(k)) <= octal_value(s),
    decreases s.len() - k,
{
    if k < s.len() {
        let t = s.take(k + 1);
        assert(t.drop_last() =~= s.take(k));
        assert forall|i: int| 0 <= i < t.len() implies is_octal_char(#[trigger] t[i]) by {
            assert(t[i] == s[i]);
        }
        lemma_octal_value_nonneg(t);
        lemma_octal_value_prefix_grows(s, k + 1);
    } else {
        assert(s.take(k) =~= s);
    }
}

/// Reads permission bits written in octal (`"644"`).
pub fn perms_str_to_int(p: &str) -> (r: Result<u32, PermissionsError>)
    ensures
        r matches Ok(v) ==> parse_octal(p@) == Some(v),
        r is Err ==> parse_octal(p@) is None,
{
    let cs = chars_of(p);
    let start: usize = if cs.len() > 0 && cs[0] == '+' {
        1
    } else {
        0
    };
    let ghost d = octal_body(p@);
    proof {
        assert(d =~= cs@.skip(start as int));
    }
    if start >= cs.len() {
        return Err(PermissionsError::InvalidOctal);
    }
    let mut value: u64 = 0;
    let mut i: usize = start;
    while i < cs.len()
        invariant
            cs@ == p@,
            d == cs@.skip(start as int),
            d == octal_body(p@),
            start <= i <= cs@.len(),
            forall|k: int| 0 <= k < i - start ==> is_octal_char(#[trigger] d[k]),
            value == octal_value(d.take(i - start)),
            value <= u32::MAX,
        decreases cs@.len() - i,
    {
        let c = cs[i];
        if !('0' <= c && c <= '7') {
            proof {
                assert(!is_octal_char(d[i - start]));
            }
            return Err(PermissionsError::InvalidOctal);
        }
        let digit = (c as u32 - '0' as u32) as u64;
        let next = value * 8 + digit;
        proof {
            let t = d.take(i - start + 1);
            assert(t.drop_last() =~= d.take(i - start));
            assert(t.last() == c);
            assert(octal_value(t) == next);
        }
        if next > u32::MAX as u64 {
            proof {
                assert forall|k: int| 0 <= k < d.len() && k <= i - start implies is_octal_char(#[trigger] d[k]) by {
                    if k == i - start {
                        assert(d[k] == c);
                    }
                }
                if forall|k: int| 0 <= k < d.len() ==> is_octal_char(#[trigger] d[k]) {
                    lemma_octal_value_prefix_grows(d, i - start + 1);
                }
            }
            return Err(PermissionsError::InvalidOctal);
        }
        value = next;
        i = i + 1;
    }
    proof {
        assert(d.take(d.len() as int) =~= d);
    }
    Ok(value as u32)
}

/// Writing a mode and reading it back gives its permission bits.
pub proof fn lemma_mode_round_trip(p: u32)
    ensures
        parse_octal(mode_digits(p)) == Some((p % 512) as u32),
{
    let s = mode_digits(p);
    let a = (p as int / 64) % 8;
    let b = (p as int / 8) % 8;
    let c = p as int % 8;
    assert(octal_char(a) as int - '0' as int == a);
    assert(octal_char(b) as int - '0' as int == b);
    assert(octal_char(c) as int - '0' as int == c);
    assert(octal_body(s) == s);
    assert(s.drop_last().drop_last().drop_last() =~= Seq::<char>::empty());
    assert(s.drop_last().drop_last() =~= seq![octal_char(a)]);
    assert(s.drop_last() =~= seq![octal_char(a), octal_char(b)]);
    assert(octal_value(s.drop_last().drop_last().drop_last()) == 0);
    assert(octal_value(s.drop_last().drop_last()) == a);
    assert(octal_value(s.drop_last()) == a * 8 + b);
    assert(octal_value(s) == (a * 8 + b) * 8 + c);
    assert((a * 8 + b) * 8 + c == p as int % 512) by (nonlinear_arith)
        requires
            a == (p as int / 64) % 8,
            b == (p as int / 8) % 8,
            c == p as int % 8,
            p >= 0,
    ;
    assert forall|i: int| 0 <= i < s.len() implies is_octal_char(#[trigger] s[i]) by {}
}

} // verus!
