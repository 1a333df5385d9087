//! Character and string helpers shared by the other modules.

use vstd::prelude::*;
use vstd::string::StrSliceExecFns;
use vstd::utf8::{valid_utf8, decode_utf8};

verus! {

/// Appends one character to a string.
///
/// Trusted: wraps `String::push`, which appends exactly the given character.
#[verifier::external_body]
pub(crate) fn push_char(s: &mut String, c: char)
    ensures
        final(s)@ == old(s)@.push(c),
{
    s.push(c);
}

/// The characters of a string slice, as a vector.
pub fn chars_of(s: &str) -> (v: Vec<char>)
    ensures
        v@ == s@,
{
    let n = s.unicode_len();
    let mut v: Vec<char> = Vec::new();
    let mut i: usize = 0;
    while i < n
        invariant
            n == s@.len(),
            i <= n,
            v@ == s@.take(i as int),
        decreases n - i,
    {
        let c = s.get_char(i);
        v.push(c);
        i = i + 1;
        assert(v@ =~= s@.take(i as int));
    }
    assert(v@ =~= s@);
    v
}

/// Builds a string out of a sequence of characters.
pub fn string_from_chars(cs: &[char]) -> (s: String)
    ensures
        s@ == cs@,
{
    let mut s = String::new();
    let mut i: usize = 0;
    while i < cs.len()
        invariant
            i <= cs@.len(),
            s@ == cs@.take(i as int),
        decreases cs@.len() - i,
    {
        push_char(&mut s, cs[i]);
        i = i + 1;
        assert(s@ =~= cs@.take(i as int));
    }
    assert(s@ =~= cs@);
    s
}

/// Character-wise equality of two string slices.
pub fn str_eq(a: &str, b: &str) -> (r: bool)
    ensures
        r == (a@ == b@),
{
    let x = chars_of(a);
    let y = chars_of(b);
    if x.len() != y.len() {
        return false;
    }
    let mut i: usize = 0;
    while i < x.len()
        invariant
            x@ == a@,
            y@ == b@,
            x@.len() == y@.len(),
            i <= x@.len(),
            forall|k: int| 0 <= k < i ==> x@[k] == y@[k],
        decreases x@.len() - i,
    {
        if x[i] != y[i] {
            return false;
        }
        i = i + 1;
    }
    assert(x@ =~= y@);
    true
}

/// Whether `x` is one of the strings in `v`.
pub fn contains_str(v: &Vec<String>, x: &str) -> (b: bool)
    ensures
        b == v.deep_view().contains(x@),
{
    let mut i: usize = 0;
    while i < v.len()
        invariant
            i <= v@.len(),
            forall|k: int| 0 <= k < i ==> (#[trigger] v@[k])@ != x@,
        decreases v@.len() - i,
    {
        if str_eq(v[i].as_str(), x) {
            assert(v.deep_view()[i as int] == x@);
            return true;
        }
        i = i + 1;
    }
    assert forall|k: int| 0 <= k < v.deep_view().len() implies v.deep_view()[k] != x@ by {
        assert(v.deep_view()[k] == v@[k]@);
    }
    false
}

/// Appends the characters of `t` to `s`.
pub fn push_str_chars(s: &mut String, t: &str)
    ensures
        final(s)@ == old(s)@ + t@,
{
    let cs = chars_of(t);
    let ghost start = s@;
    let mut i: usize = 0;
    while i < cs.len()
        invariant
            cs@ == t@,
            i <= cs@.len(),
            s@ == start + cs@.take(i as int),
        decreases cs@.len() - i,
    {
        push_char(s, cs[i]);
        i = i + 1;
        assert(s@ =~= start + cs@.take(i as int));
    }
    assert(cs@.take(i as int) =~= t@);
}

/// Strict lexicographic order on character sequences (by code point).
pub open spec fn lex_lt(a: Seq<char>, b: Seq<char>) -> bool
    decreases a.len(),
{
    if b.len() == 0 {
        false
    } else if a.len() == 0 {
        true
    } else if (a[0] as u32) < (b[0] as u32) {
        true
    } else if (a[0] as u32) > (b[0] as u32) {
        false
    } else {
        lex_lt(a.drop_first(), b.drop_first())
    }
}

/// `a` comes strictly before `b` in lexicographic order.
pub fn chars_lt(a: &Vec<char>, b: &Vec<char>) -> (r: bool)
    ensures
        r == lex_lt(a@, b@),
{
    let mut i: usize = 0;
    assert(a@.skip(0) =~= a@);
    assert(b@.skip(0) =~= b@);
    while i < a.len() && i < b.len()
        invariant
            i <= a@.len(),
            i <= b@.len(),
            lex_lt(a@, b@) == lex_lt(a@.skip(i as int), b@.skip(i as int)),
        decreases a@.len() - i,
    {
        let x = a[i] as u32;
        let y = b[i] as u32;
        proof {
            let sa = a@.skip(i as int);
            let sb = b@.skip(i as int);
            assert(sa[0] == a@[i as int]);
            assert(sb[0] == b@[i as int]);
            assert(sa.drop_first() =~= a@.skip(i + 1));
            assert(sb.drop_first() =~= b@.skip(i + 1));
        }
        if x < y {
            return true;
        }
        if x > y {
            return false;
        }
        i = i + 1;
    }
    proof {
        let sa = a@.skip(i as int);
        let sb = b@.skip(i as int);
        if i == b@.len() {
            assert(sb.len() == 0);
        } else {
            assert(sa.len() == 0);
        }
    }
    i < b.len()
}

/// `prefix` is a prefix of `s`.
pub open spec fn has_prefix(s: Seq<char>, prefix: Seq<char>) -> bool {
    prefix.len() <= s.len() && s.take(prefix.len() as int) == prefix
}

/// `suffix` is a suffix of `s`.
pub open spec fn has_suffix(s: Seq<char>, suffix: Seq<char>) -> bool {
    suffix.len() <= s.len() && s.skip(s.len() - suffix.len()) == suffix
}

/// Whether `s` starts with `prefix`.
pub fn starts_with(s: &str, prefix: &str) -> (r: bool)
    ensures
        r == has_prefix(s@, prefix@),
{
    let x = chars_of(s);
    let p = chars_of(prefix);
    if p.len() > x.len() {
        return false;
    }
    let mut i: usize = 0;
    while i < p.len()
        invariant
            x@ == s@,
            p@ == prefix@,
            p@.len() <= x@.len(),
            i <= p@.len(),
            forall|k: int| 0 <= k < i ==> x@[k] == p@[k],
        decreases p@.len() - i,
    {
        if x[i] != p[i] {
            assert(s@.take(p@.len() as int)[i as int] != prefix@[i as int]);
            return false;
        }
        i = i + 1;
    }
    assert(s@.take(p@.len() as int) =~= prefix@);
    true
}

/// Whether `s` ends with `suffix`.
pub fn ends_with(s: &str, suffix: &str) -> (r: bool)
    ensures
        r == has_suffix(s@, suffix@),
{
    let x = chars_of(s);
    let p = chars_of(suffix);
    if p.len() > x.len() {
        return false;
    }
    let off = x.len() - p.len();
    let mut i: usize = 0;
    while i < p.len()
        invariant
            x@ == s@,
            p@ == suffix@,
            off == x@.len() - p@.len(),
            p@.len() <= x@.len(),
            off + p.len() == x.len(),
            i <= p@.len(),
            forall|k: int| 0 <= k < i ==> x@[off + k] == p@[k],
        decreases p@.len() - i,
    {
        if x[off + i] != p[i] {
            assert(s@.skip(off as int)[i as int] != suffix@[i as int]);
            return false;
        }
        i = i + 1;
    }
    assert(s@.skip(off as int) =~= suffix@);
    true
}

/// Decodes UTF-8 text.
///
/// Trusted: wraps `std::str::from_utf8`, which succeeds exactly on valid
/// UTF-8 and then yields the encoded characters.
#[verifier::external_body]
pub(crate) fn utf8_decode(bytes: &[u8]) -> (r: Option<String>)
    ensures
        r is Some <==> valid_utf8(bytes@),
        r matches Some(s) ==> s@ == decode_utf8(bytes@),
{
    match std::str::from_utf8(bytes) {
        Ok(s) => Some(s.to_string()),
        Err(_) => None,
    }
}

/// A whitespace character, as `char::is_whitespace` defines it (the Unicode
/// `White_Space` property).
pub open spec fn is_space(c: char) -> bool {
    let v = c as u32;
    (0x09 <= v && v <= 0x0d) || v == 0x20 || v == 0x85 || v == 0xa0 || v == 0x1680 || (0x2000 <= v && v <= 0x200a)
        || v == 0x2028 || v == 0x2029 || v == 0x202f || v == 0x205f || v == 0x3000
}

/// Whether a character is whitespace.
pub fn char_is_space(c: char) -> (b: bool)
    ensures
        b == is_space(c),
{
    let v = c as u32;
    (0x09 <= v && v <= 0x0d) || v == 0x20 || v == 0x85 || v == 0xa0 || v == 0x1680 || (0x2000 <= v && v <= 0x200a)
        || v == 0x2028 || v == 0x2029 || v == 0x202f || v == 0x205f || v == 0x3000
}

/// The decimal digit character of `d`.
pub open spec fn decimal_char(d: int) -> char {
    if d == 0 { '0' } else if d == 1 { '1' } else if d == 2 { '2' } else if d == 3 { '3' } else if d == 4 { '4' }
    else if d == 5 { '5' } else if d == 6 { '6' } else if d == 7 { '7' } else if d == 8 { '8' } else { '9' }
}

/// The decimal writing of a number, without leading zeros.
pub open spec fn decimal(n: nat) -> Seq<char>
    decreases n,
{
    if n < 10 {
        seq![decimal_char(n as int)]
    } else {
        decimal(n / 10).push(decimal_char((n % 10) as int))
    }
}

fn decimal_digit(d: u64) -> (c: char)
    requires
        d < 10,
    ensures
        c == decimal_char(d as int),
{
    if d == 0 { '0' } else if d == 1 { '1' } else if d == 2 { '2' } else if d == 3 { '3' } else if d == 4 { '4' }
    else if d == 5 { '5' } else if d == 6 { '6' } else if d == 7 { '7' } else if d == 8 { '8' } else { '9' }
}

/// Appends the decimal writing of `n` to `s`.
pub fn push_decimal(s: &mut String, n: u64)
    ensures
        final(s)@ == old(s)@ + decimal(n as nat),
    decreases n,
{
    if n < 10 {
        push_char(s, decimal_digit(n));
    } else {
        push_decimal(s, n / 10);
        push_char(s, decimal_digit(n % 10));
    }
    assert(final(s)@ =~= old(s)@ + decimal(n as nat));
}

/// `s` without the leading characters that `drop` holds of.
pub open spec fn strip_start(s: Seq<char>, drop: spec_fn(char) -> bool) -> Seq<char>
    decreases s.len(),
{
    if s.len() > 0 && drop(s[0]) {
        strip_start(s.drop_first(), drop)
    } else {
        s
    }
}

/// `s` without the trailing characters that `drop` holds of.
pub open spec fn strip_end(s: Seq<char>, drop: spec_fn(char) -> bool) -> Seq<char>
    decreases s.len(),
{
    if s.len() > 0 && drop(s.last()) {
        strip_end(s.drop_last(), drop)
    } else {
        s
    }
}

/// Whitespace, or the character `c`.
pub open spec fn dropped_by(whitespace: bool, c: char) -> spec_fn(char) -> bool {
    |x: char| if whitespace { is_space(x) } else { x == c }
}

/// `s` without leading and trailing whitespace (`str::trim`).
pub open spec fn trim_spaces(s: Seq<char>) -> Seq<char> {
    strip_end(strip_start(s, dropped_by(true, ' ')), dropped_by(true, ' '))
}

/// `s` without leading and trailing `c` (`str::trim_matches` with a character).
pub open spec fn trim_char(s: Seq<char>, c: char) -> Seq<char> {
    strip_end(strip_start(s, dropped_by(false, c)), dropped_by(false, c))
}

fn drops(whitespace: bool, c: char, x: char) -> (b: bool)
    ensures
        b == dropped_by(whitespace, c)(x),
{
    if whitespace {
        char_is_space(x)
    } else {
        x == c
    }
}

fn trim_with(s: &str, whitespace: bool, c: char) -> (r: String)
    ensures
        r@ == strip_end(strip_start(s@, dropped_by(whitespace, c)), dropped_by(whitespace, c)),
{
    let ghost d = dropped_by(whitespace, c);
    let cs = chars_of(s);
    let n = cs.len();
    let mut a: usize = 0;
    assert(cs@.skip(0) =~= s@);
    while a < n && drops(whitespace, c, cs[a])
        invariant
            cs@ == s@,
            n == cs@.len(),
            a <= n,
            d == dropped_by(whitespace, c),
            strip_start(cs@.skip(a as int), d) == strip_start(s@, d),
        decreases n - a,
    {
        assert(cs@.skip(a as int).drop_first() =~= cs@.skip(a as int + 1));
        a = a + 1;
    }
    let ghost t = cs@.skip(a as int);
    assert(strip_start(s@, d) == t);
    let mut b: usize = n;
    assert(t.take((n - a) as int) =~= t);
    while b > a && drops(whitespace, c, cs[b - 1])
        invariant
            cs@ == s@,
            n == cs@.len(),
            a <= b <= n,
            d == dropped_by(whitespace, c),
            t == cs@.skip(a as int),
            strip_end(t.take((b - a) as int), d) == strip_end(t, d),
        decreases b - a,
    {
        assert(t.take((b - a) as int).drop_last() =~= t.take((b - 1 - a) as int));
        assert(t.take((b - a) as int).last() == cs@[b - 1]);
        b = b - 1;
    }
    assert(t.take((b - a) as int) =~= cs@.subrange(a as int, b as int));
    let mut out = String::new();
    let mut j = a;
    while j < b
        invariant
            a <= j <= b <= n,
            n == cs@.len(),
            out@ == cs@.subrange(a as int, j as int),
        decreases b - j,
    {
        push_char(&mut out, cs[j]);
        j = j + 1;
        assert(out@ =~= cs@.subrange(a as int, j as int));
    }
    out
}

/// Removes leading and trailing whitespace.
pub fn trim(s: &str) -> (r: String)
    ensures
        r@ == trim_spaces(s@),
{
    trim_with(s, true, ' ')
}

/// Removes leading and trailing occurrences of `c`.
pub fn trim_matches_char(s: &str, c: char) -> (r: String)
    ensures
        r@ == trim_char(s@, c),
{
    trim_with(s, false, c)
}

/// The pieces of `s` between line feeds, the last one included even when empty.
pub open spec fn split_lf(s: Seq<char>) -> Seq<Seq<char>>
    decreases s.len(),
{
    if s.len() == 0 {
        seq![Seq::empty()]
    } else {
        let prev = split_lf(s.drop_last());
        if s.last() == '\n' {
            prev.push(Seq::empty())
        } else {
            prev.update(prev.len() - 1, prev.last().push(s.last()))
        }
    }
}

/// A line without the carriage return that may end it.
pub open spec fn without_cr(line: Seq<char>) -> Seq<char> {
    if line.len() > 0 && line.last() == '\r' {
        line.drop_last()
    } else {
        line
    }
}

/// The lines of a text as `BufRead::lines` yields them: split at line
/// feeds, no empty piece after a final line feed, a carriage return before
/// a line feed dropped.
pub open spec fn text_lines(s: Seq<char>) -> Seq<Seq<char>> {
    let parts = split_lf(s);
    let kept = if parts.last().len() == 0 { parts.drop_last() } else { parts };
    kept.map_values(|l: Seq<char>| without_cr(l))
}

proof fn lemma_split_lf_nonempty(s: Seq<char>)
    ensures
        split_lf(s).len() >= 1,
    decreases s.len(),
{
    if s.len() > 0 {
        lemma_split_lf_nonempty(s.drop_last());
    }
}

/// Splits a text into lines (see [`text_lines`]).
pub fn lines(s: &str) -> (v: Vec<String>)
    ensures
        v.deep_view() == text_lines(s@),
{
    let cs = chars_of(s);
    let mut parts: Vec<Vec<char>> = Vec::new();
    let mut cur: Vec<char> = Vec::new();
    let mut i: usize = 0;
    proof {
        assert(cs@.take(0) =~= Seq::<char>::empty());
    }
    while i < cs.len()
        invariant
            cs@ == s@,
            i <= cs@.len(),
            split_lf(cs@.take(i as int)) == parts.deep_view().push(cur@),
        decreases cs@.len() - i,
    {
        let ghost pre = cs@.take(i as int);
        let ghost next = cs@.take(i as int + 1);
        assert(next.drop_last() =~= pre);
        assert(next.last() == cs@[i as int]);
        proof { lemma_split_lf_nonempty(pre); }
        let c = cs[i];
        if c == '\n' {
            let ghost p0 = parts.deep_view();
            let done = cur;
            assert(done.deep_view() =~= done@);
            parts.push(done);
            cur = Vec::new();
            assert(parts.deep_view() =~= p0.push(done@));
            assert(split_lf(next) =~= parts.deep_view().push(cur@));
        } else {
            let ghost c0 = cur@;
            cur.push(c);
            assert(split_lf(next) =~= parts.deep_view().push(cur@));
        }
        i = i + 1;
    }
    assert(cs@.take(i as int) =~= s@);
    if cur.len() > 0 {
        let ghost p0 = parts.deep_view();
        let done = cur;
        assert(done.deep_view() =~= done@);
        parts.push(done);
        assert(parts.deep_view() =~= p0.push(done@));
    } else {
        assert(parts.deep_view() =~= split_lf(s@).drop_last());
    }
    let mut out: Vec<String> = Vec::new();
    let mut k: usize = 0;
    while k < parts.len()
        invariant
            k <= parts@.len(),
            out@.len() == k,
            forall|m: int| 0 <= m < k ==> (#[trigger] out@[m])@ == without_cr(parts@[m]@),
        decreases parts@.len() - k,
    {
        let p = &parts[k];
        let mut end = p.len();
        if end > 0 && p[end - 1] == '\r' {
            end = end - 1;
        }
        let mut piece = String::new();
        let mut j: usize = 0;
        while j < end
            invariant
                end <= p@.len(),
                j <= end,
                piece@ == p@.take(j as int),
            decreases end - j,
        {
            push_char(&mut piece, p[j]);
            j = j + 1;
            assert(piece@ =~= p@.take(j as int));
        }
        proof {
            assert(p@.take(end as int) =~= without_cr(p@));
        }
        out.push(piece);
        k = k + 1;
    }
    proof {
        let kept = if split_lf(s@).last().len() == 0 { split_lf(s@).drop_last() } else { split_lf(s@) };
        assert(kept =~= parts.deep_view());
        assert(out.deep_view() =~= text_lines(s@)) by {
            assert forall|m: int| 0 <= m < out.deep_view().len() implies out.deep_view()[m] == text_lines(s@)[m] by {
                assert(kept[m] == parts@[m]@);
            }
        }
    }
    out
}

/// The pieces of `s` between occurrences of `c` (`str::split` with a character).
pub open spec fn split_on(s: Seq<char>, c: char) -> Seq<Seq<char>>
    decreases s.len(),
{
    if s.len() == 0 {
        seq![Seq::empty()]
    } else {
        let prev = split_on(s.drop_last(), c);
        if s.last() == c {
            prev.push(Seq::empty())
        } else {
            prev.update(prev.len() - 1, prev.last().push(s.last()))
        }
    }
}

pub(crate) proof fn lemma_split_on_nonempty(s: Seq<char>, c: char)
    ensures
        split_on(s, c).len() >= 1,
    decreases s.len(),
{
    if s.len() > 0 {
        lemma_split_on_nonempty(s.drop_last(), c);
    }
}

/// Splits `s` at each `c`.
pub fn split_char(s: &str, c: char) -> (v: Vec<String>)
    ensures
        v.deep_view() == split_on(s@, c),
{
    let cs = chars_of(s);
    let mut parts: Vec<String> = Vec::new();
    let mut cur = String::new();
    let mut i: usize = 0;
    assert(cs@.take(0) =~= Seq::<char>::empty());
    while i < cs.len()
        invariant
            cs@ == s@,
            i <= cs@.len(),
            split_on(cs@.take(i as int), c) == parts.deep_view().push(cur@),
        decreases cs@.len() - i,
    {
        let ghost pre = cs@.take(i as int);
        let ghost next = cs@.take(i as int + 1);
        assert(next.drop_last() =~= pre);
        assert(next.last() == cs@[i as int]);
        proof { lemma_split_on_nonempty(pre, c); }
        if cs[i] == c {
            let ghost p0 = parts.deep_view();
            let done = cur;
            parts.push(done);
            cur = String::new();
            assert(parts.deep_view() =~= p0.push(done@));
            assert(split_on(next, c) =~= parts.deep_view().push(cur@));
        } else {
            push_char(&mut cur, cs[i]);
            assert(split_on(next, c) =~= parts.deep_view().push(cur@));
        }
        i = i + 1;
    }
    assert(cs@.take(i as int) =~= s@);
    let ghost p0 = parts.deep_view();
    let last = cur;
    parts.push(last);
    assert(parts.deep_view() =~= p0.push(last@));
    parts
}

/// The value of a string of decimal digits.
pub open spec fn digits_value(s: Seq<char>) -> int
    decreases s.len(),
{
    if s.len() == 0 {
        0
    } else {
        10 * digits_value(s.drop_last()) + (s.last() as int - '0' as int)
    }
}

/// A decimal digit.
pub open spec fn is_digit(c: char) -> bool {
    '0' <= c && c <= '9'
}

/// What `u32::from_str` reads: an optional `+`, then one or more decimal
/// digits whose value fits.
pub open spec fn parse_u32_spec(s: Seq<char>) -> Option<u32> {
    let body = unsigned_body(s);
    if body.len() > 0 && all_digits(body) && digits_value(body) <= u32::MAX {
        Some(digits_value(body) as u32)
    } else {
        None
    }
}

/// The digits of an unsigned number: without a leading `+`.
pub open spec fn unsigned_body(s: Seq<char>) -> Seq<char> {
    if s.len() > 0 && s[0] == '+' {
        s.drop_first()
    } else {
        s
    }
}

/// Every character is a decimal digit.
pub open spec fn all_digits(s: Seq<char>) -> bool {
    forall|i: int| 0 <= i < s.len() ==> is_digit(#[trigger] s[i])
}

proof fn lemma_digits_value_grows(s: Seq<char>, n: int)
    requires
        0 <= n <= s.len(),
        forall|i: int| 0 <= i < s.len() ==> is_digit(#[trigger] s[i]),
    ensures
        0 <= digits_value(s.take(n)) <= digits_value(s),
    decreases s.len() - n,
{
    if n < s.len() {
        lemma_digits_value_grows(s, n + 1);
        assert(s.take(n + 1).drop_last() =~= s.take(n));
        assert(is_digit(s[n]));
    } else {
        assert(s.take(n) =~= s);
    }
    lemma_digits_value_nonneg(s.take(n));
}

proof fn lemma_digits_value_nonneg(s: Seq<char>)
    requires
        forall|i: int| 0 <= i < s.len() ==> is_digit(#[trigger] s[i]),
    ensures
        digits_value(s) >= 0,
    decreases s.len(),
{
    if s.len() > 0 {
        assert(is_digit(s.last()));
        lemma_digits_value_nonneg(s.drop_last());
    }
}

/// The decimal writing of a number is a non-empty run of digits whose value
/// is the number.
pub(crate) proof fn lemma_decimal_digits(n: nat)
    ensures
        decimal(n).len() > 0,
        all_digits(decimal(n)),
        digits_value(decimal(n)) == n,
    decreases n,
{
    if n >= 10 {
        lemma_decimal_digits(n / 10);
        let d = decimal(n / 10);
        let m = (n % 10) as int;
        assert(decimal(n) == d.push(decimal_char(m)));
        assert(d.push(decimal_char(m)).drop_last() =~= d);
        assert(decimal_char(m) as int - '0' as int == m);
        assert(decimal(n).last() == decimal_char(m));
        assert(digits_value(decimal(n)) == 10 * digits_value(d) + (decimal_char(m) as int - '0' as int));
        assert(n == 10 * (n / 10) + n % 10) by (nonlinear_arith);
        assert forall|i: int| 0 <= i < decimal(n).len() implies is_digit(#[trigger] decimal(n)[i]) by {
            if i < d.len() {
                assert(decimal(n)[i] == d[i]);
            }
        }
    } else {
        assert(decimal_char(n as int) as int - '0' as int == n);
        let d = decimal(n);
        assert(d.drop_last() =~= Seq::<char>::empty());
        assert(digits_value(d) == 10 * digits_value(d.drop_last()) + (d.last() as int - '0' as int));
    }
}

/// A number written in decimal reads back as itself.
pub(crate) proof fn lemma_decimal_parses(n: u32)
    ensures
        parse_u32_spec(decimal(n as nat)) == Some(n),
{
    lemma_decimal_digits(n as nat);
    let d = decimal(n as nat);
    assert(is_digit(d[0]));
    assert(unsigned_body(d) == d);
}

/// Splitting text that ends in a piece without the separator: the last part
/// grows by that piece.
pub(crate) proof fn lemma_split_on_append(prefix: Seq<char>, b: Seq<char>, c: char)
    requires
        forall|i: int| 0 <= i < b.len() ==> b[i] != c,
    ensures
        split_on(prefix + b, c).len() == split_on(prefix, c).len(),
        split_on(prefix + b, c) == split_on(prefix, c).update(
            split_on(prefix, c).len() - 1,
            split_on(prefix, c).last() + b,
        ),
    decreases b.len(),
{
    lemma_split_on_nonempty(prefix, c);
    if b.len() == 0 {
        assert(prefix + b =~= prefix);
        assert(split_on(prefix, c).last() + b =~= split_on(prefix, c).last());
        assert(split_on(prefix, c).update(split_on(prefix, c).len() - 1, split_on(prefix, c).last()) =~= split_on(prefix, c));
    } else {
        let b0 = b.drop_last();
        lemma_split_on_append(prefix, b0, c);
        assert((prefix + b).drop_last() =~= prefix + b0);
        assert((prefix + b).last() == b.last());
        let q = split_on(prefix, c);
        let prev = split_on(prefix + b0, c);
        assert(prev.last() == q.last() + b0);
        assert((q.last() + b0).push(b.last()) =~= q.last() + b);
        assert(split_on(prefix + b, c) =~= q.update(q.len() - 1, q.last() + b));
    }
}

/// Splitting `a`, the separator, then `b`, where neither holds the
/// separator, gives `a` and `b`.
pub(crate) proof fn lemma_split_on_pair(a: Seq<char>, b: Seq<char>, c: char)
    requires
        forall|i: int| 0 <= i < a.len() ==> a[i] != c,
        forall|i: int| 0 <= i < b.len() ==> b[i] != c,
    ensures
        split_on(a + seq![c] + b, c) == seq![a, b],
{
    let e = Seq::<char>::empty();
    lemma_split_on_append(e, a, c);
    assert(e + a =~= a);
    assert(split_on(e, c) == seq![e]);
    assert(split_on(a, c) =~= seq![a]);
    let ac = a + seq![c];
    assert(ac.drop_last() =~= a);
    assert(ac.last() == c);
    assert(split_on(ac, c) =~= seq![a, e]);
    lemma_split_on_append(ac, b, c);
    assert(e + b =~= b);
    assert(split_on(ac + b, c) =~= seq![a, b]);
}

/// Reads a `u32` as `u32::from_str` does.
pub fn parse_u32(s: &str) -> (r: Option<u32>)
    ensures
        r == parse_u32_spec(s@),
{
    let cs = chars_of(s);
    let start: usize = if cs.len() > 0 && cs[0] == '+' { 1 } else { 0 };
    let ghost body = unsigned_body(s@);
    assert(body =~= cs@.skip(start as int));
    if start >= cs.len() {
        return None;
    }
    let mut i: usize = start;
    let mut acc: u64 = 0;
    while i < cs.len()
        invariant
            cs@ == s@,
            start <= i <= cs@.len(),
            body == cs@.skip(start as int),
            body == unsigned_body(s@),
            body.len() > 0,
            forall|k: int| 0 <= k < i - start ==> is_digit(#[trigger] body[k]),
            acc == digits_value(body.take(i - start)),
            acc <= u32::MAX,
        decreases cs@.len() - i,
    {
        let c = cs[i];
        if !('0' <= c && c <= '9') {
            assert(!is_digit(body[i - start]));
            assert(!all_digits(body));
            return None;
        }
        let d = (c as u32 - '0' as u32) as u64;
        assert(body.take(i - start + 1).drop_last() =~= body.take(i - start));
        assert(body.take(i - start + 1).last() == c);
        acc = acc * 10 + d;
        i = i + 1;
        assert(acc == digits_value(body.take(i - start)));
        if acc > 0xffff_ffff {
            proof {
                if all_digits(body) {
                    lemma_digits_value_grows(body, i - start);
                }
            }
            return None;
        }
    }
    assert(body.take(i - start) =~= body);
    Some(acc as u32)
}

} // verus!
