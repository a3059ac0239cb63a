//! Small verified building blocks for the string work the rest of the
//! crate does: comparisons, token scanning, and decimal numerals.

use vstd::prelude::*;
use vstd::string::StrSliceExecFns;
use vstd::string::StringExecFns;

verus! {

/// Compare two string slices character by character.
pub fn str_eq(a: &str, b: &str) -> (r: bool)
    ensures
        r == (a@ == b@),
{
    let alen = a.unicode_len();
    let blen = b.unicode_len();
    if alen != blen {
        return false;
    }
    let mut i: usize = 0;
    while i < alen
        invariant
            alen == a@.len(),
            blen == b@.len(),
            alen == blen,
            i <= alen,
            forall|j: int| 0 <= j < i ==> a@[j] == b@[j],
        decreases alen - i,
    {
        if a.get_char(i) != b.get_char(i) {
            return false;
        }
        i = i + 1;
    }
    proof {
        assert(a@ =~= b@);
    }
    true
}

/// Whether `prefix` is an initial segment of `s`.
pub fn str_starts_with(s: &str, prefix: &str) -> (r: bool)
    ensures
        r == prefix@.is_prefix_of(s@),
{
    let plen = prefix.unicode_len();
    let slen = s.unicode_len();
    if plen > slen {
        return false;
    }
    let mut i: usize = 0;
    while i < plen
        invariant
            plen == prefix@.len(),
            slen == s@.len(),
            plen <= slen,
            i <= plen,
            forall|j: int| 0 <= j < i ==> prefix@[j] == s@[j],
        decreases plen - i,
    {
        if prefix.get_char(i) != s.get_char(i) {
            assert(!prefix@.is_prefix_of(s@)) by {
                if prefix@.is_prefix_of(s@) {
                    assert(prefix@[i as int] == s@.subrange(0, plen as int)[i as int]);
                }
            }
            return false;
        }
        i = i + 1;
    }
    proof {
        assert(prefix@ =~= s@.subrange(0, plen as int));
    }
    true
}

/// The characters this crate treats as whitespace when it splits the
/// site's time strings into tokens.
pub open spec fn is_ws(c: char) -> bool {
    c == ' ' || c == '\t' || c == '\n' || c == '\r'
}

/// Runtime counterpart of [`is_ws`].
pub fn ws_char(c: char) -> (r: bool)
    ensures
        r == is_ws(c),
{
    c == ' ' || c == '\t' || c == '\n' || c == '\r'
}

/// First position at or after `i` that holds a non-whitespace
/// character, or the end of `s`.
pub open spec fn skip_ws_from(s: Seq<char>, i: int) -> int
    decreases s.len() - i when 0 <= i <= s.len()
{
    if i < s.len() && is_ws(s[i]) {
        skip_ws_from(s, i + 1)
    } else {
        i
    }
}

/// First position at or after `i` that holds whitespace, or the end of
/// `s`; on a non-whitespace position this is where the token ends.
pub open spec fn token_end_from(s: Seq<char>, i: int) -> int
    decreases s.len() - i when 0 <= i <= s.len()
{
    if i < s.len() && !is_ws(s[i]) {
        token_end_from(s, i + 1)
    } else {
        i
    }
}

pub proof fn lemma_token_end_from_bounds(s: Seq<char>, i: int)
    requires
        0 <= i <= s.len(),
    ensures
        i <= token_end_from(s, i) <= s.len(),
    decreases s.len() - i,
{
    if i < s.len() && !is_ws(s[i]) {
        lemma_token_end_from_bounds(s, i + 1);
    }
}

/// First position at or after `i` that holds the character `c`, or the
/// end of `s`.
pub open spec fn find_from(s: Seq<char>, i: int, c: char) -> int
    decreases s.len() - i when 0 <= i <= s.len()
{
    if i < s.len() && s[i] != c {
        find_from(s, i + 1, c)
    } else {
        i
    }
}

pub proof fn lemma_find_from_bounds(s: Seq<char>, i: int, c: char)
    requires
        0 <= i <= s.len(),
    ensures
        i <= find_from(s, i, c) <= s.len(),
        find_from(s, i, c) < s.len() ==> s[find_from(s, i, c)] == c,
    decreases s.len() - i,
{
    if i < s.len() && s[i] != c {
        lemma_find_from_bounds(s, i + 1, c);
    }
}

/// Runtime counterpart of [`skip_ws_from`].
pub fn scan_past_ws(s: &str, from: usize) -> (r: usize)
    requires
        from <= s@.len(),
    ensures
        r == skip_ws_from(s@, from as int),
        from <= r <= s@.len(),
{
    let len = s.unicode_len();
    let mut i: usize = from;
    while i < len && ws_char(s.get_char(i))
        invariant
            from <= i <= len,
            len == s@.len(),
            skip_ws_from(s@, from as int) == skip_ws_from(s@, i as int),
        decreases len - i,
    {
        i = i + 1;
    }
    i
}

/// Runtime counterpart of [`token_end_from`].
pub fn scan_token_end(s: &str, from: usize) -> (r: usize)
    requires
        from <= s@.len(),
    ensures
        r == token_end_from(s@, from as int),
        from <= r <= s@.len(),
{
    let len = s.unicode_len();
    let mut i: usize = from;
    while i < len && !ws_char(s.get_char(i))
        invariant
            from <= i <= len,
            len == s@.len(),
            token_end_from(s@, from as int) == token_end_from(s@, i as int),
        decreases len - i,
    {
        i = i + 1;
    }
    i
}

/// Runtime counterpart of [`find_from`].
pub fn scan_find(s: &str, from: usize, c: char) -> (r: usize)
    requires
        from <= s@.len(),
    ensures
        r == find_from(s@, from as int, c),
        from <= r <= s@.len(),
{
    let len = s.unicode_len();
    let mut i: usize = from;
    while i < len && s.get_char(i) != c
        invariant
            from <= i <= len,
            len == s@.len(),
            find_from(s@, from as int, c) == find_from(s@, i as int, c),
        decreases len - i,
    {
        i = i + 1;
    }
    i
}

/// A decimal digit.
pub open spec fn is_digit(c: char) -> bool {
    '0' <= c && c <= '9'
}

pub open spec fn digit_val(c: char) -> int {
    c as int - '0' as int
}

pub open spec fn all_digits(s: Seq<char>) -> bool {
    forall|i: int| 0 <= i < s.len() ==> is_digit(s[i])
}

/// Numeric value of a digit sequence, most significant digit first.
pub open spec fn dec_val(s: Seq<char>) -> int
    decreases s.len(),
{
    if s.len() == 0 {
        0
    } else {
        dec_val(s.drop_last()) * 10 + digit_val(s.last())
    }
}

pub proof fn lemma_dec_val_nonneg(s: Seq<char>)
    requires
        all_digits(s),
    ensures
        dec_val(s) >= 0,
    decreases s.len(),
{
    if s.len() > 0 {
        assert(all_digits(s.drop_last()));
        lemma_dec_val_nonneg(s.drop_last());
    }
}

/// Extending a digit numeral to the right never shrinks its value.
pub proof fn lemma_dec_val_prefix(s: Seq<char>, j: int)
    requires
        all_digits(s),
        0 <= j <= s.len(),
    ensures
        dec_val(s.take(j)) <= dec_val(s),
    decreases s.len() - j,
{
    if j == s.len() {
        assert(s.take(j) =~= s);
    } else {
        assert(s.take(j + 1).drop_last() =~= s.take(j));
        assert(all_digits(s.take(j)));
        lemma_dec_val_nonneg(s.take(j));
        assert(dec_val(s.take(j + 1)) == dec_val(s.take(j)) * 10 + digit_val(s[j]));
        lemma_dec_val_prefix(s, j + 1);
    }
}

/// What parsing a numeral bounded by a byte means: a non-empty,
/// all-digit string whose value does not exceed 255.
pub open spec fn parse_u8_spec(s: Seq<char>) -> Option<u8> {
    if s.len() > 0 && all_digits(s) && dec_val(s) <= 255 {
        Some(dec_val(s) as u8)
    } else {
        None
    }
}

/// Parse `s[from..to]` as a decimal numeral that fits in a byte.
pub fn parse_u8_range(s: &str, from: usize, to: usize) -> (r: Option<u8>)
    requires
        from <= to <= s@.len(),
    ensures
        r == parse_u8_spec(s@.subrange(from as int, to as int)),
{
    let ghost whole = s@.subrange(from as int, to as int);
    if from == to {
        return None;
    }
    let mut i: usize = from;
    let mut acc: u16 = 0;
    while i < to
        invariant
            from <= i <= to <= s@.len(),
            whole == s@.subrange(from as int, to as int),
            all_digits(s@.subrange(from as int, i as int)),
            acc == dec_val(s@.subrange(from as int, i as int)),
            acc <= 255,
        decreases to - i,
    {
        let c = s.get_char(i);
        if !(c >= '0' && c <= '9') {
            proof {
                assert(whole[i - from] == s@[i as int]);
                assert(!all_digits(whole));
            }
            return None;
        }
        let d: u16 = (c as u32 % 256) as u16 - ('0' as u32) as u16;
        proof {
            assert(c as u32 % 256 == c as u32) by {
                assert('0' <= c && c <= '9');
            }
        }
        let next: u32 = acc as u32 * 10 + d as u32;
        proof {
            assert(s@.subrange(from as int, i as int + 1).drop_last() =~= s@.subrange(
                from as int,
                i as int,
            ));
            assert(dec_val(s@.subrange(from as int, i as int + 1)) == next);
        }
        if next > 255 {
            proof {
                if whole.len() > 0 && all_digits(whole) && dec_val(whole) <= 255 {
                    assert(whole.take(i - from + 1) =~= s@.subrange(from as int, i as int + 1));
                    lemma_dec_val_prefix(whole, i - from + 1);
                }
            }
            return None;
        }
        acc = next as u16;
        i = i + 1;
    }
    proof {
        assert(s@.subrange(from as int, i as int) =~= whole);
    }
    Some(acc as u8)
}

/// The character for the digit `d`.
pub open spec fn digit_char(d: int) -> char {
    if d == 0 {
        '0'
    } else if d == 1 {
        '1'
    } else if d == 2 {
        '2'
    } else if d == 3 {
        '3'
    } else if d == 4 {
        '4'
    } else if d == 5 {
        '5'
    } else if d == 6 {
        '6'
    } else if d == 7 {
        '7'
    } else if d == 8 {
        '8'
    } else {
        '9'
    }
}

/// Decimal digits of `n`, most significant first.
pub open spec fn dec_digits(n: int) -> Seq<char>
    decreases n,
{
    if n < 10 {
        seq![digit_char(n)]
    } else {
        dec_digits(n / 10).push(digit_char(n % 10))
    }
}

/// Decimal digits of `n`, zero-padded on the left to at least two
/// digits, as the site's canonical `HH`/`MM`/`DD` fields are written.
pub open spec fn dec2_digits(n: int) -> Seq<char> {
    if 0 <= n < 10 {
        seq!['0'] + dec_digits(n)
    } else {
        dec_digits(n)
    }
}

/// Decimal numeral of `n` with a leading minus sign when negative.
pub open spec fn dec_signed(n: int) -> Seq<char> {
    if n < 0 {
        seq!['-'] + dec_digits(-n)
    } else {
        dec_digits(n)
    }
}

/// A one-character string for the digit `d`.
pub fn digit_str(d: u32) -> (r: &'static str)
    requires
        d < 10,
    ensures
        r@ == seq![digit_char(d as int)],
{
    proof {
        reveal_strlit("0");
        reveal_strlit("1");
        reveal_strlit("2");
        reveal_strlit("3");
        reveal_strlit("4");
        reveal_strlit("5");
        reveal_strlit("6");
        reveal_strlit("7");
        reveal_strlit("8");
        reveal_strlit("9");
    }
    let r = match d {
        0 => "0",
        1 => "1",
        2 => "2",
        3 => "3",
        4 => "4",
        5 => "5",
        6 => "6",
        7 => "7",
        8 => "8",
        _ => "9",
    };
    proof {
        assert(r@ =~= seq![digit_char(d as int)]);
    }
    r
}

/// Append the decimal digits of `n` to `out`.
pub fn push_dec_u32(n: u32, out: &mut String)
    ensures
        final(out)@ == old(out)@ + dec_digits(n as int),
    decreases n,
{
    if n >= 10 {
        push_dec_u32(n / 10, out);
        out.append(digit_str(n % 10));
        proof {
            assert(out@ =~= old(out)@ + dec_digits(n as int));
        }
    } else {
        out.append(digit_str(n));
        proof {
            assert(out@ =~= old(out)@ + dec_digits(n as int));
        }
    }
}

/// Append `n` zero-padded to at least two digits.
pub fn push_dec2_u32(n: u32, out: &mut String)
    ensures
        final(out)@ == old(out)@ + dec2_digits(n as int),
{
    if n < 10 {
        out.append("0");
        proof {
            reveal_strlit("0");
        }
    }
    push_dec_u32(n, out);
    proof {
        assert(out@ =~= old(out)@ + dec2_digits(n as int));
    }
}

/// Append the signed decimal numeral of `n`.
pub fn push_dec_i32(n: i32, out: &mut String)
    ensures
        final(out)@ == old(out)@ + dec_signed(n as int),
{
    if n < 0 {
        out.append("-");
        proof {
            reveal_strlit("-");
        }
        let m: u32 = (-(n as i64)) as u32;
        push_dec_u32(m, out);
        proof {
            assert(out@ =~= old(out)@ + dec_signed(n as int));
        }
    } else {
        push_dec_u32(n as u32, out);
    }
}

} // verus!
