//! Character-level text predicates and scans used by the checker.
//!
//! The source text is UTF-8 bytes and statements are read through byte
//! spans, so the scans work on bytes; but trimming and the
//! trailing-token heuristic are about characters, so the scans step one
//! character at a time, decoding as they go.  What only the Unicode
//! tables can decide — whether a character beyond ASCII is whitespace or
//! alphanumeric — is read through named results of std's character
//! classes; in ASCII both classes are stated exactly.

use vstd::prelude::*;

verus! {

/// A UTF-8 continuation byte.
pub open spec fn is_cont(b: u8) -> bool {
    128 <= b && b < 192
}

/// Whether the character with code `u` has the White_Space property
/// beyond ASCII: a name for what `char::is_whitespace` returns there.
pub uninterp spec fn unicode_space_code(u: u32) -> bool;

/// Whether the character with code `u` is alphabetic or numeric beyond
/// ASCII: a name for what `char::is_alphanumeric` returns there.
pub uninterp spec fn unicode_alnum_code(u: u32) -> bool;

/// Whitespace, by character code.  The ASCII whitespace characters are
/// space, tab, line feed, vertical tab, form feed and carriage return.
pub open spec fn space_code(u: u32) -> bool {
    if u < 128 {
        u == 32 || u == 9 || u == 10 || u == 11 || u == 12 || u == 13
    } else {
        unicode_space_code(u)
    }
}

/// Alphanumeric, by character code.  The ASCII alphanumeric characters
/// are the digits and the letters.
pub open spec fn alnum_code(u: u32) -> bool {
    if u < 128 {
        (48 <= u && u <= 57) || (65 <= u && u <= 90) || (97 <= u && u <= 122)
    } else {
        unicode_alnum_code(u)
    }
}

/// Characters that can open a continuation of the preceding statement
/// when a semicolon is omitted: `(` `[` `` ` `` `+` `-` `/` `*` `%`.
pub open spec fn is_hazard_start(u: u32) -> bool {
    u == 40 || u == 91 || u == 96 || u == 43 || u == 45 || u == 47 || u == 42 || u == 37
}

/// Trailing characters after which a statement could plausibly continue
/// as an expression: alphanumerics and `)` `]` `}` `_` `$`.
pub open spec fn is_continuable_end(u: u32) -> bool {
    alnum_code(u) || u == 41 || u == 93 || u == 125 || u == 95 || u == 36
}

/// The code of the character encoded by the byte run `s` (one whole
/// character's bytes).  A run no UTF-8 encoder produces decodes to the
/// out-of-range code 0x110000, which no class claims anything of.
pub open spec fn char_code_of(s: Seq<u8>) -> u32 {
    if s.len() == 1 {
        s[0] as u32
    } else if s.len() == 2 {
        (((s[0] as u32) & 0x1F) << 6) | ((s[1] as u32) & 0x3F)
    } else if s.len() == 3 {
        (((s[0] as u32) & 0x0F) << 12) | (((s[1] as u32) & 0x3F) << 6) | ((s[2] as u32) & 0x3F)
    } else if s.len() == 4 {
        (((s[0] as u32) & 0x07) << 18) | (((s[1] as u32) & 0x3F) << 12) | (((s[2] as u32)
            & 0x3F) << 6) | ((s[3] as u32) & 0x3F)
    } else {
        0x110000
    }
}

/// Where the last character's bytes start: at the last byte that is not
/// a continuation byte (at 0 when every byte is one).
pub open spec fn last_char_start(s: Seq<u8>) -> int
    decreases s.len(),
{
    if s.len() == 0 {
        0
    } else if !is_cont(s.last()) {
        s.len() - 1
    } else {
        last_char_start(s.drop_last())
    }
}

pub proof fn lemma_last_char_start_bounds(s: Seq<u8>)
    ensures
        0 <= last_char_start(s) <= s.len(),
        s.len() > 0 ==> last_char_start(s) < s.len(),
    decreases s.len(),
{
    if s.len() > 0 && is_cont(s.last()) {
        lemma_last_char_start_bounds(s.drop_last());
    }
}

/// How many bytes of `s` continue the character opened just before it.
pub open spec fn cont_run(s: Seq<u8>) -> int
    decreases s.len(),
{
    if s.len() > 0 && is_cont(s.first()) {
        1 + cont_run(s.drop_first())
    } else {
        0
    }
}

pub proof fn lemma_cont_run_bounds(s: Seq<u8>)
    ensures
        0 <= cont_run(s) <= s.len(),
    decreases s.len(),
{
    if s.len() > 0 && is_cont(s.first()) {
        lemma_cont_run_bounds(s.drop_first());
    }
}

/// The number of bytes of the first character of `s`.
pub open spec fn first_char_len(s: Seq<u8>) -> int {
    1 + cont_run(s.drop_first())
}

/// The code of the last character of `s`.
pub open spec fn last_char_code(s: Seq<u8>) -> u32 {
    char_code_of(s.skip(last_char_start(s)))
}

/// The code of the first character of `s`.
pub open spec fn first_char_code(s: Seq<u8>) -> u32 {
    char_code_of(s.take(first_char_len(s)))
}

/// `s` with its trailing whitespace characters removed.
pub open spec fn trim_end(s: Seq<u8>) -> Seq<u8>
    decreases s.len(),
        via trim_end_decreases
{
    if s.len() == 0 {
        s
    } else if space_code(last_char_code(s)) {
        trim_end(s.take(last_char_start(s)))
    } else {
        s
    }
}

#[via_fn]
proof fn trim_end_decreases(s: Seq<u8>) {
    if s.len() > 0 {
        lemma_last_char_start_bounds(s);
    }
}

/// `s` with its leading whitespace characters removed.
pub open spec fn trim_start(s: Seq<u8>) -> Seq<u8>
    decreases s.len(),
        via trim_start_decreases
{
    if s.len() == 0 {
        s
    } else if space_code(first_char_code(s)) {
        trim_start(s.skip(first_char_len(s)))
    } else {
        s
    }
}

#[via_fn]
proof fn trim_start_decreases(s: Seq<u8>) {
    if s.len() > 0 {
        lemma_cont_run_bounds(s.drop_first());
    }
}

/// Whether the statement text, ignoring trailing whitespace, ends with a
/// semicolon.  The semicolon is a one-byte character, so the byte test
/// is the character test.
pub open spec fn has_terminal_semicolon(s: Seq<u8>) -> bool {
    trim_end(s).len() > 0 && trim_end(s).last() == 59
}

/// The index of the last semicolon byte in `s`, if any.
pub open spec fn last_semicolon(s: Seq<u8>) -> Option<int>
    decreases s.len(),
{
    if s.len() == 0 {
        None
    } else if s.last() == 59 {
        Some(s.len() - 1)
    } else {
        last_semicolon(s.drop_last())
    }
}

pub fn cont_byte(b: u8) -> (r: bool)
    ensures
        r == is_cont(b),
{
    128 <= b && b < 192
}

pub fn hazard_start_code(u: u32) -> (r: bool)
    ensures
        r == is_hazard_start(u),
{
    u == 40 || u == 91 || u == 96 || u == 43 || u == 45 || u == 47 || u == 42 || u == 37
}

/// Relies on `char::from_u32` and `char::is_whitespace`: which
/// characters have the White_Space property depends on the code alone;
/// in ASCII they are exactly space, tab, line feed, vertical tab, form
/// feed and carriage return.
#[verifier::external_body]
pub fn code_is_space(u: u32) -> (r: bool)
    ensures
        r == space_code(u),
        u >= 128 ==> r == unicode_space_code(u),
{
    char::from_u32(u).map_or(false, char::is_whitespace)
}

/// Relies on `char::from_u32` and `char::is_alphanumeric`: which
/// characters are alphabetic or numeric depends on the code alone; in
/// ASCII they are exactly the digits and the letters.
#[verifier::external_body]
pub fn code_is_alnum(u: u32) -> (r: bool)
    ensures
        r == alnum_code(u),
        u >= 128 ==> r == unicode_alnum_code(u),
{
    char::from_u32(u).map_or(false, char::is_alphanumeric)
}

pub fn continuable_end_code(u: u32) -> (r: bool)
    ensures
        r == is_continuable_end(u),
{
    code_is_alnum(u) || u == 41 || u == 93 || u == 125 || u == 95 || u == 36
}

/// The start of the last character of `source[lo..hi]`, scanning back
/// over continuation bytes.
pub fn char_start_back(source: &Vec<u8>, lo: usize, hi: usize) -> (k: usize)
    requires
        lo < hi <= source@.len(),
    ensures
        lo <= k < hi,
        k - lo == last_char_start(source@.subrange(lo as int, hi as int)),
{
    let mut k = hi - 1;
    while k > lo && cont_byte(source[k])
        invariant
            lo <= k < hi <= source@.len(),
            last_char_start(source@.subrange(lo as int, hi as int)) == last_char_start(
                source@.subrange(lo as int, k + 1),
            ),
        decreases k,
    {
        proof {
            let s = source@.subrange(lo as int, k as int + 1);
            assert(s.last() == source@[k as int]);
            assert(s.drop_last() =~= source@.subrange(lo as int, k as int));
        }
        k = k - 1;
    }
    proof {
        let s = source@.subrange(lo as int, k as int + 1);
        assert(s.last() == source@[k as int]);
        if is_cont(source@[k as int]) {
            assert(s.drop_last() =~= source@.subrange(lo as int, lo as int));
            assert(last_char_start(s) == last_char_start(s.drop_last()));
            assert(last_char_start(s) == 0);
        } else {
            assert(last_char_start(s) == s.len() - 1);
        }
        assert(k - lo == last_char_start(s));
    }
    k
}

/// The end of the first character of `source[lo..hi]`, scanning forward
/// over continuation bytes.
pub fn char_end_forward(source: &Vec<u8>, lo: usize, hi: usize) -> (j: usize)
    requires
        lo < hi <= source@.len(),
    ensures
        lo < j <= hi,
        j - lo == first_char_len(source@.subrange(lo as int, hi as int)),
{
    let mut j = lo + 1;
    while j < hi && cont_byte(source[j])
        invariant
            lo < j <= hi <= source@.len(),
            cont_run(source@.subrange(lo as int + 1, hi as int)) == (j - lo - 1) + cont_run(
                source@.subrange(j as int, hi as int),
            ),
        decreases hi - j,
    {
        proof {
            let s = source@.subrange(j as int, hi as int);
            assert(s.first() == source@[j as int]);
            assert(s.drop_first() =~= source@.subrange(j as int + 1, hi as int));
        }
        j = j + 1;
    }
    proof {
        let s = source@.subrange(j as int, hi as int);
        if s.len() > 0 {
            assert(s.first() == source@[j as int]);
        }
        assert(cont_run(s) == 0);
        let whole = source@.subrange(lo as int, hi as int);
        assert(whole.drop_first() =~= source@.subrange(lo as int + 1, hi as int));
    }
    j
}

/// Decode the character whose bytes are `source[k..h]`.
pub fn decode_code(source: &Vec<u8>, k: usize, h: usize) -> (u: u32)
    requires
        k < h <= source@.len(),
    ensures
        u == char_code_of(source@.subrange(k as int, h as int)),
{
    let n = h - k;
    proof {
        let s = source@.subrange(k as int, h as int);
        assert(s.len() == n);
        assert(s[0] == source@[k as int]);
        if n >= 2 {
            assert(s[1] == source@[k as int + 1]);
        }
        if n >= 3 {
            assert(s[2] == source@[k as int + 2]);
        }
        if n >= 4 {
            assert(s[3] == source@[k as int + 3]);
        }
    }
    if n == 1 {
        source[k] as u32
    } else if n == 2 {
        (((source[k] as u32) & 0x1F) << 6) | ((source[k + 1] as u32) & 0x3F)
    } else if n == 3 {
        (((source[k] as u32) & 0x0F) << 12) | (((source[k + 1] as u32) & 0x3F) << 6) | ((source[k
            + 2] as u32) & 0x3F)
    } else if n == 4 {
        (((source[k] as u32) & 0x07) << 18) | (((source[k + 1] as u32) & 0x3F) << 12) | (((source[k
            + 2] as u32) & 0x3F) << 6) | ((source[k + 3] as u32) & 0x3F)
    } else {
        0x110000
    }
}

/// Shrink `hi` past trailing whitespace characters: the returned index
/// bounds the trimmed text `trim_end(source[lo..hi])`.
pub fn trim_end_index(source: &Vec<u8>, lo: usize, hi: usize) -> (r: usize)
    requires
        lo <= hi <= source@.len(),
    ensures
        lo <= r <= hi,
        source@.subrange(lo as int, r as int) == trim_end(source@.subrange(lo as int, hi as int)),
{
    let mut h = hi;
    let mut done = false;
    while !done && h > lo
        invariant
            lo <= h <= hi <= source@.len(),
            trim_end(source@.subrange(lo as int, h as int)) == trim_end(
                source@.subrange(lo as int, hi as int),
            ),
            done ==> trim_end(source@.subrange(lo as int, h as int)) == source@.subrange(
                lo as int,
                h as int,
            ),
        decreases 2 * (h - lo) + (if done {
            0int
        } else {
            1int
        }),
    {
        let k = char_start_back(source, lo, h);
        let u = decode_code(source, k, h);
        proof {
            let s = source@.subrange(lo as int, h as int);
            assert(s.skip(k - lo) =~= source@.subrange(k as int, h as int));
            assert(last_char_code(s) == u);
        }
        if code_is_space(u) {
            proof {
                let s = source@.subrange(lo as int, h as int);
                assert(s.take(k - lo) =~= source@.subrange(lo as int, k as int));
                assert(trim_end(s) == trim_end(source@.subrange(lo as int, k as int)));
            }
            h = k;
        } else {
            proof {
                let s = source@.subrange(lo as int, h as int);
                assert(trim_end(s) == s);
            }
            done = true;
        }
    }
    h
}

/// Advance `lo` past leading whitespace characters: the returned index
/// starts the trimmed text `trim_start(source[lo..hi])`.
pub fn trim_start_index(source: &Vec<u8>, lo: usize, hi: usize) -> (r: usize)
    requires
        lo <= hi <= source@.len(),
    ensures
        lo <= r <= hi,
        source@.subrange(r as int, hi as int) == trim_start(
            source@.subrange(lo as int, hi as int),
        ),
{
    let mut l = lo;
    let mut done = false;
    while !done && l < hi
        invariant
            lo <= l <= hi <= source@.len(),
            trim_start(source@.subrange(l as int, hi as int)) == trim_start(
                source@.subrange(lo as int, hi as int),
            ),
            done ==> trim_start(source@.subrange(l as int, hi as int)) == source@.subrange(
                l as int,
                hi as int,
            ),
        decreases 2 * (hi - l) + (if done {
            0int
        } else {
            1int
        }),
    {
        let j = char_end_forward(source, l, hi);
        let u = decode_code(source, l, j);
        proof {
            let s = source@.subrange(l as int, hi as int);
            assert(s.take(j - l) =~= source@.subrange(l as int, j as int));
            assert(first_char_code(s) == u);
        }
        if code_is_space(u) {
            proof {
                let s = source@.subrange(l as int, hi as int);
                assert(s.skip(j - l) =~= source@.subrange(j as int, hi as int));
                assert(trim_start(s) == trim_start(source@.subrange(j as int, hi as int)));
            }
            l = j;
        } else {
            proof {
                let s = source@.subrange(l as int, hi as int);
                assert(trim_start(s) == s);
            }
            done = true;
        }
    }
    l
}

/// Whether `source[lo..hi]`, ignoring trailing whitespace, ends with a
/// semicolon.
pub fn ends_with_semicolon(source: &Vec<u8>, lo: usize, hi: usize) -> (r: bool)
    requires
        lo <= hi <= source@.len(),
    ensures
        r == has_terminal_semicolon(source@.subrange(lo as int, hi as int)),
{
    let t = trim_end_index(source, lo, hi);
    proof {
        let trimmed = trim_end(source@.subrange(lo as int, hi as int));
        assert(trimmed.len() == t - lo);
        if t > lo {
            assert(trimmed.last() == source@.subrange(lo as int, t as int).last());
            assert(trimmed.last() == source@[t - 1]);
        }
    }
    t > lo && source[t - 1] == 59
}

/// The absolute index of the last semicolon byte in `source[lo..hi]`,
/// scanning from the right.
pub fn last_semicolon_index(source: &Vec<u8>, lo: usize, hi: usize) -> (r: Option<usize>)
    requires
        lo <= hi <= source@.len(),
    ensures
        match r {
            Some(i) => lo <= i < hi && last_semicolon(source@.subrange(lo as int, hi as int))
                == Some(i - lo),
            None => last_semicolon(source@.subrange(lo as int, hi as int)) is None,
        },
{
    let mut h = hi;
    while h > lo
        invariant
            lo <= h <= hi <= source@.len(),
            last_semicolon(source@.subrange(lo as int, h as int)) == last_semicolon(
                source@.subrange(lo as int, hi as int),
            ),
        decreases h,
    {
        proof {
            let s = source@.subrange(lo as int, h as int);
            assert(s.last() == source@[h - 1]);
            assert(s.drop_last() =~= source@.subrange(lo as int, h - 1));
        }
        if source[h - 1] == 59 {
            return Some(h - 1);
        }
        h = h - 1;
    }
    None
}

} // verus!
