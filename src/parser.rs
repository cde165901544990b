//! The executable recognizer: each function computes one position of the
//! grammar and is proved to agree with its statement.

use vstd::prelude::*;

use crate::component::FooterSeparator;
use crate::grammar::{
    breaking_token, first_footer, footer_at, footer_line, next_footer, opens_footers, is_scope_byte, is_space, is_token_byte, is_type_byte, space_at, token_at, type_at, line_end, scope_end,
    separator_at, token_end, trim_end, type_end,
};
use crate::text::{BANG, CLOSE, COLON, HASH, NEWLINE, OPEN, RETURN, SPACE, TAB, LINE_TAB, FORM_FEED};

verus! {

pub fn space(c: u8) -> (r: bool)
    ensures
        r == is_space(c),
{
    c == SPACE || c == TAB || c == NEWLINE || c == LINE_TAB || c == FORM_FEED || c == RETURN
}

/// Whether a whitespace character starts at `i`.
pub fn find_space(b: &[u8], i: usize) -> (r: bool)
    requires
        i < b@.len(),
    ensures
        r == space_at(b@, i as int),
{
    let c = b[i];
    let n = b.len();
    if space(c) {
        true
    } else if c == 0xc2 && i + 1 < n {
        b[i + 1] == 0x85 || b[i + 1] == 0xa0
    } else if c == 0xe1 && n - i > 2 {
        b[i + 1] == 0x9a && b[i + 2] == 0x80
    } else if c == 0xe2 && n - i > 2 {
        (b[i + 1] == 0x80 && ((0x80 <= b[i + 2] && b[i + 2] <= 0x8a) || b[i + 2] == 0xa8 || b[i
            + 2] == 0xa9 || b[i + 2] == 0xaf)) || (b[i + 1] == 0x81 && b[i + 2] == 0x9f)
    } else if c == 0xe3 && n - i > 2 {
        b[i + 1] == 0x80 && b[i + 2] == 0x80
    } else {
        false
    }
}

/// The end of the run of type bytes from `i`.
pub fn find_type_end(b: &[u8], i: usize) -> (r: usize)
    requires
        i <= b@.len(),
    ensures
        r == type_end(b@, i as int),
        i <= r <= b@.len(),
        forall|k: int| i <= k < r ==> #[trigger] type_at(b@, k),
        r == b@.len() || !type_at(b@, r as int),
{
    let mut j = i;
    while j < b.len() && !space(b[j]) && b[j] != OPEN && b[j] != CLOSE && b[j] != BANG && b[j]
        != COLON && !find_space(b, j)
        invariant
            i <= j <= b@.len(),
            type_end(b@, j as int) == type_end(b@, i as int),
            forall|k: int| i <= k < j ==> #[trigger] type_at(b@, k),
        decreases b@.len() - j,
    {
        j = j + 1;
    }
    j
}

/// The end of the run of scope bytes from `i`.
pub fn find_scope_end(b: &[u8], i: usize) -> (r: usize)
    requires
        i <= b@.len(),
    ensures
        r == scope_end(b@, i as int),
        i <= r <= b@.len(),
        forall|k: int| i <= k < r ==> is_scope_byte(#[trigger] b@[k]),
        r == b@.len() || !is_scope_byte(b@[r as int]),
{
    let mut j = i;
    while j < b.len() && b[j] != CLOSE && b[j] != NEWLINE
        invariant
            i <= j <= b@.len(),
            scope_end(b@, j as int) == scope_end(b@, i as int),
            forall|k: int| i <= k < j ==> is_scope_byte(#[trigger] b@[k]),
        decreases b@.len() - j,
    {
        j = j + 1;
    }
    j
}

/// The end of the run of token bytes from `i`.
pub fn find_token_end(b: &[u8], i: usize) -> (r: usize)
    requires
        i <= b@.len(),
    ensures
        r == token_end(b@, i as int),
        i <= r <= b@.len(),
        r == b@.len() || !token_at(b@, r as int),
{
    let mut j = i;
    while j < b.len() && !space(b[j]) && b[j] != COLON && !find_space(b, j)
        invariant
            i <= j <= b@.len(),
            token_end(b@, j as int) == token_end(b@, i as int),
        decreases b@.len() - j,
    {
        j = j + 1;
    }
    j
}

/// The end of the line that holds position `i`.
pub fn find_line_end(b: &[u8], i: usize) -> (r: usize)
    requires
        i <= b@.len(),
    ensures
        r == line_end(b@, i as int),
        i <= r <= b@.len(),
        forall|k: int| i <= k < r ==> #[trigger] b@[k] != NEWLINE,
        r == b@.len() || b@[r as int] == NEWLINE,
{
    let mut j = i;
    while j < b.len() && b[j] != NEWLINE
        invariant
            i <= j <= b@.len(),
            line_end(b@, j as int) == line_end(b@, i as int),
            forall|k: int| i <= k < j ==> #[trigger] b@[k] != NEWLINE,
        decreases b@.len() - j,
    {
        j = j + 1;
    }
    j
}

/// The end of `b[lo..hi]` without its trailing newlines.
pub fn find_trim_end(b: &[u8], lo: usize, hi: usize) -> (r: usize)
    requires
        lo <= hi <= b@.len(),
    ensures
        r == trim_end(b@, lo as int, hi as int),
        lo <= r <= hi,
        r == hi || b@[r as int] == NEWLINE,
        r == lo || b@[r - 1] != NEWLINE,
{
    let mut j = hi;
    while lo < j && b[j - 1] == NEWLINE
        invariant
            lo <= j <= hi,
            hi <= b@.len(),
            trim_end(b@, lo as int, j as int) == trim_end(b@, lo as int, hi as int),
            j == hi || b@[j as int] == NEWLINE,
        decreases j - lo,
    {
        j = j - 1;
    }
    j
}

/// The footer separator at `i`, if any.
pub fn find_separator(b: &[u8], i: usize) -> (r: Option<FooterSeparator>)
    requires
        i <= b@.len(),
    ensures
        r == separator_at(b@, i as int),
{
    if i < b.len() && i + 1 < b.len() && b[i] == COLON && b[i + 1] == SPACE {
        Some(FooterSeparator::ColonSpace)
    } else if i < b.len() && i + 1 < b.len() && b[i] == SPACE && b[i + 1] == HASH {
        Some(FooterSeparator::SpacePound)
    } else {
        None
    }
}

/// Whether `BREAKING CHANGE` stands in `b` at position `q`.
pub fn breaking_token_at(b: &[u8], q: usize) -> (r: bool)
    requires
        q <= b@.len(),
    ensures
        r == (q + breaking_token().len() <= b@.len() && b@.subrange(
            q as int,
            q + breaking_token().len(),
        ) == breaking_token()),
{
    let pattern: Vec<u8> = vec![
        0x42u8,
        0x52,
        0x45,
        0x41,
        0x4b,
        0x49,
        0x4e,
        0x47,
        0x20,
        0x43,
        0x48,
        0x41,
        0x4e,
        0x47,
        0x45,
    ];
    assert(pattern@ =~= breaking_token());
    if b.len() - q < pattern.len() {
        return false;
    }
    let mut k: usize = 0;
    while k < pattern.len()
        invariant
            pattern@ == breaking_token(),
            q + pattern@.len() <= b@.len(),
            b@.len() == b.len(),
            k <= pattern@.len(),
            forall|m: int| 0 <= m < k ==> b@[q + m] == pattern@[m],
        decreases pattern@.len() - k,
    {
        if b[q + k] != pattern[k] {
            assert(b@.subrange(q as int, q + breaking_token().len())[k as int] != breaking_token()[k as int]);
            return false;
        }
        k = k + 1;
    }
    assert(b@.subrange(q as int, q + breaking_token().len()) =~= breaking_token());
    true
}

/// Where the token of a footer that starts at `q` ends, and its separator.
pub fn find_footer(b: &[u8], q: usize) -> (r: Option<(usize, FooterSeparator)>)
    requires
        q <= b@.len(),
    ensures
        match r {
            Some((te, sep)) => footer_at(b@, q as int) == Some((te as int, sep)),
            None => footer_at(b@, q as int) is None,
        },
        r matches Some((te, _)) ==> q < te && te + 2 <= b@.len() && b@[te as int] < 0x80 && b@[te
            + 1] < 0x80,
{
    assert(breaking_token().len() == 15);
    assert(b@.len() == b.len());
    if breaking_token_at(b, q) {
        let n: usize = 15;
        if let Some(sep) = find_separator(b, q + n) {
            return Some((q + n, sep));
        }
    }
    let te = find_token_end(b, q);
    if te > q {
        if let Some(sep) = find_separator(b, te) {
            return Some((te, sep));
        }
    }
    None
}

/// The first line at or after `i` that opens a footer, or the end.
pub fn find_next_footer(b: &[u8], i: usize) -> (r: usize)
    requires
        i <= b@.len(),
    ensures
        r == next_footer(b@, i as int),
        i <= r <= b@.len(),
        r == b@.len() || (r > 0 && b@[r - 1] == NEWLINE),
{
    let mut j = i;
    while j < b.len()
        invariant
            i <= j <= b@.len(),
            next_footer(b@, j as int) == next_footer(b@, i as int),
        decreases b@.len() - j,
    {
        if j > 0 && b[j - 1] == NEWLINE && find_footer(b, j).is_some() {
            return j;
        }
        j = j + 1;
    }
    j
}

/// The first position at or after `q` that opens the footer block of the
/// content that starts at `c`, or the end.
pub fn find_first_footer(b: &[u8], c: usize, q: usize) -> (r: usize)
    requires
        2 <= c <= q <= b@.len(),
        b@[c - 1] == NEWLINE,
    ensures
        r == first_footer(b@, c as int, q as int),
        q <= r <= b@.len(),
        r == b@.len() || b@[r - 1] == NEWLINE,
{
    let mut j = q;
    while j < b.len()
        invariant
            2 <= c <= q <= j <= b@.len(),
            b@[c - 1] == NEWLINE,
            first_footer(b@, c as int, j as int) == first_footer(b@, c as int, q as int),
        decreases b@.len() - j,
    {
        if (j == c || (b[j - 1] == NEWLINE && b[j - 2] == NEWLINE)) && find_footer(b, j).is_some() {
            return j;
        }
        j = j + 1;
    }
    j
}

} // verus!
