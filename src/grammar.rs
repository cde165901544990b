//! The grammar of a commit message, stated over its UTF-8 bytes.
//!
//! Every byte that the grammar gives a meaning to is ASCII, so each position
//! at which the message is cut lies next to an ASCII byte and never inside a
//! character.

use vstd::prelude::*;

use crate::component::FooterSeparator;
use crate::error::ErrorKind;
use crate::text::{BANG, CLOSE, COLON, HASH, NEWLINE, OPEN, RETURN, SPACE, TAB, LINE_TAB, FORM_FEED};

verus! {

/// ASCII whitespace, as `char::is_whitespace` has it: space, tab, line
/// feed, vertical tab, form feed and carriage return.
pub open spec fn is_space(c: u8) -> bool {
    c == SPACE || c == TAB || c == NEWLINE || c == LINE_TAB || c == FORM_FEED || c == RETURN
}

/// Whether a whitespace character (as `char::is_whitespace` has it) starts
/// at position `i`: ASCII whitespace, or the UTF-8 encoding of U+0085,
/// U+00A0, U+1680, U+2000 to U+200A, U+2028, U+2029, U+202F, U+205F or
/// U+3000.
pub open spec fn space_at(s: Seq<u8>, i: int) -> bool {
    &&& 0 <= i < s.len()
    &&& {
        ||| is_space(s[i])
        ||| (s[i] == 0xc2 && i + 1 < s.len() && (s[i + 1] == 0x85 || s[i + 1] == 0xa0))
        ||| (s[i] == 0xe1 && i + 2 < s.len() && s[i + 1] == 0x9a && s[i + 2] == 0x80)
        ||| (s[i] == 0xe2 && i + 2 < s.len() && s[i + 1] == 0x80 && (0x80 <= s[i + 2] <= 0x8a
            || s[i + 2] == 0xa8 || s[i + 2] == 0xa9 || s[i + 2] == 0xaf))
        ||| (s[i] == 0xe2 && i + 2 < s.len() && s[i + 1] == 0x81 && s[i + 2] == 0x9f)
        ||| (s[i] == 0xe3 && i + 2 < s.len() && s[i + 1] == 0x80 && s[i + 2] == 0x80)
    }
}

/// Whether position `i` continues a commit type: its byte is a type byte
/// and no whitespace character starts there.
pub open spec fn type_at(s: Seq<u8>, i: int) -> bool {
    0 <= i < s.len() && is_type_byte(s[i]) && !space_at(s, i)
}

/// Whether position `i` continues a footer token.
pub open spec fn token_at(s: Seq<u8>, i: int) -> bool {
    0 <= i < s.len() && is_token_byte(s[i]) && !space_at(s, i)
}

/// A byte that may stand in a commit type.
pub open spec fn is_type_byte(c: u8) -> bool {
    !is_space(c) && c != OPEN && c != CLOSE && c != BANG && c != COLON
}

/// A byte that may stand in a scope.
pub open spec fn is_scope_byte(c: u8) -> bool {
    c != CLOSE && c != NEWLINE
}

/// A byte that may stand in a footer token (other than `BREAKING CHANGE`).
pub open spec fn is_token_byte(c: u8) -> bool {
    !is_space(c) && c != COLON
}

/// The end of the run of type bytes that starts at `i`.
pub open spec fn type_end(s: Seq<u8>, i: int) -> int
    decreases s.len() - i,
{
    if type_at(s, i) {
        type_end(s, i + 1)
    } else {
        i
    }
}

/// The end of the run of scope bytes that starts at `i`.
pub open spec fn scope_end(s: Seq<u8>, i: int) -> int
    decreases s.len() - i,
{
    if 0 <= i < s.len() && is_scope_byte(s[i]) {
        scope_end(s, i + 1)
    } else {
        i
    }
}

/// The end of the run of token bytes that starts at `i`.
pub open spec fn token_end(s: Seq<u8>, i: int) -> int
    decreases s.len() - i,
{
    if token_at(s, i) {
        token_end(s, i + 1)
    } else {
        i
    }
}

/// The end of the line that holds position `i`: the next newline, or the
/// end of the text.
pub open spec fn line_end(s: Seq<u8>, i: int) -> int
    decreases s.len() - i,
{
    if 0 <= i < s.len() && s[i] != NEWLINE {
        line_end(s, i + 1)
    } else {
        i
    }
}

/// The end of `s[lo..hi]` once its trailing newlines are dropped.
pub open spec fn trim_end(s: Seq<u8>, lo: int, hi: int) -> int
    decreases hi - lo,
{
    if lo < hi && s[hi - 1] == NEWLINE {
        trim_end(s, lo, hi - 1)
    } else {
        hi
    }
}

/// The footer separator that starts at `i`, if any.
pub open spec fn separator_at(s: Seq<u8>, i: int) -> Option<FooterSeparator> {
    if 0 <= i && i + 1 < s.len() && s[i] == COLON && s[i + 1] == SPACE {
        Some(FooterSeparator::ColonSpace)
    } else if 0 <= i && i + 1 < s.len() && s[i] == SPACE && s[i + 1] == HASH {
        Some(FooterSeparator::SpacePound)
    } else {
        None
    }
}

/// The token that marks a breaking change in a footer: `BREAKING CHANGE`.
pub open spec fn breaking_token() -> Seq<u8> {
    seq![0x42u8, 0x52, 0x45, 0x41, 0x4b, 0x49, 0x4e, 0x47, 0x20, 0x43, 0x48, 0x41, 0x4e, 0x47, 0x45]
}

/// Where the token of a footer that starts at `q` ends, and its separator:
/// the token is `BREAKING CHANGE` or a run of token bytes, and a separator
/// follows it at once.
pub open spec fn footer_at(s: Seq<u8>, q: int) -> Option<(int, FooterSeparator)> {
    let n = breaking_token().len() as int;
    let te = token_end(s, q);
    if 0 <= q && q + n <= s.len() && s.subrange(q, q + n) == breaking_token()
        && separator_at(s, q + n) is Some {
        Some((q + n, separator_at(s, q + n)->0))
    } else if 0 <= q && te > q && separator_at(s, te) is Some {
        Some((te, separator_at(s, te)->0))
    } else {
        None
    }
}

/// A line that starts at `q` (after a newline) and opens a footer.
pub open spec fn footer_line(s: Seq<u8>, q: int) -> bool {
    0 < q < s.len() && s[q - 1] == NEWLINE && footer_at(s, q) is Some
}

/// The first line at or after `i` that opens a footer, or the end of the text.
pub open spec fn next_footer(s: Seq<u8>, i: int) -> int
    decreases s.len() - i,
{
    if i < 0 || i >= s.len() {
        s.len() as int
    } else if footer_line(s, i) {
        i
    } else {
        next_footer(s, i + 1)
    }
}

/// A position at or after the content start `c` that opens the footer block:
/// a footer that starts the content or follows a blank line.
pub open spec fn opens_footers(s: Seq<u8>, c: int, q: int) -> bool {
    &&& footer_at(s, q) is Some
    &&& (q == c || (q >= 2 && s[q - 1] == NEWLINE && s[q - 2] == NEWLINE))
}

/// The first position at or after `q` that opens the footer block, or the
/// end of the text.
pub open spec fn first_footer(s: Seq<u8>, c: int, q: int) -> int
    decreases s.len() - q,
{
    if q < 0 || q >= s.len() {
        s.len() as int
    } else if opens_footers(s, c, q) {
        q
    } else {
        first_footer(s, c, q + 1)
    }
}

/// The positions of one footer within the text.
pub struct FooterSpan {
    pub start: int,
    pub token_end: int,
    pub separator: FooterSeparator,
    pub value_start: int,
    pub value_end: int,
}

/// The footers from position `q` on: each runs to the next line that opens a
/// footer, without its trailing newlines.
pub open spec fn footers_from(s: Seq<u8>, q: int) -> Seq<FooterSpan>
    decreases s.len() - q,
{
    if 0 <= q < s.len() && footer_at(s, q) is Some {
        let (te, sep) = footer_at(s, q)->0;
        let v = te + 2;
        let n = next_footer(s, v);
        let f = FooterSpan {
            start: q,
            token_end: te,
            separator: sep,
            value_start: v,
            value_end: trim_end(s, v, n),
        };
        if q < n <= s.len() {
            seq![f] + footers_from(s, n)
        } else {
            seq![f]
        }
    } else {
        Seq::empty()
    }
}

/// The positions of the parts of a recognized message.
pub struct CommitSpan {
    pub type_end: int,
    pub scope: Option<(int, int)>,
    pub bang: bool,
    pub description: (int, int),
    pub body: Option<(int, int)>,
    pub footers: Seq<FooterSpan>,
}

/// Body and footers, after a header that ends at `he`: nothing, a newline
/// alone, or a blank line followed by the body and then the footer block.
pub open spec fn tail_spans(s: Seq<u8>, he: int) -> Result<
    (Option<(int, int)>, Seq<FooterSpan>),
    (ErrorKind, int),
> {
    if he + 1 >= s.len() {
        Ok((None, Seq::empty()))
    } else if s[he + 1] != NEWLINE {
        Err((ErrorKind::InvalidBody, he + 1))
    } else {
        let c = he + 2;
        let f = first_footer(s, c, c);
        let be = trim_end(s, c, f);
        Ok((if be > c { Some((c, be)) } else { None }, footers_from(s, f)))
    }
}

/// How a message is recognized: the positions of its parts, or the kind of
/// the first violation of the grammar and the byte offset where it lies.
///
/// The header is `type ['(' scope ')'] ['!'] ': ' description`, on the first
/// line. The type is a non-empty run of bytes other than whitespace and
/// `( ) ! :`; the scope a non-empty run without `)` or a newline; the
/// description must start with a byte other than whitespace.
pub open spec fn recognize(s: Seq<u8>) -> Result<CommitSpan, (ErrorKind, int)> {
    let he = line_end(s, 0);
    let te = type_end(s, 0);
    let has_scope = te < s.len() && s[te] == OPEN;
    let se = scope_end(s, te + 1);
    let p = if has_scope { se + 1 } else { te };
    let bang = p < s.len() && s[p] == BANG;
    let q = if bang { p + 1 } else { p };
    let d = q + 2;
    if te == 0 {
        Err((ErrorKind::MissingType, 0))
    } else if has_scope && se == te + 1 {
        Err((ErrorKind::InvalidScope, te + 1))
    } else if has_scope && !(se < s.len() && s[se] == CLOSE) {
        Err((ErrorKind::InvalidScope, se))
    } else if !(q + 1 < s.len() && s[q] == COLON && s[q + 1] == SPACE) {
        Err((ErrorKind::MissingSeparator, q))
    } else if d >= he || space_at(s, d) {
        Err((ErrorKind::MissingDescription, d))
    } else {
        match tail_spans(s, he) {
            Err(e) => Err(e),
            Ok(t) => Ok(
                CommitSpan {
                    type_end: te,
                    scope: if has_scope { Some((te + 1, se)) } else { None },
                    bang,
                    description: (d, he),
                    body: t.0,
                    footers: t.1,
                },
            ),
        }
    }
}

/// A run of type bytes from `i` that stops at `j` ends the type there; and
/// the type that starts at `i` is such a run.
pub proof fn lemma_type_end(s: Seq<u8>, i: int, j: int)
    requires
        0 <= i <= j <= s.len(),
        forall|k: int| i <= k < j ==> #[trigger] type_at(s, k),
        j == s.len() || !type_at(s, j),
    ensures
        type_end(s, i) == j,
    decreases j - i,
{
    if i < j {
        lemma_type_end(s, i + 1, j);
    }
}

pub proof fn lemma_type_end_bytes(s: Seq<u8>, i: int)
    requires
        0 <= i <= s.len(),
    ensures
        i <= type_end(s, i) <= s.len(),
        forall|k: int| i <= k < type_end(s, i) ==> #[trigger] type_at(s, k),
    decreases s.len() - i,
{
    if type_at(s, i) {
        lemma_type_end_bytes(s, i + 1);
    }
}

pub proof fn lemma_scope_end(s: Seq<u8>, i: int, j: int)
    requires
        0 <= i <= j <= s.len(),
        forall|k: int| i <= k < j ==> is_scope_byte(#[trigger] s[k]),
        j == s.len() || !is_scope_byte(s[j]),
    ensures
        scope_end(s, i) == j,
    decreases j - i,
{
    if i < j {
        lemma_scope_end(s, i + 1, j);
    }
}

pub proof fn lemma_scope_end_bytes(s: Seq<u8>, i: int)
    requires
        0 <= i <= s.len(),
    ensures
        i <= scope_end(s, i) <= s.len(),
        forall|k: int| i <= k < scope_end(s, i) ==> is_scope_byte(#[trigger] s[k]),
    decreases s.len() - i,
{
    if i < s.len() && is_scope_byte(s[i]) {
        lemma_scope_end_bytes(s, i + 1);
    }
}

pub proof fn lemma_line_end(s: Seq<u8>, i: int, j: int)
    requires
        0 <= i <= j <= s.len(),
        forall|k: int| i <= k < j ==> #[trigger] s[k] != NEWLINE,
        j == s.len() || s[j] == NEWLINE,
    ensures
        line_end(s, i) == j,
    decreases j - i,
{
    if i < j {
        lemma_line_end(s, i + 1, j);
    }
}

pub proof fn lemma_line_end_bytes(s: Seq<u8>, i: int)
    requires
        0 <= i <= s.len(),
    ensures
        i <= line_end(s, i) <= s.len(),
        forall|k: int| i <= k < line_end(s, i) ==> #[trigger] s[k] != NEWLINE,
    decreases s.len() - i,
{
    if i < s.len() && s[i] != NEWLINE {
        lemma_line_end_bytes(s, i + 1);
    }
}

/// Where no newline stands from just before `i` to the end, no line opens a
/// footer from `i` on.
pub proof fn lemma_no_footer_line(s: Seq<u8>, i: int)
    requires
        1 <= i <= s.len(),
        forall|k: int| i - 1 <= k < s.len() ==> #[trigger] s[k] != NEWLINE,
    ensures
        next_footer(s, i) == s.len(),
    decreases s.len() - i,
{
    if i < s.len() {
        lemma_no_footer_line(s, i + 1);
    }
}

} // verus!
