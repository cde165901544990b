//! The components of a commit: borrowed views into the message text.
//!
//! The identifier-like components (`Type`, `Scope`, `FooterToken`) compare
//! without regard to case; the free-text ones (`Description`, `Body`,
//! `FooterValue`) compare exactly.

use vstd::prelude::*;
use vstd::string::StringSliceAdditionalSpecFns;

use crate::error::{Error, ErrorKind};
use crate::text::{lemma_encode_ascii_pair, COLON, HASH, SPACE};

verus! {

/// What `unicase::eq` answers for two strings (given by their UTF-8 bytes)
/// that are not both ASCII: equality after Unicode case folding.
pub uninterp spec fn unicase_eq(a: Seq<u8>, b: Seq<u8>) -> bool;

/// ASCII lower case of a byte; other bytes are kept.
pub open spec fn ascii_lower(c: u8) -> u8 {
    if 0x41 <= c <= 0x5a {
        (c + 0x20) as u8
    } else {
        c
    }
}

pub open spec fn all_ascii(a: Seq<u8>) -> bool {
    forall|i: int| 0 <= i < a.len() ==> a[i] < 0x80
}

/// Equal up to ASCII case.
pub open spec fn ascii_caseless_eq(a: Seq<u8>, b: Seq<u8>) -> bool {
    &&& a.len() == b.len()
    &&& forall|i: int| 0 <= i < a.len() ==> ascii_lower(a[i]) == ascii_lower(b[i])
}

/// Case-insensitive equality of two strings given by their UTF-8 bytes.
pub open spec fn caseless_eq(a: Seq<u8>, b: Seq<u8>) -> bool {
    if all_ascii(a) && all_ascii(b) {
        ascii_caseless_eq(a, b)
    } else {
        unicase_eq(a, b)
    }
}

/// Relies on `unicase::eq`: two ASCII strings are compared ignoring ASCII
/// case (`eq_ignore_ascii_case`), any other pair after Unicode case folding.
#[verifier::external_body]
fn caseless(a: &str, b: &str) -> (r: bool)
    ensures
        all_ascii(a.spec_bytes()) && all_ascii(b.spec_bytes()) ==> r == ascii_caseless_eq(
            a.spec_bytes(),
            b.spec_bytes(),
        ),
        !(all_ascii(a.spec_bytes()) && all_ascii(b.spec_bytes())) ==> r == unicase_eq(
            a.spec_bytes(),
            b.spec_bytes(),
        ),
{
    unicase::eq(a, b)
}

/// Relies on the `Hash` of `unicase::UniCase`: it hashes the case-folded
/// text, so that strings equal up to case hash alike.
#[verifier::external_body]
fn caseless_hash<H: core::hash::Hasher>(s: &str, state: &mut H) {
    core::hash::Hash::hash(&unicase::UniCase::new(s), state)
}

/// The type of a commit, such as `feat` or `fix`.
#[derive(Clone, Copy, Debug)]
pub struct Type<'a> {
    value: &'a str,
}

/// The scope of a commit, between parentheses after the type.
#[derive(Clone, Copy, Debug)]
pub struct Scope<'a> {
    value: &'a str,
}

/// The token (key) of a footer, such as `Reviewed-by`.
#[derive(Clone, Copy, Debug)]
pub struct FooterToken<'a> {
    value: &'a str,
}

/// The one-line description of a commit.
#[derive(Clone, Copy, Debug, Hash)]
pub struct Description<'a> {
    value: &'a str,
}

/// The free-text body of a commit.
#[derive(Clone, Copy, Debug, Hash)]
pub struct Body<'a> {
    value: &'a str,
}

/// The value of a footer.
#[derive(Clone, Copy, Debug, Hash)]
pub struct FooterValue<'a> {
    value: &'a str,
}


/// Byte-for-byte equality of two strings.
fn same_text(a: &str, b: &str) -> (r: bool)
    ensures
        r == (a.spec_bytes() == b.spec_bytes()),
{
    let x = a.as_bytes();
    let y = b.as_bytes();
    if x.len() != y.len() {
        return false;
    }
    let mut i: usize = 0;
    while i < x.len()
        invariant
            x@ == a.spec_bytes(),
            y@ == b.spec_bytes(),
            x@.len() == y@.len(),
            i <= x@.len(),
            forall|k: int| 0 <= k < i ==> x@[k] == y@[k],
        decreases x@.len() - i,
    {
        if x[i] != y[i] {
            return false;
        }
        i = i + 1;
    }
    assert(x@ =~= y@);
    true
}

impl<'a> View for Type<'a> {
    type V = Seq<u8>;

    /// The UTF-8 bytes of the text.
    closed spec fn view(&self) -> Seq<u8> {
        self.value.spec_bytes()
    }
}

impl<'a> Type<'a> {
    /// Wraps `value`, without copying it.
    pub fn new(value: &'a str) -> (r: Self)
        ensures
            r@ == value.spec_bytes(),
    {
        Type { value }
    }

    /// The text, as borrowed from the message.
    pub fn as_str(&self) -> (r: &'a str)
        ensures
            r.spec_bytes() == self@,
    {
        self.value
    }
}

impl<'a> PartialEq for Type<'a> {
    fn eq(&self, other: &Self) -> (r: bool)
        ensures
            r == caseless_eq(self@, other@),
    {
        caseless(self.value, other.value)
    }
}

impl<'a> vstd::std_specs::cmp::PartialEqSpecImpl for Type<'a> {
    open spec fn obeys_eq_spec() -> bool {
        true
    }

    open spec fn eq_spec(&self, other: &Self) -> bool {
        caseless_eq(self@, other@)
    }
}

impl<'a> Eq for Type<'a> {}

impl<'a> core::hash::Hash for Type<'a> {
    fn hash<H: core::hash::Hasher>(&self, state: &mut H) {
        caseless_hash(self.value, state)
    }
}

impl<'a> From<&'a str> for Type<'a> {
    fn from(value: &'a str) -> (r: Self) {
        Type { value }
    }
}

impl<'a> vstd::std_specs::convert::FromSpecImpl<&'a str> for Type<'a> {
    open spec fn obeys_from_spec() -> bool {
        true
    }

    closed spec fn from_spec(value: &'a str) -> Self {
        Type { value }
    }
}

impl<'a> View for Scope<'a> {
    type V = Seq<u8>;

    /// The UTF-8 bytes of the text.
    closed spec fn view(&self) -> Seq<u8> {
        self.value.spec_bytes()
    }
}

impl<'a> Scope<'a> {
    /// Wraps `value`, without copying it.
    pub fn new(value: &'a str) -> (r: Self)
        ensures
            r@ == value.spec_bytes(),
    {
        Scope { value }
    }

    /// The text, as borrowed from the message.
    pub fn as_str(&self) -> (r: &'a str)
        ensures
            r.spec_bytes() == self@,
    {
        self.value
    }
}

impl<'a> PartialEq for Scope<'a> {
    fn eq(&self, other: &Self) -> (r: bool)
        ensures
            r == caseless_eq(self@, other@),
    {
        caseless(self.value, other.value)
    }
}

impl<'a> vstd::std_specs::cmp::PartialEqSpecImpl for Scope<'a> {
    open spec fn obeys_eq_spec() -> bool {
        true
    }

    open spec fn eq_spec(&self, other: &Self) -> bool {
        caseless_eq(self@, other@)
    }
}

impl<'a> Eq for Scope<'a> {}

impl<'a> core::hash::Hash for Scope<'a> {
    fn hash<H: core::hash::Hasher>(&self, state: &mut H) {
        caseless_hash(self.value, state)
    }
}

impl<'a> From<&'a str> for Scope<'a> {
    fn from(value: &'a str) -> (r: Self) {
        Scope { value }
    }
}

impl<'a> vstd::std_specs::convert::FromSpecImpl<&'a str> for Scope<'a> {
    open spec fn obeys_from_spec() -> bool {
        true
    }

    closed spec fn from_spec(value: &'a str) -> Self {
        Scope { value }
    }
}

impl<'a> View for FooterToken<'a> {
    type V = Seq<u8>;

    /// The UTF-8 bytes of the text.
    closed spec fn view(&self) -> Seq<u8> {
        self.value.spec_bytes()
    }
}

impl<'a> FooterToken<'a> {
    /// Wraps `value`, without copying it.
    pub fn new(value: &'a str) -> (r: Self)
        ensures
            r@ == value.spec_bytes(),
    {
        FooterToken { value }
    }

    /// The text, as borrowed from the message.
    pub fn as_str(&self) -> (r: &'a str)
        ensures
            r.spec_bytes() == self@,
    {
        self.value
    }
}

impl<'a> PartialEq for FooterToken<'a> {
    fn eq(&self, other: &Self) -> (r: bool)
        ensures
            r == caseless_eq(self@, other@),
    {
        caseless(self.value, other.value)
    }
}

impl<'a> vstd::std_specs::cmp::PartialEqSpecImpl for FooterToken<'a> {
    open spec fn obeys_eq_spec() -> bool {
        true
    }

    open spec fn eq_spec(&self, other: &Self) -> bool {
        caseless_eq(self@, other@)
    }
}

impl<'a> Eq for FooterToken<'a> {}

impl<'a> core::hash::Hash for FooterToken<'a> {
    fn hash<H: core::hash::Hasher>(&self, state: &mut H) {
        caseless_hash(self.value, state)
    }
}

impl<'a> From<&'a str> for FooterToken<'a> {
    fn from(value: &'a str) -> (r: Self) {
        FooterToken { value }
    }
}

impl<'a> vstd::std_specs::convert::FromSpecImpl<&'a str> for FooterToken<'a> {
    open spec fn obeys_from_spec() -> bool {
        true
    }

    closed spec fn from_spec(value: &'a str) -> Self {
        FooterToken { value }
    }
}

impl<'a> View for Description<'a> {
    type V = Seq<u8>;

    /// The UTF-8 bytes of the text.
    closed spec fn view(&self) -> Seq<u8> {
        self.value.spec_bytes()
    }
}

impl<'a> Description<'a> {
    /// Wraps `value`, without copying it.
    pub fn new(value: &'a str) -> (r: Self)
        ensures
            r@ == value.spec_bytes(),
    {
        Description { value }
    }

    /// The text, as borrowed from the message.
    pub fn as_str(&self) -> (r: &'a str)
        ensures
            r.spec_bytes() == self@,
    {
        self.value
    }
}

impl<'a> PartialEq for Description<'a> {
    fn eq(&self, other: &Self) -> (r: bool)
        ensures
            r == (self@ == other@),
    {
        same_text(self.value, other.value)
    }
}

impl<'a> vstd::std_specs::cmp::PartialEqSpecImpl for Description<'a> {
    open spec fn obeys_eq_spec() -> bool {
        true
    }

    open spec fn eq_spec(&self, other: &Self) -> bool {
        self@ == other@
    }
}

impl<'a> Eq for Description<'a> {}

impl<'a> From<&'a str> for Description<'a> {
    fn from(value: &'a str) -> (r: Self) {
        Description { value }
    }
}

impl<'a> vstd::std_specs::convert::FromSpecImpl<&'a str> for Description<'a> {
    open spec fn obeys_from_spec() -> bool {
        true
    }

    closed spec fn from_spec(value: &'a str) -> Self {
        Description { value }
    }
}

impl<'a> View for Body<'a> {
    type V = Seq<u8>;

    /// The UTF-8 bytes of the text.
    closed spec fn view(&self) -> Seq<u8> {
        self.value.spec_bytes()
    }
}

impl<'a> Body<'a> {
    /// Wraps `value`, without copying it.
    pub fn new(value: &'a str) -> (r: Self)
        ensures
            r@ == value.spec_bytes(),
    {
        Body { value }
    }

    /// The text, as borrowed from the message.
    pub fn as_str(&self) -> (r: &'a str)
        ensures
            r.spec_bytes() == self@,
    {
        self.value
    }
}

impl<'a> PartialEq for Body<'a> {
    fn eq(&self, other: &Self) -> (r: bool)
        ensures
            r == (self@ == other@),
    {
        same_text(self.value, other.value)
    }
}

impl<'a> vstd::std_specs::cmp::PartialEqSpecImpl for Body<'a> {
    open spec fn obeys_eq_spec() -> bool {
        true
    }

    open spec fn eq_spec(&self, other: &Self) -> bool {
        self@ == other@
    }
}

impl<'a> Eq for Body<'a> {}

impl<'a> From<&'a str> for Body<'a> {
    fn from(value: &'a str) -> (r: Self) {
        Body { value }
    }
}

impl<'a> vstd::std_specs::convert::FromSpecImpl<&'a str> for Body<'a> {
    open spec fn obeys_from_spec() -> bool {
        true
    }

    closed spec fn from_spec(value: &'a str) -> Self {
        Body { value }
    }
}

impl<'a> View for FooterValue<'a> {
    type V = Seq<u8>;

    /// The UTF-8 bytes of the text.
    closed spec fn view(&self) -> Seq<u8> {
        self.value.spec_bytes()
    }
}

impl<'a> FooterValue<'a> {
    /// Wraps `value`, without copying it.
    pub fn new(value: &'a str) -> (r: Self)
        ensures
            r@ == value.spec_bytes(),
    {
        FooterValue { value }
    }

    /// The text, as borrowed from the message.
    pub fn as_str(&self) -> (r: &'a str)
        ensures
            r.spec_bytes() == self@,
    {
        self.value
    }
}

impl<'a> PartialEq for FooterValue<'a> {
    fn eq(&self, other: &Self) -> (r: bool)
        ensures
            r == (self@ == other@),
    {
        same_text(self.value, other.value)
    }
}

impl<'a> vstd::std_specs::cmp::PartialEqSpecImpl for FooterValue<'a> {
    open spec fn obeys_eq_spec() -> bool {
        true
    }

    open spec fn eq_spec(&self, other: &Self) -> bool {
        self@ == other@
    }
}

impl<'a> Eq for FooterValue<'a> {}

impl<'a> From<&'a str> for FooterValue<'a> {
    fn from(value: &'a str) -> (r: Self) {
        FooterValue { value }
    }
}

impl<'a> vstd::std_specs::convert::FromSpecImpl<&'a str> for FooterValue<'a> {
    open spec fn obeys_from_spec() -> bool {
        true
    }

    closed spec fn from_spec(value: &'a str) -> Self {
        FooterValue { value }
    }
}

/// The text between the token and the value of a footer.
#[derive(Clone, Copy, Debug, PartialEq, Eq, Structural, Hash)]
pub enum FooterSeparator {
    /// `": "`
    ColonSpace,
    /// `" #"`
    SpacePound,
}

/// The bytes of a separator's literal text.
pub open spec fn separator_bytes(sep: FooterSeparator) -> Seq<u8> {
    match sep {
        FooterSeparator::ColonSpace => seq![COLON, SPACE],
        FooterSeparator::SpacePound => seq![SPACE, HASH],
    }
}

/// The separator whose literal text has the bytes `b`, or an
/// `InvalidFormat` error at offset 0.
pub open spec fn separator_of_text(b: Seq<u8>) -> Result<FooterSeparator, Error> {
    if b == seq![COLON, SPACE] {
        Ok(FooterSeparator::ColonSpace)
    } else if b == seq![SPACE, HASH] {
        Ok(FooterSeparator::SpacePound)
    } else {
        Err(Error { kind: ErrorKind::InvalidFormat, offset: 0 })
    }
}

impl FooterSeparator {
    /// The literal text of the separator.
    pub fn as_str(&self) -> (r: &'static str)
        ensures
            r.spec_bytes() == separator_bytes(*self),
    {
        match self {
            FooterSeparator::ColonSpace => {
                let r = ": ";
                proof {
                    reveal_strlit(": ");
                    lemma_encode_ascii_pair(r@[0], r@[1]);
                    assert(r@ =~= seq![r@[0], r@[1]]);
                    assert(r.spec_bytes() =~= separator_bytes(*self));
                }
                r
            },
            FooterSeparator::SpacePound => {
                let r = " #";
                proof {
                    reveal_strlit(" #");
                    lemma_encode_ascii_pair(r@[0], r@[1]);
                    assert(r@ =~= seq![r@[0], r@[1]]);
                    assert(r.spec_bytes() =~= separator_bytes(*self));
                }
                r
            },
        }
    }

    /// The separator whose literal text is `sep`; an `InvalidFormat` error
    /// at offset 0 for any other text.
    pub fn from_literal(sep: &str) -> (r: Result<FooterSeparator, Error>)
        ensures
            r == separator_of_text(sep.spec_bytes()),
            r is Ok ==> separator_bytes(r->Ok_0) == sep.spec_bytes(),
    {
        let b = sep.as_bytes();
        if b.len() == 2 && b[0] == COLON && b[1] == SPACE {
            assert(b@ =~= seq![COLON, SPACE]);
            Ok(FooterSeparator::ColonSpace)
        } else if b.len() == 2 && b[0] == SPACE && b[1] == HASH {
            assert(b@ =~= seq![SPACE, HASH]);
            Ok(FooterSeparator::SpacePound)
        } else {
            assert(b@ != seq![COLON, SPACE]);
            assert(b@ != seq![SPACE, HASH]);
            Err(Error::new(ErrorKind::InvalidFormat, 0))
        }
    }
}

impl<'s> TryFrom<&'s str> for FooterSeparator {
    type Error = Error;

    fn try_from(value: &'s str) -> Result<FooterSeparator, Error> {
        FooterSeparator::from_literal(value)
    }
}

impl<'s> vstd::std_specs::convert::TryFromSpecImpl<&'s str> for FooterSeparator {
    open spec fn obeys_try_from_spec() -> bool {
        true
    }

    open spec fn try_from_spec(value: &'s str) -> Result<FooterSeparator, Error> {
        separator_of_text(value.spec_bytes())
    }
}

impl From<FooterSeparator> for &'static str {
    fn from(sep: FooterSeparator) -> (r: &'static str)
        ensures
            r.spec_bytes() == separator_bytes(sep),
    {
        sep.as_str()
    }
}

impl vstd::std_specs::convert::FromSpecImpl<FooterSeparator> for &'static str {
    open spec fn obeys_from_spec() -> bool {
        false
    }

    open spec fn from_spec(sep: FooterSeparator) -> Self {
        arbitrary()
    }
}

impl AsRef<str> for FooterSeparator {
    fn as_ref(&self) -> (r: &str)
        ensures
            r.spec_bytes() == separator_bytes(*self),
    {
        self.as_str()
    }
}

impl std::str::FromStr for FooterSeparator {
    type Err = Error;

    fn from_str(sep: &str) -> (r: Result<FooterSeparator, Error>)
        ensures
            r == separator_of_text(sep.spec_bytes()),
    {
        FooterSeparator::from_literal(sep)
    }
}

/// What a footer holds: its token, separator and value.
pub struct FooterView {
    pub token: Seq<u8>,
    pub separator: FooterSeparator,
    pub value: Seq<u8>,
}

/// A single footer, similar to a Git trailer but without the need for
/// whitespace at the start of continuation lines.
#[derive(Clone, Copy, Debug)]
pub struct Footer<'a> {
    token: FooterToken<'a>,
    sep: FooterSeparator,
    value: FooterValue<'a>,
}

impl<'a> View for Footer<'a> {
    type V = FooterView;

    closed spec fn view(&self) -> FooterView {
        FooterView { token: self.token@, separator: self.sep, value: self.value@ }
    }
}

impl<'a> Footer<'a> {
    /// Pieces together a footer.
    pub fn new(token: FooterToken<'a>, sep: FooterSeparator, value: FooterValue<'a>) -> (r: Self)
        ensures
            r@ == (FooterView { token: token@, separator: sep, value: value@ }),
    {
        Footer { token, sep, value }
    }

    /// The token of the footer.
    pub fn token(&self) -> (r: FooterToken<'a>)
        ensures
            r@ == self@.token,
    {
        self.token
    }

    /// The separator between the token and the value.
    pub fn separator(&self) -> (r: FooterSeparator)
        ensures
            r == self@.separator,
    {
        self.sep
    }

    /// The value of the footer.
    pub fn value(&self) -> (r: FooterValue<'a>)
        ensures
            r@ == self@.value,
    {
        self.value
    }
}

/// Footers are equal when their tokens are equal up to case, and their
/// separators and values are the same.
pub open spec fn footer_eq(a: FooterView, b: FooterView) -> bool {
    caseless_eq(a.token, b.token) && a.separator == b.separator && a.value == b.value
}

impl<'a> PartialEq for Footer<'a> {
    fn eq(&self, other: &Self) -> (r: bool)
        ensures
            r == footer_eq(self@, other@),
    {
        self.token == other.token && self.sep == other.sep && self.value == other.value
    }
}

impl<'a> vstd::std_specs::cmp::PartialEqSpecImpl for Footer<'a> {
    open spec fn obeys_eq_spec() -> bool {
        true
    }

    open spec fn eq_spec(&self, other: &Self) -> bool {
        footer_eq(self@, other@)
    }
}

impl<'a> Eq for Footer<'a> {}

impl<'a> core::hash::Hash for Footer<'a> {
    /// Hashes the token alone, case-folded: footers that are equal have
    /// tokens equal up to case, and so hash alike.
    fn hash<H: core::hash::Hasher>(&self, state: &mut H) {
        self.token.hash(state)
    }
}

/// A footer whose parts are read as plain strings.
#[derive(Clone, Copy, Debug)]
pub struct SimpleFooter<'a> {
    footer: Footer<'a>,
}

impl<'a> View for SimpleFooter<'a> {
    type V = FooterView;

    closed spec fn view(&self) -> FooterView {
        self.footer@
    }
}

impl<'a> PartialEq for SimpleFooter<'a> {
    fn eq(&self, other: &Self) -> (r: bool)
        ensures
            r == footer_eq(self@, other@),
    {
        self.footer == other.footer
    }
}

impl<'a> vstd::std_specs::cmp::PartialEqSpecImpl for SimpleFooter<'a> {
    open spec fn obeys_eq_spec() -> bool {
        true
    }

    open spec fn eq_spec(&self, other: &Self) -> bool {
        footer_eq(self@, other@)
    }
}

impl<'a> Eq for SimpleFooter<'a> {}

impl<'a> core::hash::Hash for SimpleFooter<'a> {
    fn hash<H: core::hash::Hasher>(&self, state: &mut H) {
        self.footer.hash(state)
    }
}

impl<'a> SimpleFooter<'a> {
    /// Reads `footer` as plain strings.
    pub fn new(footer: Footer<'a>) -> (r: Self)
        ensures
            r@ == footer@,
    {
        SimpleFooter { footer }
    }

    /// The token of the footer.
    pub fn token(&self) -> (r: &'a str)
        ensures
            r.spec_bytes() == self@.token,
    {
        self.footer.token.as_str()
    }

    /// The separator between the token and the value.
    pub fn separator(&self) -> (r: &'static str)
        ensures
            r.spec_bytes() == separator_bytes(self@.separator),
    {
        self.footer.sep.as_str()
    }

    /// The value of the footer.
    pub fn value(&self) -> (r: &'a str)
        ensures
            r.spec_bytes() == self@.value,
    {
        self.footer.value.as_str()
    }
}

} // verus!
