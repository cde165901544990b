//! The commit: the parts of a recognized message, and how they are read.

use vstd::prelude::*;
use vstd::string::StringSliceAdditionalSpecFns;
use vstd::utf8::encode_utf8;

use crate::component::{
    separator_bytes, Body, Description, Footer, FooterSeparator, FooterToken, FooterValue, FooterView, Scope, SimpleFooter, Type,
};
use crate::error::{Error, ErrorKind};
use crate::grammar::{breaking_token, footer_at, footers_from, recognize, CommitSpan, FooterSpan};
use crate::parser::{
    breaking_token_at, find_first_footer, find_footer, find_line_end, find_next_footer,
    find_scope_end, find_space, find_trim_end, find_type_end,
};
use crate::text::{
    lemma_encode_ascii_one, lemma_encode_ascii_pair, push_text, slice, BANG, CLOSE, COLON, NEWLINE,
    OPEN, SPACE,
};

verus! {

/// What a commit holds; text is given by its UTF-8 bytes.
pub struct CommitView {
    pub ty: Seq<u8>,
    pub scope: Option<Seq<u8>>,
    pub description: Seq<u8>,
    pub body: Option<Seq<u8>>,
    pub breaking: bool,
    pub trailers: Seq<FooterView>,
}

/// The text of a span of `s`.
pub open spec fn text_of(s: Seq<u8>, span: (int, int)) -> Seq<u8> {
    s.subrange(span.0, span.1)
}

/// The footer that a span of `s` marks out.
pub open spec fn footer_of(s: Seq<u8>, f: FooterSpan) -> FooterView {
    FooterView {
        token: s.subrange(f.start, f.token_end),
        separator: f.separator,
        value: s.subrange(f.value_start, f.value_end),
    }
}

/// Whether some footer has the token `BREAKING CHANGE`, in this exact case.
pub open spec fn has_breaking_footer(trailers: Seq<FooterView>) -> bool {
    exists|k: int| 0 <= k < trailers.len() && #[trigger] trailers[k].token == breaking_token()
}

/// The commit that the spans of a recognized message `s` mark out; it is
/// breaking when the header has `!` or a footer has the token
/// `BREAKING CHANGE`.
pub open spec fn commit_of(s: Seq<u8>, c: CommitSpan) -> CommitView {
    let trailers = c.footers.map_values(|f: FooterSpan| footer_of(s, f));
    CommitView {
        ty: s.subrange(0, c.type_end),
        scope: match c.scope {
            Some(sp) => Some(text_of(s, sp)),
            None => None,
        },
        description: text_of(s, c.description),
        body: match c.body {
            Some(sp) => Some(text_of(s, sp)),
            None => None,
        },
        breaking: c.bang || has_breaking_footer(trailers),
        trailers,
    }
}

/// The commit that a message (given by its UTF-8 bytes) is read as, or the
/// kind and byte offset of the error that rejects it.
pub open spec fn parse(s: Seq<u8>) -> Result<CommitView, (ErrorKind, int)> {
    match recognize(s) {
        Ok(c) => Ok(commit_of(s, c)),
        Err(e) => Err(e),
    }
}

/// `type`, then `(scope)` if there is one, then `!` if asked for, then
/// `": "` and the description.
pub open spec fn header_text(t: Seq<u8>, scope: Option<Seq<u8>>, bang: bool, d: Seq<u8>) -> Seq<
    u8,
> {
    let sc = match scope {
        Some(sc) => seq![OPEN] + sc + seq![CLOSE],
        None => Seq::empty(),
    };
    t + sc + (if bang {
        seq![BANG]
    } else {
        Seq::empty()
    }) + seq![COLON, SPACE] + d
}

/// The text of the footers: each after a blank line, as token, separator
/// and value.
pub open spec fn footers_text(t: Seq<FooterView>) -> Seq<u8>
    decreases t.len(),
{
    if t.len() == 0 {
        Seq::empty()
    } else {
        footers_text(t.drop_last()) + seq![NEWLINE, NEWLINE] + t.last().token + separator_bytes(
            t.last().separator,
        ) + t.last().value
    }
}

/// The text a commit is written as: its header (with `!` whenever it is
/// breaking), then the body after a blank line, then each footer after a
/// blank line.
pub open spec fn render(v: CommitView) -> Seq<u8> {
    header_text(v.ty, v.scope, v.breaking, v.description) + match v.body {
        Some(b) => seq![NEWLINE, NEWLINE] + b,
        None => Seq::empty(),
    } + footers_text(v.trailers)
}

/// A conventional commit, borrowing its parts from the message text.
#[derive(Clone, Debug)]
pub struct Commit<'a> {
    ty: Type<'a>,
    scope: Option<Scope<'a>>,
    description: Description<'a>,
    body: Option<Body<'a>>,
    breaking: bool,
    trailers: Vec<Footer<'a>>,
}

impl<'a> View for Commit<'a> {
    type V = CommitView;

    closed spec fn view(&self) -> CommitView {
        CommitView {
            ty: self.ty@,
            scope: match self.scope {
                Some(s) => Some(s@),
                None => None,
            },
            description: self.description@,
            body: match self.body {
                Some(b) => Some(b@),
                None => None,
            },
            breaking: self.breaking,
            trailers: self.trailers@.map_values(|f: Footer<'a>| f@),
        }
    }
}

/// `"("`
fn open_text() -> (r: &'static str)
    ensures
        r.spec_bytes() == seq![OPEN],
{
    let r = "(";
    proof {
        reveal_strlit("(");
        lemma_encode_ascii_one(r@[0]);
        assert(r@ =~= seq![r@[0]]);
    }
    r
}

/// `")"`
fn close_text() -> (r: &'static str)
    ensures
        r.spec_bytes() == seq![CLOSE],
{
    let r = ")";
    proof {
        reveal_strlit(")");
        lemma_encode_ascii_one(r@[0]);
        assert(r@ =~= seq![r@[0]]);
    }
    r
}

/// `"!"`
fn bang_text() -> (r: &'static str)
    ensures
        r.spec_bytes() == seq![BANG],
{
    let r = "!";
    proof {
        reveal_strlit("!");
        lemma_encode_ascii_one(r@[0]);
        assert(r@ =~= seq![r@[0]]);
    }
    r
}

/// A line break that ends a line and leaves the next one blank.
fn blank_line_text() -> (r: &'static str)
    ensures
        r.spec_bytes() == seq![NEWLINE, NEWLINE],
{
    let r = "\n\n";
    proof {
        reveal_strlit("\n\n");
        lemma_encode_ascii_pair(r@[0], r@[1]);
        assert(r@ =~= seq![r@[0], r@[1]]);
    }
    r
}

/// Whether `token` is `BREAKING CHANGE`, in this exact case.
fn is_breaking_token(token: &str) -> (r: bool)
    ensures
        r == (token.spec_bytes() == breaking_token()),
{
    let b = token.as_bytes();
    assert(breaking_token().len() == 15);
    if b.len() != 15 {
        return false;
    }
    let r = breaking_token_at(b, 0);
    assert(b@.subrange(0, 15) =~= b@);
    r
}

/// Whether some footer has the token `BREAKING CHANGE`.
fn any_breaking(trailers: &Vec<Footer>) -> (r: bool)
    ensures
        r == has_breaking_footer(trailers@.map_values(|f: Footer| f@)),
{
    let ghost views = trailers@.map_values(|f: Footer| f@);
    let mut i: usize = 0;
    while i < trailers.len()
        invariant
            i <= trailers@.len(),
            views == trailers@.map_values(|f: Footer| f@),
            forall|k: int| 0 <= k < i ==> #[trigger] views[k].token != breaking_token(),
        decreases trailers@.len() - i,
    {
        if is_breaking_token(trailers[i].token().as_str()) {
            assert(views[i as int].token == breaking_token());
            return true;
        }
        i = i + 1;
    }
    false
}

/// The footers of the message `string` (with bytes `b`) from position `f` on.
fn collect_footers<'a>(string: &'a str, b: &[u8], f: usize) -> (r: Vec<Footer<'a>>)
    requires
        b@ == string.spec_bytes(),
        f <= b@.len(),
        f == b@.len() || (f > 0 && b@[f - 1] == NEWLINE),
    ensures
        r@.map_values(|x: Footer<'a>| x@) == footers_from(b@, f as int).map_values(
            |x: FooterSpan| footer_of(b@, x),
        ),
{
    let ghost all = footers_from(b@, f as int);
    let mut out: Vec<Footer<'a>> = Vec::new();
    let mut q = f;
    let mut cur = find_footer(b, q);
    while cur.is_some()
        invariant
            b@ == string.spec_bytes(),
            b@.len() == b.len(),
            q <= b@.len(),
            q == b@.len() || (q > 0 && b@[q - 1] == NEWLINE),
            match cur {
                Some((te, sep)) => footer_at(b@, q as int) == Some((te as int, sep)) && q < te
                    && te + 2 <= b@.len() && b@[te as int] < 0x80 && b@[te + 1] < 0x80,
                None => footer_at(b@, q as int) is None,
            },
            out@.len() <= all.len(),
            footers_from(b@, q as int) == all.subrange(out@.len() as int, all.len() as int),
            forall|k: int| 0 <= k < out@.len() ==> #[trigger] out@[k]@ == footer_of(b@, all[k]),
        decreases b@.len() - q,
    {
        let (te, sep) = cur.unwrap();
        let v = te + 2;
        let n = find_next_footer(b, v);
        let ve = find_trim_end(b, v, n);
        let token = FooterToken::new(slice(string, q, te));
        let value = FooterValue::new(slice(string, v, ve));
        let footer = Footer::new(token, sep, value);
        let ghost k = out@.len() as int;
        proof {
            let span = FooterSpan {
                start: q as int,
                token_end: te as int,
                separator: sep,
                value_start: v as int,
                value_end: ve as int,
            };
            let here = footers_from(b@, q as int);
            assert(here == seq![span] + footers_from(b@, n as int));
            assert(here.len() >= 1);
            assert(all[k] == here[0]);
            assert(footers_from(b@, n as int) =~= here.subrange(1, here.len() as int));
            assert(footers_from(b@, n as int) =~= all.subrange(k + 1, all.len() as int));
            assert(footer@ == footer_of(b@, all[k]));
        }
        out.push(footer);
        q = n;
        cur = find_footer(b, q);
    }
    proof {
        assert(footers_from(b@, q as int).len() == 0);
        assert(out@.map_values(|x: Footer<'a>| x@) =~= all.map_values(|x: FooterSpan| footer_of(b@, x)));
    }
    out
}

impl<'a> Commit<'a> {
    /// Recognizes the message `string` as a conventional commit, whose parts
    /// are borrowed from `string`.
    ///
    /// # Errors
    ///
    /// An error, with its kind and the byte offset at which it was found,
    /// when the message does not follow the grammar.
    pub fn new(string: &'a str) -> (r: Result<Commit<'a>, Error>)
        ensures
            match parse(string.spec_bytes()) {
                Ok(v) => r matches Ok(c) && c@ == v,
                Err((kind, offset)) => r matches Err(e) && e.kind == kind && e.offset == offset,
            },
    {
        let b = string.as_bytes();
        let ghost s = b@;
        let len = b.len();
        let he = find_line_end(b, 0);
        let te = find_type_end(b, 0);
        if te == 0 {
            return Err(Error::new(ErrorKind::MissingType, 0));
        }
        let has_scope = te < len && b[te] == OPEN;
        let mut p = te;
        let mut scope: Option<Scope<'a>> = None;
        if has_scope {
            let se = find_scope_end(b, te + 1);
            if se == te + 1 {
                return Err(Error::new(ErrorKind::InvalidScope, te + 1));
            }
            if !(se < len && b[se] == CLOSE) {
                return Err(Error::new(ErrorKind::InvalidScope, se));
            }
            scope = Some(Scope::new(slice(string, te + 1, se)));
            p = se + 1;
        }
        let bang = p < len && b[p] == BANG;
        let q = if bang {
            p + 1
        } else {
            p
        };
        if !(q < len && q + 1 < len && b[q] == COLON && b[q + 1] == SPACE) {
            return Err(Error::new(ErrorKind::MissingSeparator, q));
        }
        let d = q + 2;
        if d >= he || find_space(b, d) {
            return Err(Error::new(ErrorKind::MissingDescription, d));
        }
        let ty = Type::new(slice(string, 0, te));
        let description = Description::new(slice(string, d, he));
        let mut body: Option<Body<'a>> = None;
        let mut trailers: Vec<Footer<'a>> = Vec::new();
        let ghost f: int = len as int;
        if he < len && he + 1 < len {
            if b[he + 1] != NEWLINE {
                return Err(Error::new(ErrorKind::InvalidBody, he + 1));
            }
            let c = he + 2;
            let ff = find_first_footer(b, c, c);
            let be = find_trim_end(b, c, ff);
            if be > c {
                body = Some(Body::new(slice(string, c, be)));
            }
            trailers = collect_footers(string, b, ff);
            proof {
                f = ff as int;
            }
        }
        let breaking = bang || any_breaking(&trailers);
        let commit = Commit { ty, scope, description, body, breaking, trailers };
        proof {
            let span = recognize(s)->Ok_0;
            assert(span.footers == footers_from(s, f));
            assert(commit@.trailers =~= commit_of(s, span).trailers);
            assert(commit@ == commit_of(s, span));
        }
        Ok(commit)
    }


    /// The commit written back as text: the header, with `!` whenever the
    /// commit is breaking, then the body and each footer after a blank line.
    pub fn to_text(&self) -> (r: String)
        ensures
            encode_utf8(r@) == render(self@),
    {
        let mut out = String::new();
        proof {
            assert(encode_utf8(out@) =~= Seq::<u8>::empty());
        }
        push_text(&mut out, self.ty.as_str());
        if let Some(scope) = self.scope {
            push_text(&mut out, open_text());
            push_text(&mut out, scope.as_str());
            push_text(&mut out, close_text());
        }
        if self.breaking {
            push_text(&mut out, bang_text());
        }
        push_text(&mut out, FooterSeparator::ColonSpace.as_str());
        push_text(&mut out, self.description.as_str());
        let ghost head = encode_utf8(out@);
        proof {
            assert(head =~= header_text(self@.ty, self@.scope, self@.breaking, self@.description));
        }
        if let Some(body) = self.body {
            push_text(&mut out, blank_line_text());
            push_text(&mut out, body.as_str());
        }
        let ghost before = encode_utf8(out@);
        let ghost views = self@.trailers;
        let mut i: usize = 0;
        while i < self.trailers.len()
            invariant
                i <= self.trailers@.len(),
                views == self.trailers@.map_values(|f: Footer<'a>| f@),
                encode_utf8(out@) == before + footers_text(views.subrange(0, i as int)),
            decreases self.trailers@.len() - i,
        {
            let f = self.trailers[i];
            push_text(&mut out, blank_line_text());
            push_text(&mut out, f.token().as_str());
            push_text(&mut out, f.separator().as_str());
            push_text(&mut out, f.value().as_str());
            proof {
                let t = views.subrange(0, i + 1);
                assert(t.drop_last() =~= views.subrange(0, i as int));
                assert(t.last() == f@);
            }
            i = i + 1;
        }
        proof {
            assert(views.subrange(0, views.len() as int) =~= views);
            assert(encode_utf8(out@) =~= render(self@));
        }
        out
    }

    /// The type of the commit.
    pub fn type_component(&self) -> (r: Type<'a>)
        ensures
            r@ == self@.ty,
    {
        self.ty
    }

    /// The optional scope of the commit.
    pub fn scope_component(&self) -> (r: Option<Scope<'a>>)
        ensures
            match r {
                Some(x) => self@.scope == Some(x@),
                None => self@.scope is None,
            },
    {
        self.scope
    }

    /// The commit description.
    pub fn description_component(&self) -> (r: Description<'a>)
        ensures
            r@ == self@.description,
    {
        self.description
    }

    /// The commit body.
    pub fn body_component(&self) -> (r: Option<Body<'a>>)
        ensures
            match r {
                Some(x) => self@.body == Some(x@),
                None => self@.body is None,
            },
    {
        self.body
    }

    /// Whether the commit is a breaking change.
    pub fn is_breaking(&self) -> (r: bool)
        ensures
            r == self@.breaking,
    {
        self.breaking
    }

    /// The footers, in the order of the message.
    pub fn footers(&self) -> (r: &Vec<Footer<'a>>)
        ensures
            r@.map_values(|f: Footer<'a>| f@) == self@.trailers,
    {
        &self.trailers
    }
}

} // verus!
