//! Properties of recognition that hold for whole families of messages.

use vstd::prelude::*;

use crate::commit::{has_breaking_footer, header_text, parse, render, CommitView};
use crate::component::{FooterSeparator, FooterView, all_ascii, ascii_caseless_eq, caseless_eq};
use crate::error::ErrorKind;
use crate::grammar::{
    breaking_token, first_footer, footer_at, footers_from, lemma_no_footer_line, trim_end, FooterSpan, is_scope_byte, is_space, is_type_byte, space_at, type_at, type_end, lemma_line_end, lemma_line_end_bytes, lemma_scope_end,
    lemma_scope_end_bytes, lemma_type_end, lemma_type_end_bytes, recognize,
};
use crate::text::{BANG, CLOSE, COLON, NEWLINE, OPEN, SPACE};

verus! {

/// A valid commit type: non-empty, without whitespace or `( ) ! :`.
pub open spec fn is_type_text(t: Seq<u8>) -> bool {
    t.len() > 0 && forall|i: int| 0 <= i < t.len() ==> #[trigger] type_at(t, i)
}

/// A valid scope: non-empty, without `)` or a newline.
pub open spec fn is_scope_text(sc: Seq<u8>) -> bool {
    sc.len() > 0 && forall|i: int| 0 <= i < sc.len() ==> is_scope_byte(#[trigger] sc[i])
}

/// A valid description: one line that starts with a byte other than whitespace.
pub open spec fn is_description_text(d: Seq<u8>) -> bool {
    &&& d.len() > 0
    &&& !space_at(d, 0)
    &&& forall|i: int| 0 <= i < d.len() ==> #[trigger] d[i] != NEWLINE
}

/// A valid type followed by an ASCII byte that is no type byte is read as
/// the type of the text.
proof fn lemma_type_prefix(s: Seq<u8>, t: Seq<u8>)
    requires
        is_type_text(t),
        t.len() < s.len(),
        s.subrange(0, t.len() as int) == t,
        s[t.len() as int] < 0x80,
        !is_type_byte(s[t.len() as int]),
    ensures
        type_end(s, 0) == t.len(),
{
    let n = t.len() as int;
    assert forall|j: int| 0 <= j < n implies s[j] == t[j] by {
        assert(s.subrange(0, n)[j] == s[j]);
    }
    assert forall|k: int| 0 <= k < n implies #[trigger] type_at(s, k) by {
        assert(type_at(t, k));
    }
    lemma_type_end(s, 0, n);
}

/// A valid description at `at`, followed by the end or an ASCII byte, has no
/// whitespace at its start within the text.
proof fn lemma_description_start(s: Seq<u8>, d: Seq<u8>, at: int)
    requires
        is_description_text(d),
        0 <= at,
        at + d.len() <= s.len(),
        s.subrange(at, at + d.len()) == d,
        at + d.len() == s.len() || s[at + d.len()] < 0x80,
    ensures
        !space_at(s, at),
{
    assert forall|j: int| 0 <= j < d.len() implies s[at + j] == d[j] by {
        assert(s.subrange(at, at + d.len())[j] == s[at + j]);
    }
}

/// A header of valid parts, alone, is read back as exactly those parts.
pub proof fn lemma_parse_header(t: Seq<u8>, scope: Option<Seq<u8>>, bang: bool, d: Seq<u8>)
    requires
        is_type_text(t),
        scope matches Some(sc) ==> is_scope_text(sc),
        is_description_text(d),
    ensures
        parse(header_text(t, scope, bang, d)) == Ok::<CommitView, (ErrorKind, int)>(
            CommitView {
                ty: t,
                scope,
                description: d,
                body: None,
                breaking: bang,
                trailers: Seq::empty(),
            },
        ),
{
    let s = header_text(t, scope, bang, d);
    let sc_len: int = match scope {
        Some(sc) => sc.len() as int + 2,
        None => 0,
    };
    let te = t.len() as int;
    let p = te + sc_len;
    let q = if bang {
        p + 1
    } else {
        p
    };
    let dd = q + 2;
    assert(s.len() == dd + d.len());
    assert(s.subrange(0, te) =~= t);
    lemma_type_prefix(s, t);
    assert(s.subrange(dd, dd + d.len()) =~= d);
    lemma_description_start(s, d, dd);
    assert forall|k: int| 0 <= k < s.len() implies #[trigger] s[k] != NEWLINE by {
        if k < te {
            assert(s[k] == t[k]);
            assert(type_at(t, k));
        } else if k >= dd {
            assert(s[k] == d[k - dd]);
        } else if let Some(sc) = scope {
            if te < k < te + sc.len() + 1 {
                assert(s[k] == sc[k - te - 1]);
            }
        }
    }
    lemma_line_end(s, 0, s.len() as int);
    if let Some(sc) = scope {
        assert forall|k: int| te + 1 <= k < te + 1 + sc.len() implies is_scope_byte(
            #[trigger] s[k],
        ) by {
            assert(s[k] == sc[k - te - 1]);
        }
        lemma_scope_end(s, te + 1, te + 1 + sc.len());
    }
    assert(s[dd] == d[0]);
    assert(recognize(s) is Ok);
    let v = parse(s)->Ok_0;
    assert(v.ty =~= t);
    assert(v.description =~= d);
    if let Some(sc) = scope {
        assert(v.scope->Some_0 =~= sc);
    }
    assert(v.trailers =~= Seq::empty());
}

/// A header `type: description` is read with no scope, no body, no footers,
/// and as not breaking.
pub proof fn law_plain_header(t: Seq<u8>, d: Seq<u8>)
    requires
        is_type_text(t),
        is_description_text(d),
    ensures
        parse(t + seq![COLON, SPACE] + d) matches Ok(v) && v.ty == t && v.scope is None
            && v.description == d && v.body is None && !v.breaking && v.trailers.len() == 0,
{
    assert(header_text(t, None, false, d) =~= t + seq![COLON, SPACE] + d);
    lemma_parse_header(t, None, false, d);
}

/// A header `type(scope)!: description` is read as breaking, with a scope
/// that equals, ignoring case, every ASCII rendering of the given scope that
/// differs from it in case alone.
pub proof fn law_breaking_scoped_header(t: Seq<u8>, sc: Seq<u8>, other: Seq<u8>, d: Seq<u8>)
    requires
        is_type_text(t),
        is_scope_text(sc),
        is_description_text(d),
        all_ascii(sc),
        ascii_caseless_eq(sc, other),
    ensures
        parse(t + seq![OPEN] + sc + seq![CLOSE, BANG, COLON, SPACE] + d) matches Ok(v) && v.breaking
            && v.ty == t && v.scope == Some(sc) && caseless_eq(sc, other),
{
    assert(header_text(t, Some(sc), true, d) =~= t + seq![OPEN] + sc + seq![CLOSE, BANG, COLON, SPACE]
        + d);
    lemma_parse_header(t, Some(sc), true, d);
    assert forall|i: int| 0 <= i < other.len() implies #[trigger] other[i] < 0x80 by {
        assert(sc[i] < 0x80);
    }
}

/// A commit read without body and footers, written back as text, is read
/// again as the same commit.
pub proof fn law_round_trip(s: Seq<u8>)
    requires
        parse(s) matches Ok(v) && v.body is None && v.trailers.len() == 0,
    ensures
        parse(render(parse(s)->Ok_0)) == parse(s),
{
    let v = parse(s)->Ok_0;
    let span = recognize(s)->Ok_0;
    assert(render(v) =~= header_text(v.ty, v.scope, v.breaking, v.description));
    lemma_type_end_bytes(s, 0);
    lemma_line_end_bytes(s, 0);
    let te = span.type_end;
    assert forall|k: int| 0 <= k < v.ty.len() implies #[trigger] type_at(v.ty, k) by {
        assert(type_at(s, k));
    }
    assert(is_type_text(v.ty));
    if span.scope is Some {
        lemma_scope_end_bytes(s, te + 1);
        assert(is_scope_text(v.scope->Some_0));
    }
    let (d, he) = span.description;
    assert(is_description_text(v.description)) by {
        assert(v.description[0] == s[d]);
        assert(!space_at(s, d));
        assert forall|i: int| 0 <= i < v.description.len() implies #[trigger] v.description[i]
            != NEWLINE by {
            assert(v.description[i] == s[d + i]);
        }
    }
    assert(!has_breaking_footer(v.trailers));
    lemma_parse_header(v.ty, v.scope, v.breaking, v.description);
    assert(v.trailers =~= Seq::<FooterView>::empty());
    assert(v == CommitView {
        ty: v.ty,
        scope: v.scope,
        description: v.description,
        body: None,
        breaking: v.breaking,
        trailers: Seq::empty(),
    });
}

/// Recognition is a function of the text alone: equal texts are read alike.
pub proof fn law_parse_deterministic(s1: Seq<u8>, s2: Seq<u8>)
    requires
        s1 == s2,
    ensures
        parse(s1) == parse(s2),
{
}

/// A `BREAKING CHANGE` footer makes a commit breaking, with or without the
/// header's `!`; and a breaking commit has the one or the other.
pub proof fn law_breaking_footer(s: Seq<u8>)
    requires
        parse(s) is Ok,
    ensures
        has_breaking_footer(parse(s)->Ok_0.trailers) ==> parse(s)->Ok_0.breaking,
        parse(s)->Ok_0.breaking <==> (recognize(s)->Ok_0.bang || has_breaking_footer(
            parse(s)->Ok_0.trailers,
        )),
{
}

/// Headers that differ in the ASCII case of their type and scope alone are
/// read with types and scopes that compare equal, and the same description.
pub proof fn law_caseless_header(t1: Seq<u8>, t2: Seq<u8>, sc1: Seq<u8>, sc2: Seq<u8>, d: Seq<u8>)
    requires
        is_type_text(t1),
        is_type_text(t2),
        is_scope_text(sc1),
        is_scope_text(sc2),
        is_description_text(d),
        all_ascii(t1),
        all_ascii(sc1),
        ascii_caseless_eq(t1, t2),
        ascii_caseless_eq(sc1, sc2),
    ensures
        parse(header_text(t1, Some(sc1), false, d)) matches Ok(v1) && parse(
            header_text(t2, Some(sc2), false, d),
        ) matches Ok(v2) && caseless_eq(v1.ty, v2.ty) && caseless_eq(
            v1.scope->Some_0,
            v2.scope->Some_0,
        ) && v1.description == v2.description,
{
    lemma_parse_header(t1, Some(sc1), false, d);
    lemma_parse_header(t2, Some(sc2), false, d);
    assert forall|i: int| 0 <= i < t2.len() implies #[trigger] t2[i] < 0x80 by {
        assert(t1[i] < 0x80);
    }
    assert forall|i: int| 0 <= i < sc2.len() implies #[trigger] sc2[i] < 0x80 by {
        assert(sc1[i] < 0x80);
    }
}

/// A header with nothing after `": "` is rejected for its missing
/// description, at the end of the text.
pub proof fn law_empty_description(t: Seq<u8>)
    requires
        is_type_text(t),
    ensures
        parse(t + seq![COLON, SPACE]) == Err::<CommitView, (ErrorKind, int)>(
            (ErrorKind::MissingDescription, t.len() as int + 2),
        ),
{
    let s = t + seq![COLON, SPACE];
    assert(s.subrange(0, t.len() as int) =~= t);
    lemma_type_prefix(s, t);
    assert forall|k: int| 0 <= k < s.len() implies #[trigger] s[k] != NEWLINE by {
        if k < t.len() {
            assert(s[k] == t[k]);
            assert(type_at(t, k));
        }
    }
    lemma_line_end(s, 0, s.len() as int);
}

/// A message whose header has no `!` and whose footer block, right after
/// the header, is a single `BREAKING CHANGE` footer is read as breaking, with
/// that footer, its one-line value, and no body.
pub proof fn law_breaking_change_footer(
    t: Seq<u8>,
    scope: Option<Seq<u8>>,
    d: Seq<u8>,
    value: Seq<u8>,
)
    requires
        is_type_text(t),
        scope matches Some(sc) ==> is_scope_text(sc),
        is_description_text(d),
        forall|i: int| 0 <= i < value.len() ==> #[trigger] value[i] != NEWLINE,
    ensures
        parse(
            header_text(t, scope, false, d) + seq![NEWLINE, NEWLINE] + breaking_token() + seq![
                COLON,
                SPACE,
            ] + value,
        ) matches Ok(v) && v.breaking && v.ty == t && v.scope == scope && v.description == d
            && v.body is None && v.trailers == seq![
            FooterView {
                token: breaking_token(),
                separator: FooterSeparator::ColonSpace,
                value,
            },
        ],
{
    let h = header_text(t, scope, false, d);
    let s = h + seq![NEWLINE, NEWLINE] + breaking_token() + seq![COLON, SPACE] + value;
    let sc_len: int = match scope {
        Some(sc) => sc.len() as int + 2,
        None => 0,
    };
    let te = t.len() as int;
    let dd = te + sc_len + 2;
    let he = h.len() as int;
    let c = he + 2;
    let v0 = c + 17;
    assert(breaking_token().len() == 15);
    assert(he == dd + d.len());
    assert(s.len() == v0 + value.len());
    assert forall|k: int| 0 <= k < he implies s[k] == h[k] by {}
    assert(s.subrange(0, te) =~= t);
    lemma_type_prefix(s, t);
    assert(s.subrange(dd, dd + d.len()) =~= d);
    lemma_description_start(s, d, dd);
    assert forall|k: int| 0 <= k < he implies #[trigger] s[k] != NEWLINE by {
        if k < te {
            assert(s[k] == t[k]);
            assert(type_at(t, k));
        } else if k >= dd {
            assert(s[k] == d[k - dd]);
        } else if let Some(sc) = scope {
            if te < k < te + sc.len() + 1 {
                assert(s[k] == sc[k - te - 1]);
            }
        }
    }
    lemma_line_end(s, 0, he);
    if let Some(sc) = scope {
        assert forall|k: int| te + 1 <= k < te + 1 + sc.len() implies is_scope_byte(
            #[trigger] s[k],
        ) by {
            assert(s[k] == sc[k - te - 1]);
        }
        lemma_scope_end(s, te + 1, te + 1 + sc.len());
    }
    assert(s[dd] == d[0]);
    assert(s.subrange(c, c + 15) =~= breaking_token());
    assert(footer_at(s, c) == Some((c + 15, FooterSeparator::ColonSpace)));
    assert(first_footer(s, c, c) == c);
    assert forall|k: int| v0 - 1 <= k < s.len() implies #[trigger] s[k] != NEWLINE by {
        if k >= v0 {
            assert(s[k] == value[k - v0]);
        }
    }
    lemma_no_footer_line(s, v0);
    if value.len() > 0 {
        assert(s[s.len() - 1] == value[value.len() - 1]);
    }
    assert(trim_end(s, v0, s.len() as int) == s.len());
    assert(footers_from(s, s.len() as int) =~= Seq::<FooterSpan>::empty());
    let span = recognize(s)->Ok_0;
    assert(recognize(s) is Ok);
    assert(span.footers =~= seq![
        FooterSpan {
            start: c,
            token_end: c + 15,
            separator: FooterSeparator::ColonSpace,
            value_start: v0,
            value_end: s.len() as int,
        },
    ]);
    let v = parse(s)->Ok_0;
    assert(v.ty =~= t);
    assert(v.description =~= d);
    if let Some(sc) = scope {
        assert(v.scope->Some_0 =~= sc);
    }
    assert(v.trailers[0].token =~= breaking_token());
    assert(v.trailers[0].value =~= value);
    assert(v.trailers =~= seq![
        FooterView { token: breaking_token(), separator: FooterSeparator::ColonSpace, value },
    ]);
    assert(has_breaking_footer(v.trailers));
}

} // verus!
