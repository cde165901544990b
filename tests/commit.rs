use std::collections::HashSet;

use git_conventional::{
    Body, Commit, Description, ErrorKind, Footer, FooterSeparator, FooterToken, FooterValue,
    Scope, Simple, SimpleFooter, Type,
};

fn trailer_parts<'a>(c: &'a Commit<'a>) -> Vec<(String, String, String)> {
    c.trailers()
        .iter()
        .map(|t| (t.token().to_string(), t.separator().to_string(), t.value().to_string()))
        .collect()
}

#[test]
fn scenario_scoped_feature() {
    let c = Commit::new("feat(parser): add ability to parse arrays").unwrap();
    assert_eq!(c.type_(), "feat");
    assert_eq!(c.scope(), Some("parser"));
    assert!(!c.breaking());
    assert_eq!(c.description(), "add ability to parse arrays");
    assert_eq!(c.body(), None);
    assert!(c.trailers().is_empty());
}

#[test]
fn scenario_body_and_footers() {
    let msg = "fix: correct minor typos in code\n\nsee the issue for details\n\non typos fixed.\n\nReviewed-by: Z\nRefs #133";
    let c = Commit::new(msg).unwrap();
    assert_eq!(c.type_(), "fix");
    assert_eq!(c.scope(), None);
    assert!(!c.breaking());
    assert_eq!(c.description(), "correct minor typos in code");
    assert_eq!(c.body(), Some("see the issue for details\n\non typos fixed."));
    assert_eq!(
        trailer_parts(&c),
        vec![
            ("Reviewed-by".to_string(), ": ".to_string(), "Z".to_string()),
            ("Refs".to_string(), " #".to_string(), "133".to_string()),
        ]
    );
}

#[test]
fn scenario_header_marker() {
    let c = Commit::new("feat!: send an email to the customer when a product is shipped").unwrap();
    assert!(c.breaking());
    assert_eq!(c.type_(), "feat");
    assert_eq!(c.description(), "send an email to the customer when a product is shipped");
    assert!(c.trailers().is_empty());
}

#[test]
fn scenario_breaking_footer() {
    let msg = "chore: drop support for Node 6\n\nBREAKING CHANGE: use JavaScript features not available in Node 6.";
    let c = Commit::new(msg).unwrap();
    assert!(c.breaking());
    assert_eq!(c.body(), None);
    assert_eq!(
        trailer_parts(&c),
        vec![(
            "BREAKING CHANGE".to_string(),
            ": ".to_string(),
            "use JavaScript features not available in Node 6.".to_string()
        )]
    );
}

#[test]
fn plain_header_has_nothing_else() {
    let c = Commit::new("docs: update readme").unwrap();
    assert_eq!(c.type_(), "docs");
    assert_eq!(c.scope(), None);
    assert_eq!(c.body(), None);
    assert!(!c.breaking());
    assert!(c.trailers().is_empty());
}

#[test]
fn scoped_marker_is_breaking() {
    let c = Commit::new("refactor(Core)!: drop the old api").unwrap();
    assert!(c.breaking());
    assert_eq!(c.scope(), Some("Core"));
    assert_eq!(c.scope_component(), Some(Scope::new("cORE")));
}

#[test]
fn round_trip_of_header() {
    let c = Commit::new("feat(api)!: add endpoint").unwrap();
    let text = c.to_text();
    assert_eq!(text, "feat(api)!: add endpoint");
    let again = Commit::new(&text).unwrap();
    assert_eq!(again.type_(), c.type_());
    assert_eq!(again.scope(), c.scope());
    assert_eq!(again.description(), c.description());
    assert_eq!(again.breaking(), c.breaking());
}

#[test]
fn to_text_writes_body_and_footers() {
    let msg = "fix: typo\n\nbody text\n\nRefs #1\nAcked-by: Y";
    let c = Commit::new(msg).unwrap();
    assert_eq!(c.to_text(), "fix: typo\n\nbody text\n\nRefs #1\n\nAcked-by: Y");
}

#[test]
fn parsing_twice_gives_equal_results() {
    let msg = "feat(x): y\n\nbody\n\nCloses #7";
    let a = Commit::new(msg).unwrap();
    let b = Commit::new(msg).unwrap();
    assert_eq!(a.type_component(), b.type_component());
    assert_eq!(a.scope(), b.scope());
    assert_eq!(a.description(), b.description());
    assert_eq!(a.body(), b.body());
    assert_eq!(a.breaking(), b.breaking());
    assert_eq!(trailer_parts(&a), trailer_parts(&b));
}

#[test]
fn case_variants_compare_equal() {
    let a = Commit::new("Type(Scope): d").unwrap();
    let b = Commit::new("type(scope): d").unwrap();
    let c = Commit::new("TYPE(SCOPE): d").unwrap();
    assert_eq!(a.type_component(), b.type_component());
    assert_eq!(b.type_component(), c.type_component());
    assert_eq!(a.scope_component(), c.scope_component());
    assert_eq!(a.type_(), "Type");
    assert_eq!(c.type_(), "TYPE");
}

#[test]
fn unicode_case_folding_for_types() {
    assert_eq!(Type::new("Straße"), Type::new("STRASSE"));
    assert_ne!(Type::new("feat"), Type::new("fix"));
}

#[test]
fn free_text_compares_exactly() {
    assert_eq!(Description::new("Fix it"), Description::new("Fix it"));
    assert_ne!(Description::new("Fix it"), Description::new("fix it"));
    assert_ne!(Body::new("A"), Body::new("a"));
    assert_ne!(FooterValue::new("Z"), FooterValue::new("z"));
}

#[test]
fn empty_description_fails() {
    let e = Commit::new("feat: ").unwrap_err();
    assert_eq!(e.kind(), ErrorKind::MissingDescription);
    assert_eq!(e.offset(), 6);
}

#[test]
fn whitespace_description_fails() {
    let e = Commit::new("feat:    ").unwrap_err();
    assert_eq!(e.kind(), ErrorKind::MissingDescription);
}

#[test]
fn empty_input_fails() {
    let e = Commit::new("").unwrap_err();
    assert_eq!(e.kind(), ErrorKind::MissingType);
    assert_eq!(e.offset(), 0);
}

#[test]
fn missing_separator_fails() {
    let e = Commit::new("feat:no space").unwrap_err();
    assert_eq!(e.kind(), ErrorKind::MissingSeparator);
    assert_eq!(e.offset(), 4);
    let e = Commit::new("feat add thing").unwrap_err();
    assert_eq!(e.kind(), ErrorKind::MissingSeparator);
}

#[test]
fn empty_scope_fails() {
    let e = Commit::new("feat(): d").unwrap_err();
    assert_eq!(e.kind(), ErrorKind::InvalidScope);
    assert_eq!(e.offset(), 5);
}

#[test]
fn unclosed_scope_fails() {
    let e = Commit::new("feat(api: d").unwrap_err();
    assert_eq!(e.kind(), ErrorKind::InvalidScope);
    assert_eq!(e.offset(), 11);
}

#[test]
fn body_without_blank_line_fails() {
    let e = Commit::new("feat: d\nmore").unwrap_err();
    assert_eq!(e.kind(), ErrorKind::InvalidBody);
    assert_eq!(e.offset(), 8);
}

#[test]
fn trailing_newline_is_accepted() {
    let c = Commit::new("feat: d\n").unwrap();
    assert_eq!(c.description(), "d");
    assert_eq!(c.body(), None);
}

#[test]
fn footer_value_spans_lines() {
    let msg = "feat: d\n\nBREAKING CHANGE: first line\nsecond line\nthird\nRefs #4";
    let c = Commit::new(msg).unwrap();
    assert_eq!(
        trailer_parts(&c),
        vec![
            (
                "BREAKING CHANGE".to_string(),
                ": ".to_string(),
                "first line\nsecond line\nthird".to_string()
            ),
            ("Refs".to_string(), " #".to_string(), "4".to_string()),
        ]
    );
}

#[test]
fn footer_like_line_inside_body_paragraph_stays_body() {
    let msg = "feat: d\n\nintro\nNote: not a footer\n\nAcked-by: X";
    let c = Commit::new(msg).unwrap();
    assert_eq!(c.body(), Some("intro\nNote: not a footer"));
    assert_eq!(trailer_parts(&c).len(), 1);
}

#[test]
fn lowercase_breaking_token_is_not_breaking() {
    let c = Commit::new("feat: d\n\nbreaking-change: x").unwrap();
    assert!(!c.breaking());
    assert_eq!(trailer_parts(&c)[0].0, "breaking-change");
}

#[test]
fn body_keeps_inner_blank_lines() {
    let c = Commit::new("feat: d\n\na\n\n\nb\n").unwrap();
    assert_eq!(c.body(), Some("a\n\n\nb"));
}

#[test]
fn non_ascii_text_is_sliced_whole() {
    let c = Commit::new("füx(ünï): ändern ✓\n\nKörper\n\nGesehen-von: Jürgen").unwrap();
    assert_eq!(c.type_(), "füx");
    assert_eq!(c.scope(), Some("ünï"));
    assert_eq!(c.description(), "ändern ✓");
    assert_eq!(c.body(), Some("Körper"));
    assert_eq!(trailer_parts(&c)[0].2, "Jürgen");
}

#[test]
fn separator_literals() {
    assert_eq!(FooterSeparator::ColonSpace.as_str(), ": ");
    assert_eq!(FooterSeparator::SpacePound.as_str(), " #");
    assert_eq!(": ".parse::<FooterSeparator>().unwrap(), FooterSeparator::ColonSpace);
    assert_eq!(FooterSeparator::from_literal(" #").unwrap(), FooterSeparator::SpacePound);
    let e = FooterSeparator::from_literal(":").unwrap_err();
    assert_eq!(e.kind(), ErrorKind::InvalidFormat);
}

#[test]
fn footer_accessors() {
    let f = Footer::new(
        FooterToken::new("Reviewed-by"),
        FooterSeparator::ColonSpace,
        FooterValue::new("Z"),
    );
    assert_eq!(f.token(), FooterToken::new("reviewed-BY"));
    assert_eq!(f.token().as_str(), "Reviewed-by");
    assert_eq!(f.separator(), FooterSeparator::ColonSpace);
    assert_eq!(f.value().as_str(), "Z");
    let s = SimpleFooter::new(f);
    assert_eq!(s.token(), "Reviewed-by");
    assert_eq!(s.separator(), ": ");
    assert_eq!(s.value(), "Z");
}

#[test]
fn caseless_components_hash_alike() {
    let mut set = HashSet::new();
    set.insert(Type::new("Feat"));
    assert!(set.contains(&Type::new("FEAT")));
    assert!(!set.contains(&Type::new("fix")));
    let mut tokens = HashSet::new();
    tokens.insert(FooterToken::new("Reviewed-By"));
    assert!(tokens.contains(&FooterToken::new("reviewed-by")));
}

#[test]
fn components_from_str() {
    let t: Type = "feat".into();
    assert_eq!(t.as_str(), "feat");
    let d: Description = "text".into();
    assert_eq!(d, Description::new("text"));
    assert_eq!(
        FooterSeparator::try_from(" #").unwrap(),
        FooterSeparator::SpacePound
    );
    assert!(FooterSeparator::try_from(" # ").is_err());
}

#[test]
fn error_messages_are_given() {
    let e = Commit::new("(x): y").unwrap_err();
    assert_eq!(e.kind(), ErrorKind::MissingType);
    assert_eq!(e.message(), "missing commit type");
}

#[test]
fn form_feed_description_fails() {
    let e = Commit::new("feat: \x0c").unwrap_err();
    assert_eq!(e.kind(), ErrorKind::MissingDescription);
    assert_eq!(e.offset(), 6);
}

#[test]
fn vertical_tab_ends_type() {
    let e = Commit::new("fe\x0bat: d").unwrap_err();
    assert_eq!(e.kind(), ErrorKind::MissingSeparator);
    assert_eq!(e.offset(), 2);
}

#[test]
fn form_feed_ends_footer_token() {
    let c = Commit::new("feat: d\n\nsee\x0cthis: x").unwrap();
    assert!(c.trailers().is_empty());
    assert_eq!(c.body(), Some("see\x0cthis: x"));
}

#[test]
fn footers_compare_by_caseless_token() {
    let a = Footer::new(FooterToken::new("Refs"), FooterSeparator::SpacePound, FooterValue::new("1"));
    let b = Footer::new(FooterToken::new("REFS"), FooterSeparator::SpacePound, FooterValue::new("1"));
    let c = Footer::new(FooterToken::new("Refs"), FooterSeparator::ColonSpace, FooterValue::new("1"));
    let d = Footer::new(FooterToken::new("Refs"), FooterSeparator::SpacePound, FooterValue::new("2"));
    assert_eq!(a, b);
    assert_ne!(a, c);
    assert_ne!(a, d);
    let mut set = HashSet::new();
    set.insert(a);
    assert!(set.contains(&b));
    assert!(!set.contains(&d));
    assert_eq!(SimpleFooter::new(a), SimpleFooter::new(b));
    assert_ne!(SimpleFooter::new(a), SimpleFooter::new(c));
}

#[test]
fn separator_text_round_trips() {
    for sep in [FooterSeparator::ColonSpace, FooterSeparator::SpacePound] {
        let text: &'static str = sep.into();
        assert_eq!(text, sep.as_str());
        assert_eq!(sep.as_ref(), text);
        assert_eq!(text.parse::<FooterSeparator>().unwrap(), sep);
        assert_eq!(FooterSeparator::try_from(text).unwrap(), sep);
    }
    for bad in ["", ":", "#", ": #", " # ", ":  ", " :", "# ", "#:"] {
        let e = bad.parse::<FooterSeparator>().unwrap_err();
        assert_eq!(e.kind(), ErrorKind::InvalidFormat);
    }
}

#[test]
fn unicode_space_description_fails() {
    let e = Commit::new("feat: \u{a0}text").unwrap_err();
    assert_eq!(e.kind(), ErrorKind::MissingDescription);
    assert_eq!(e.offset(), 6);
    let e = Commit::new("feat: \u{3000}").unwrap_err();
    assert_eq!(e.kind(), ErrorKind::MissingDescription);
}

#[test]
fn unicode_space_ends_type() {
    let e = Commit::new("fe\u{2003}at: d").unwrap_err();
    assert_eq!(e.kind(), ErrorKind::MissingSeparator);
    assert_eq!(e.offset(), 2);
    let c = Commit::new("f\u{e9}at: d\u{a0}e").unwrap();
    assert_eq!(c.type_(), "f\u{e9}at");
    assert_eq!(c.description(), "d\u{a0}e");
}

#[test]
fn unicode_space_ends_footer_token() {
    let c = Commit::new("feat: d\n\nsee\u{85}this: x").unwrap();
    assert!(c.trailers().is_empty());
    let c = Commit::new("feat: d\n\nAck\u{2028}ed: x\n\nAcked: y").unwrap();
    assert_eq!(c.body(), Some("Ack\u{2028}ed: x"));
    assert_eq!(trailer_parts(&c)[0].0, "Acked");
}
