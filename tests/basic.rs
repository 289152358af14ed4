use hteaml::{hteaml, Html, Render, Slot, Token};
use std::borrow::Cow;

fn read<'a>(tokens: &Vec<Token<'a>>, slots: &Vec<Slot<'a>>) -> Html<'a> {
    hteaml(tokens, slots).unwrap()
}

#[test]
fn basic_tag() {
    let toks = vec![Token::Open, Token::Ident("mytag"), Token::Equals, Token::Literal(""), Token::Close];
    let tag = read(&toks, &vec![]);
    assert_eq!(tag.render(), Ok("<mytag></mytag>".into()));
}

#[test]
fn tag_attrs() {
    let toks = vec![
        Token::Open,
        Token::Ident("mytag"),
        Token::Ident("hello"),
        Token::Colon,
        Token::Ident("world"),
        Token::Equals,
        Token::Literal(""),
        Token::Close,
    ];
    let tag = read(&toks, &vec![]);
    assert_eq!(tag.render(), Ok(r#"<mytag hello="world"></mytag>"#.into()));
}

#[test]
fn tag_attr_multi() {
    let toks = vec![
        Token::Open,
        Token::Ident("mytag"),
        Token::Ident("hello"),
        Token::Colon,
        Token::Ident("world"),
        Token::Ident("key"),
        Token::Colon,
        Token::Ident("value"),
        Token::Equals,
        Token::Literal(""),
        Token::Close,
    ];
    let tag = read(&toks, &vec![]);
    assert_eq!(
        tag.render(),
        Ok(r#"<mytag hello="world" key="value"></mytag>"#.into())
    );
}

#[test]
fn tag_content() {
    let toks = vec![
        Token::Open,
        Token::Ident("mytag"),
        Token::Ident("hello"),
        Token::Colon,
        Token::Ident("world"),
        Token::Equals,
        Token::Literal("content"),
        Token::Close,
    ];
    let tag = read(&toks, &vec![]);
    assert_eq!(
        tag.render(),
        Ok(r#"<mytag hello="world">content</mytag>"#.into())
    );
}

#[test]
fn tag_dyn_content() {
    let x = String::from("dynamic");
    let toks = vec![
        Token::Open,
        Token::Ident("mytag"),
        Token::Ident("hello"),
        Token::Colon,
        Token::Ident("world"),
        Token::Equals,
        Token::Slot(0),
        Token::Close,
    ];
    let slots = vec![Slot::Text(Cow::Owned(x + " content"))];
    let tag = read(&toks, &slots);
    assert_eq!(
        tag.render(),
        Ok(r#"<mytag hello="world">dynamic content</mytag>"#.into())
    );
}

#[test]
fn tag_nested() {
    let toks = vec![
        Token::Open,
        Token::Ident("mytag"),
        Token::Ident("hello"),
        Token::Colon,
        Token::Ident("world"),
        Token::Open,
        Token::Ident("tag2"),
        Token::Equals,
        Token::Literal("content"),
        Token::Close,
        Token::Close,
    ];
    let tag = read(&toks, &vec![]);
    assert_eq!(
        tag.render(),
        Ok(r#"<mytag hello="world"><tag2>content</tag2></mytag>"#.into())
    );
}

#[test]
fn self_closing() {
    let toks = vec![Token::Open, Token::Ident("mytag"), Token::Close];
    let tag = read(&toks, &vec![]);
    assert_eq!(tag.render(), Ok("<mytag>".into()));
}

#[test]
fn self_closing_with_attrs() {
    let toks = vec![
        Token::Open,
        Token::Ident("mytag"),
        Token::Ident("hello"),
        Token::Colon,
        Token::Ident("world"),
        Token::Close,
    ];
    let tag = read(&toks, &vec![]);
    assert_eq!(tag.render(), Ok(r#"<mytag hello="world">"#.into()));
}

#[test]
fn multi_tag() {
    let toks = vec![
        Token::Open,
        Token::Literal("!DOCTYPE"),
        Token::Ident("html"),
        Token::Close,
        Token::Open,
        Token::Ident("p"),
        Token::Equals,
        Token::Literal("hello"),
        Token::Close,
    ];
    let html = read(&toks, &vec![]);
    assert_eq!(html.render(), Ok("<!DOCTYPE html><p>hello</p>".into()))
}

#[test]
fn basic_html_doc() {
    let toks = vec![
        Token::Open,
        Token::Literal("!DOCTYPE"),
        Token::Ident("html"),
        Token::Close,
        Token::Open,
        Token::Ident("head"),
        Token::Open,
        Token::Ident("title"),
        Token::Equals,
        Token::Literal("Html Doc"),
        Token::Close,
        Token::Close,
        Token::Open,
        Token::Ident("body"),
        Token::Open,
        Token::Ident("p"),
        Token::Equals,
        Token::Literal("hello world"),
        Token::Close,
        Token::Open,
        Token::Ident("p"),
        Token::Equals,
        Token::Literal("this is hteaml"),
        Token::Close,
        Token::Close,
    ];
    let doc = read(&toks, &vec![]);
    assert_eq!(
        doc.render(),
        Ok(
            r#"<!DOCTYPE html><head><title>Html Doc</title></head><body><p>hello world</p><p>this is hteaml</p></body>"#
                .into()
        )
    );
}

#[test]
fn hteaml_inside_hteaml() {
    let x = String::from("string");
    let inner_toks = vec![Token::Open, Token::Ident("tag2"), Token::Equals, Token::Slot(0), Token::Close];
    let inner = read(&inner_toks, &vec![Slot::Text(Cow::Borrowed(&x))]);
    let toks = vec![Token::Open, Token::Ident("tag"), Token::Equals, Token::Slot(0), Token::Close];
    let html = read(&toks, &vec![Slot::Html(inner)]);
    assert_eq!(html.render(), Ok("<tag><tag2>string</tag2></tag>".into()));
}

#[test]
fn top_level_expr() {
    let tag = read(&vec![Token::Open, Token::Ident("tag"), Token::Close], &vec![]);
    let html = read(&vec![Token::Slot(0)], &vec![Slot::Html(tag)]);
    assert_eq!(html.render(), Ok("<tag>".into()));
}

#[test]
fn top_level_expr_mixed() {
    let tag = read(&vec![Token::Open, Token::Ident("tag"), Token::Close], &vec![]);
    let toks = vec![
        Token::Open,
        Token::Ident("regular"),
        Token::Equals,
        Token::Literal("content"),
        Token::Close,
        Token::Slot(0),
    ];
    let html = read(&toks, &vec![Slot::Html(tag)]);
    assert_eq!(html.render(), Ok("<regular>content</regular><tag>".into()));
}

#[test]
fn top_level_expr_multi() {
    let tag = read(&vec![Token::Open, Token::Ident("tag"), Token::Close], &vec![]);
    let tag2 = read(&vec![Token::Open, Token::Ident("tag2"), Token::Close], &vec![]);
    let html = read(&vec![Token::Slot(0), Token::Slot(1)], &vec![Slot::Html(tag), Slot::Html(tag2)]);
    assert_eq!(html.render(), Ok("<tag><tag2>".into()));
}

#[test]
fn tag_content_expr_multi() {
    let toks = vec![
        Token::Open,
        Token::Ident("tag"),
        Token::Equals,
        Token::Slot(0),
        Token::Slot(1),
        Token::Close,
    ];
    let slots = vec![Slot::Text(Cow::Borrowed("one")), Slot::Text(Cow::Borrowed("two"))];
    let html = read(&toks, &slots);
    assert_eq!(html.render(), Ok("<tag>onetwo</tag>".into()));
}
