use hteaml::{Comment, Content, Html, Render, Tag};
use std::borrow::Cow;

#[test]
fn tag() {
    let tag = Tag::new("tag");
    assert_eq!(tag.render(), Ok("<tag></tag>".into()));
}

#[test]
fn self_closing_tag() {
    let tag = Tag::new("close").self_closing();
    assert_eq!(tag.render(), Ok("<close>".into()));
}

#[test]
fn tag_attributes() {
    let tag = Tag::new("tag").attr("key", "val").content("hello");
    assert_eq!(tag.render(), Ok(r#"<tag key="val">hello</tag>"#.into()))
}

#[test]
fn tag_in_tag() {
    let tag = Tag::new("tag");
    let tag2 = Tag::new("tag2").content("hello world");
    let tag = tag.content(tag2);
    assert_eq!(
        tag.render(),
        Ok("<tag><tag2>hello world</tag2></tag>".into())
    );
}

#[test]
fn comment() {
    let c = Comment::new("a comment");
    assert_eq!(c.render(), Ok("<!-- a comment -->".into()));
}

#[test]
fn lib_html_doc() {
    let inner: Html = vec![
        Comment::new("a comment").into(),
        Tag::new("p").content("hello world").into(),
    ]
    .into();
    let doc: Html = vec![
        Tag::new("!DOCTYPE").attr("html", "").self_closing().into(),
        Tag::new("head")
            .content(Tag::new("title").content("Html Doc"))
            .into(),
        Tag::new("body").content(inner).into(),
    ]
    .into();
    assert_eq!(
        doc.render(),
        Ok(r#"<!DOCTYPE html><head><title>Html Doc</title></head><body><!-- a comment --><p>hello world</p></body>"#.into())
    );
}

#[test]
fn scenario_empty_tag() {
    assert_eq!(Tag::new("mytag").render(), Ok("<mytag></mytag>".to_string()));
}

#[test]
fn scenario_self_closing() {
    assert_eq!(Tag::new("mytag").self_closing().render(), Ok("<mytag>".to_string()));
}

#[test]
fn scenario_attr_and_content() {
    let t = Tag::new("mytag").attr("hello", "world").content("content");
    assert_eq!(t.render(), Ok("<mytag hello=\"world\">content</mytag>".to_string()));
}

#[test]
fn scenario_nested() {
    let t = Tag::new("tag").content(Tag::new("tag2").content("hello"));
    assert_eq!(t.render(), Ok("<tag><tag2>hello</tag2></tag>".to_string()));
}

#[test]
fn render_twice_is_identical() {
    let doc: Html = Tag::new("a").attr("k", "v").content("x").content(Comment::new("c")).into();
    assert_eq!(doc.render(), doc.render());
    assert_eq!(doc.render(), Ok("<a k=\"v\">x<!-- c --></a>".to_string()));
}

#[test]
fn self_closing_hides_content_before_and_after() {
    let t = Tag::new("br").content("lost").self_closing().content(Tag::new("also"));
    assert_eq!(t.render(), Ok("<br>".to_string()));
}

#[test]
fn empty_value_renders_bare_key() {
    let t = Tag::new("input").attr("disabled", "").attr("type", "text");
    assert_eq!(t.render(), Ok("<input disabled type=\"text\"></input>".to_string()));
}

#[test]
fn duplicate_keys_all_render() {
    let t = Tag::new("a").attr("k", "1").attr("k", "2");
    assert_eq!(t.render(), Ok("<a k=\"1\" k=\"2\"></a>".to_string()));
}

#[test]
fn values_are_not_escaped() {
    let t = Tag::new("a").attr("k", "x\"y").content("<b>");
    assert_eq!(t.render(), Ok("<a k=\"x\"y\"><b></a>".to_string()));
}

#[test]
fn nested_sequence_renders_flat() {
    let a = || -> Html { Tag::new("a").into() };
    let b = || -> Html { Comment::new("b").into() };
    let c = || -> Html { Tag::new("c").self_closing().into() };
    let nested: Html = vec![Html::from(vec![a(), b()]), c()].into();
    let flat: Html = vec![a(), b(), c()].into();
    assert_eq!(nested.render(), flat.render());
    assert_eq!(flat.render(), Ok("<a></a><!-- b --><c>".to_string()));
}

#[test]
fn sequence_content_is_flattened() {
    let seq: Html = vec![Html::from(Tag::new("x")), Html::from(Comment::new("y"))].into();
    let t = Tag::new("p").content(seq);
    let expected = Tag::new("p").content(Tag::new("x")).content(Comment::new("y"));
    assert_eq!(t, expected);
    assert_eq!(t.render(), Ok("<p><x></x><!-- y --></p>".to_string()));
}

#[test]
fn owned_and_borrowed_strings() {
    let owned = String::from("owned");
    let t = Tag::new(owned.clone())
        .attr(&owned, String::from("v"))
        .content(Cow::Borrowed("text"))
        .content(String::from("!"));
    assert_eq!(t.render(), Ok("<owned owned=\"v\">text!</owned>".to_string()));
}

#[test]
fn content_conversions() {
    assert_eq!(Content::default().render(), Ok(String::new()));
    assert_eq!(Content::from("hi").render(), Ok("hi".to_string()));
    assert_eq!(Content::from(String::from("s")).render(), Ok("s".to_string()));
    assert_eq!(Content::from(Tag::new("t")).render(), Ok("<t></t>".to_string()));
    assert_eq!(Content::from(Comment::new("c")).render(), Ok("<!-- c -->".to_string()));
    let h: Html = Tag::new("h").into();
    assert_eq!(Content::from(h).render(), Ok("<h></h>".to_string()));
    let s: Cow<str> = Cow::Borrowed("plain");
    assert_eq!(s.render(), Ok("plain".to_string()));
}

#[test]
fn render_to_buf_appends() {
    let mut buf = String::from("x");
    Tag::new("a").render_to_buf(&mut buf).unwrap();
    Comment::new("c").render_to_buf(&mut buf).unwrap();
    assert_eq!(buf, "x<a></a><!-- c -->");
}
