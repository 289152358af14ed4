//! The mathematical model of a document and the text it renders to.
use vstd::prelude::*;

verus! {

/// An attribute: a key and a value; an empty value means a bare key.
pub struct AttrModel {
    pub key: Seq<char>,
    pub val: Seq<char>,
}

/// A tag: its name, attributes and content in order, and whether it is
/// written as a single opening marker.
pub struct TagModel {
    pub name: Seq<char>,
    pub attrs: Seq<AttrModel>,
    pub content: Seq<ContentModel>,
    pub self_closing: bool,
}

/// A node of the document: a tag, a comment, or a sequence of nodes.
pub enum HtmlModel {
    Tag(TagModel),
    Comment(Seq<char>),
    Sequence(Seq<HtmlModel>),
}

/// An item of a tag's body: a nested node or plain text.
pub enum ContentModel {
    Html(HtmlModel),
    Text(Seq<char>),
}

/// `key` alone when the value is empty, else `key="val"`.
pub open spec fn render_attr(a: AttrModel) -> Seq<char> {
    if a.val.len() == 0 {
        a.key
    } else {
        a.key + seq!['=', '"'] + a.val + seq!['"']
    }
}

/// Each attribute in order, each preceded by one space.
pub open spec fn render_attrs(s: Seq<AttrModel>) -> Seq<char>
    decreases s.len(),
{
    if s.len() == 0 {
        Seq::empty()
    } else {
        render_attrs(s.drop_last()) + seq![' '] + render_attr(s.last())
    }
}

/// `<name attrs>`
pub open spec fn open_marker(t: TagModel) -> Seq<char> {
    seq!['<'] + t.name + render_attrs(t.attrs) + seq!['>']
}

/// `</name>`
pub open spec fn close_marker(name: Seq<char>) -> Seq<char> {
    seq!['<', '/'] + name + seq!['>']
}

/// `<!-- text -->`
pub open spec fn render_comment(text: Seq<char>) -> Seq<char> {
    seq!['<', '!', '-', '-', ' '] + text + seq![' ', '-', '-', '>']
}

/// A tag: its opening marker alone when self-closing, else the opening
/// marker, its content and its closing marker.
pub open spec fn render_tag(t: TagModel) -> Seq<char>
    decreases t,
{
    if t.self_closing {
        open_marker(t)
    } else {
        open_marker(t) + render_content_seq(t.content) + close_marker(t.name)
    }
}

/// A content item: a nested node's markup, or the text as it is.
pub open spec fn render_content(c: ContentModel) -> Seq<char>
    decreases c,
{
    match c {
        ContentModel::Html(h) => render_html(h),
        ContentModel::Text(s) => s,
    }
}

/// Content items rendered one after another.
pub open spec fn render_content_seq(s: Seq<ContentModel>) -> Seq<char>
    decreases s,
{
    if s.len() == 0 {
        Seq::empty()
    } else {
        render_content_seq(s.drop_last()) + render_content(s.last())
    }
}

/// The markup of a node.
pub open spec fn render_html(h: HtmlModel) -> Seq<char>
    decreases h,
{
    match h {
        HtmlModel::Tag(t) => render_tag(t),
        HtmlModel::Comment(s) => render_comment(s),
        HtmlModel::Sequence(s) => render_html_seq(s),
    }
}

/// The items rendered one after another, with nothing between them.
pub open spec fn render_html_seq(s: Seq<HtmlModel>) -> Seq<char>
    decreases s,
{
    if s.len() == 0 {
        Seq::empty()
    } else {
        render_html_seq(s.drop_last()) + render_html(s.last())
    }
}

} // verus!
