//! The document tree, its builder and its renderer.
use std::borrow::Cow;
use vstd::prelude::*;
use vstd::string::StringExecFns;

use crate::markup::{
    render_attr, render_attrs, render_comment, render_content, render_content_seq, render_html,
    render_html_seq, render_tag, AttrModel, ContentModel, HtmlModel, TagModel,
};

verus! {

/// Text that is either owned or borrowed from a source that outlives the tree.
pub type Str<'a> = Cow<'a, str>;

/// Conversion of string-like values into [`Str`].
///
/// Implement it on a type of your own to pass that type wherever the builder
/// takes a name, a key, a value or text.
pub trait IntoStr<'a> {
    /// The characters that the conversion yields.
    spec fn str_view(&self) -> Seq<char>;

    /// Convert `self` into a [`Str`], borrowing where it can.
    fn into_str(self) -> (r: Str<'a>)
        ensures
            r@ == self.str_view(),
    ;
}

impl<'a> IntoStr<'a> for String {
    open spec fn str_view(&self) -> Seq<char> {
        self@
    }

    fn into_str(self) -> (r: Str<'a>) {
        Cow::Owned(self)
    }
}

impl<'a> IntoStr<'a> for &'a str {
    open spec fn str_view(&self) -> Seq<char> {
        (*self)@
    }

    fn into_str(self) -> (r: Str<'a>) {
        Cow::Borrowed(self)
    }
}

impl<'a> IntoStr<'a> for &'a String {
    open spec fn str_view(&self) -> Seq<char> {
        (*self)@
    }

    fn into_str(self) -> (r: Str<'a>) {
        Cow::Borrowed(self.as_str())
    }
}

impl<'a> IntoStr<'a> for Cow<'a, str> {
    open spec fn str_view(&self) -> Seq<char> {
        self@
    }

    fn into_str(self) -> (r: Str<'a>) {
        self
    }
}

/// A node of a document: a tag, a comment, or a sequence of nodes that
/// renders as its items one after another.
#[derive(Debug, PartialEq, Eq)]
pub enum Html<'a> {
    /// A tag
    Tag(Tag<'a>),
    /// A comment
    Comment(Comment<'a>),
    /// A sequence of tags, comments and further sequences
    Html(Vec<Html<'a>>),
}

/// A comment, rendered as `<!-- text -->`.
#[derive(Debug, PartialEq, Eq)]
pub struct Comment<'a>(Str<'a>);

/// A tag with its attributes and content, built with [`Tag::new`] and the
/// methods that follow it. A self-closing tag keeps its content but does not
/// render it.
#[derive(Debug, PartialEq, Eq)]
pub struct Tag<'a> {
    name: Str<'a>,
    attributes: Vec<Attr<'a>>,
    content: Vec<Content<'a>>,
    self_closing: bool,
}

/// An attribute of a tag; an empty value renders as a bare key.
#[derive(Debug, PartialEq, Eq)]
struct Attr<'a> {
    key: Str<'a>,
    val: Str<'a>,
}

/// An item of a tag's body: a nested node or plain text.
#[derive(Debug, PartialEq, Eq)]
pub enum Content<'a> {
    /// A nested node
    Html(Html<'a>),
    /// Plain text
    Str(Str<'a>),
}

/// The model of an attribute.
spec fn attr_view<'a>(a: Attr<'a>) -> AttrModel {
    AttrModel { key: a.key@, val: a.val@ }
}

/// The model of a tag.
pub closed spec fn tag_view<'a>(t: Tag<'a>) -> TagModel
    decreases t,
{
    TagModel {
        name: t.name@,
        attrs: t.attributes@.map_values(|a: Attr<'a>| attr_view(a)),
        content: content_seq_view(t.content@),
        self_closing: t.self_closing,
    }
}

/// The model of a content item.
pub closed spec fn content_view<'a>(c: Content<'a>) -> ContentModel
    decreases c,
{
    match c {
        Content::Html(h) => ContentModel::Html(html_view(h)),
        Content::Str(s) => ContentModel::Text(s@),
    }
}

/// The models of content items, in order.
pub closed spec fn content_seq_view<'a>(s: Seq<Content<'a>>) -> Seq<ContentModel>
    decreases s,
{
    if s.len() == 0 {
        Seq::empty()
    } else {
        content_seq_view(s.drop_last()).push(content_view(s.last()))
    }
}

/// The model of a node.
pub closed spec fn html_view<'a>(h: Html<'a>) -> HtmlModel
    decreases h,
{
    match h {
        Html::Tag(t) => HtmlModel::Tag(tag_view(t)),
        Html::Comment(c) => HtmlModel::Comment(c.0@),
        Html::Html(v) => HtmlModel::Sequence(html_seq_view(v@)),
    }
}

/// The models of nodes, in order.
pub closed spec fn html_seq_view<'a>(s: Seq<Html<'a>>) -> Seq<HtmlModel>
    decreases s,
{
    if s.len() == 0 {
        Seq::empty()
    } else {
        html_seq_view(s.drop_last()).push(html_view(s.last()))
    }
}

impl<'a> View for Tag<'a> {
    type V = TagModel;

    closed spec fn view(&self) -> TagModel {
        tag_view(*self)
    }
}

impl<'a> View for Html<'a> {
    type V = HtmlModel;

    closed spec fn view(&self) -> HtmlModel {
        html_view(*self)
    }
}

impl<'a> View for Content<'a> {
    type V = ContentModel;

    closed spec fn view(&self) -> ContentModel {
        content_view(*self)
    }
}

impl<'a> View for Comment<'a> {
    type V = Seq<char>;

    closed spec fn view(&self) -> Seq<char> {
        self.0@
    }
}

/// A failure of the sink that markup is written to. Writing into a
/// `String` never fails.
#[derive(Debug, PartialEq, Eq, Clone, Copy)]
pub struct RenderError;

/// The types that render themselves as markup.
pub trait Render {
    /// The markup that `self` renders to.
    spec fn rendered(&self) -> Seq<char>;

    /// Render `self` into a new string.
    fn render(&self) -> (r: Result<String, RenderError>)
        ensures
            r is Ok,
            r matches Ok(s) && s@ == self.rendered(),
    {
        let mut buf = String::new();
        match self.render_to_buf(&mut buf) {
            Ok(()) => Ok(buf),
            Err(e) => Err(e),
        }
    }

    /// Append the markup of `self` to `buf`.
    fn render_to_buf(&self, buf: &mut String) -> (r: Result<(), RenderError>)
        ensures
            r is Ok,
            final(buf)@ == old(buf)@ + self.rendered(),
    ;
}

fn write_str<'a>(buf: &mut String, s: &Str<'a>)
    ensures
        final(buf)@ == old(buf)@ + s@,
{
    match s {
        Cow::Borrowed(b) => buf.append(b),
        Cow::Owned(o) => buf.append(o.as_str()),
    }
}

fn str_is_empty<'a>(s: &Str<'a>) -> (r: bool)
    ensures
        r == (s@.len() == 0),
{
    match s {
        Cow::Borrowed(b) => b.is_empty(),
        Cow::Owned(o) => o.as_str().is_empty(),
    }
}

fn write_attr<'a>(buf: &mut String, a: &Attr<'a>)
    ensures
        final(buf)@ == old(buf)@ + render_attr(attr_view(*a)),
{
    if str_is_empty(&a.val) {
        write_str(buf, &a.key);
    } else {
        write_str(buf, &a.key);
        buf.append("=\"");
        write_str(buf, &a.val);
        buf.append("\"");
        proof {
            reveal_strlit("=\"");
            reveal_strlit("\"");
        }
    }
}

fn write_comment<'a>(buf: &mut String, c: &Comment<'a>)
    ensures
        final(buf)@ == old(buf)@ + render_comment(c.0@),
{
    buf.append("<!-- ");
    write_str(buf, &c.0);
    buf.append(" -->");
    proof {
        reveal_strlit("<!-- ");
        reveal_strlit(" -->");
    }
}

proof fn lemma_content_seq_view_prefix<'a>(s: Seq<Content<'a>>, i: int)
    requires
        0 <= i < s.len(),
    ensures
        content_seq_view(s.subrange(0, i + 1)) == content_seq_view(s.subrange(0, i)).push(
            content_view(s[i]),
        ),
{
    assert(s.subrange(0, i + 1).drop_last() =~= s.subrange(0, i));
}

proof fn lemma_html_seq_view_prefix<'a>(s: Seq<Html<'a>>, i: int)
    requires
        0 <= i < s.len(),
    ensures
        html_seq_view(s.subrange(0, i + 1)) == html_seq_view(s.subrange(0, i)).push(
            html_view(s[i]),
        ),
{
    assert(s.subrange(0, i + 1).drop_last() =~= s.subrange(0, i));
}

fn write_tag<'a>(buf: &mut String, t: &Tag<'a>)
    ensures
        final(buf)@ == old(buf)@ + render_tag(tag_view(*t)),
    decreases *t, 0int,
{
    let ghost start = buf@;
    let ghost tv = tag_view(*t);
    buf.append("<");
    write_str(buf, &t.name);
    proof {
        reveal_strlit("<");
    }
    let mut i: usize = 0;
    while i < t.attributes.len()
        invariant
            0 <= i <= t.attributes.len(),
            tv == tag_view(*t),
            buf@ == start + seq!['<'] + t.name@ + render_attrs(tv.attrs.subrange(0, i as int)),
        decreases t.attributes.len() - i,
    {
        buf.append(" ");
        write_attr(buf, &t.attributes[i]);
        proof {
            reveal_strlit(" ");
            assert(tv.attrs.subrange(0, i + 1).drop_last() =~= tv.attrs.subrange(0, i as int));
        }
        i = i + 1;
    }
    proof {
        assert(tv.attrs.subrange(0, i as int) =~= tv.attrs);
    }
    buf.append(">");
    proof {
        reveal_strlit(">");
    }
    if t.self_closing {
        return;
    }
    let ghost mid = buf@;
    let mut j: usize = 0;
    while j < t.content.len()
        invariant
            0 <= j <= t.content.len(),
            buf@ == mid + render_content_seq(content_seq_view(t.content@.subrange(0, j as int))),
        decreases t.content.len() - j,
    {
        proof {
            assert(decreases_to!(*t => t.content));
            assert(decreases_to!(t.content => t.content@));
            assert(decreases_to!(t.content@ => t.content@[j as int]));
            lemma_content_seq_view_prefix(t.content@, j as int);
            let cs = content_seq_view(t.content@.subrange(0, j as int));
            assert(cs.push(content_view(t.content@[j as int])).drop_last() =~= cs);
        }
        write_content(buf, &t.content[j]);
        j = j + 1;
    }
    proof {
        assert(t.content@.subrange(0, j as int) =~= t.content@);
    }
    buf.append("</");
    write_str(buf, &t.name);
    buf.append(">");
    proof {
        reveal_strlit("</");
        reveal_strlit(">");
    }
}

fn write_content<'a>(buf: &mut String, c: &Content<'a>)
    ensures
        final(buf)@ == old(buf)@ + render_content(content_view(*c)),
    decreases *c, 0int,
{
    match c {
        Content::Html(h) => write_html(buf, h),
        Content::Str(s) => write_str(buf, s),
    }
}

fn write_html<'a>(buf: &mut String, h: &Html<'a>)
    ensures
        final(buf)@ == old(buf)@ + render_html(html_view(*h)),
    decreases *h, 0int,
{
    match h {
        Html::Tag(t) => write_tag(buf, t),
        Html::Comment(c) => write_comment(buf, c),
        Html::Html(v) => {
            let ghost start = buf@;
            let mut i: usize = 0;
            while i < v.len()
                invariant
                    0 <= i <= v.len(),
                    *h == Html::Html(*v),
                    buf@ == start + render_html_seq(html_seq_view(v@.subrange(0, i as int))),
                decreases v.len() - i,
            {
                proof {
                    assert(decreases_to!(*h => (*h)->Html_0));
                    assert((*h)->Html_0 == *v);
                    assert(decreases_to!(*v => v@));
                    assert(decreases_to!(v@ => v@[i as int]));
                    lemma_html_seq_view_prefix(v@, i as int);
                    let hs = html_seq_view(v@.subrange(0, i as int));
                    assert(hs.push(html_view(v@[i as int])).drop_last() =~= hs);
                }
                write_html(buf, &v[i]);
                i = i + 1;
            }
            proof {
                assert(v@.subrange(0, i as int) =~= v@);
            }
        },
    }
}

impl<'a> Render for Html<'a> {
    open spec fn rendered(&self) -> Seq<char> {
        render_html(self@)
    }

    fn render_to_buf(&self, buf: &mut String) -> (r: Result<(), RenderError>) {
        write_html(buf, self);
        Ok(())
    }
}

impl<'a> Render for Tag<'a> {
    open spec fn rendered(&self) -> Seq<char> {
        render_tag(self@)
    }

    fn render_to_buf(&self, buf: &mut String) -> (r: Result<(), RenderError>) {
        write_tag(buf, self);
        Ok(())
    }
}

impl<'a> Render for Comment<'a> {
    open spec fn rendered(&self) -> Seq<char> {
        render_comment(self@)
    }

    fn render_to_buf(&self, buf: &mut String) -> (r: Result<(), RenderError>) {
        write_comment(buf, self);
        Ok(())
    }
}

impl<'a> Render for Content<'a> {
    open spec fn rendered(&self) -> Seq<char> {
        render_content(self@)
    }

    fn render_to_buf(&self, buf: &mut String) -> (r: Result<(), RenderError>) {
        write_content(buf, self);
        Ok(())
    }
}

impl<'a> Render for Str<'a> {
    open spec fn rendered(&self) -> Seq<char> {
        self@
    }

    fn render_to_buf(&self, buf: &mut String) -> (r: Result<(), RenderError>) {
        write_str(buf, self);
        Ok(())
    }
}

impl<'a> Comment<'a> {
    /// A comment holding `comment`.
    pub fn new<T: IntoStr<'a>>(comment: T) -> (r: Self)
        ensures
            r@ == comment.str_view(),
    {
        Comment(comment.into_str())
    }
}

impl<'a> Tag<'a> {
    /// A tag named `name`, with no attributes, no content, not self-closing.
    pub fn new<T: IntoStr<'a>>(name: T) -> (r: Self)
        ensures
            r@ == (TagModel {
                name: name.str_view(),
                attrs: Seq::empty(),
                content: Seq::empty(),
                self_closing: false,
            }),
    {
        let r = Tag { name: name.into_str(), attributes: Vec::new(), content: Vec::new(), self_closing: false };
        proof {
            assert(r.attributes@.map_values(|a: Attr<'a>| attr_view(a)) =~= Seq::empty());
        }
        r
    }

    /// Append the attribute `key`=`val`. Keys may repeat; every attribute
    /// is rendered, in the order appended.
    pub fn attr<A: IntoStr<'a>, B: IntoStr<'a>>(self, key: A, val: B) -> (r: Self)
        ensures
            r@ == (TagModel {
                attrs: self@.attrs.push(AttrModel { key: key.str_view(), val: val.str_view() }),
                ..self@
            }),
    {
        let mut t = self;
        let a = Attr { key: key.into_str(), val: val.into_str() };
        let ghost old_attrs = t.attributes@;
        t.attributes.push(a);
        proof {
            assert(t.attributes@.map_values(|a: Attr<'a>| attr_view(a)) =~= old_attrs.map_values(
                |a: Attr<'a>| attr_view(a),
            ).push(attr_view(a)));
        }
        t
    }

    /// Append content: text, a tag, a comment, or each item of a sequence.
    pub fn content<C: IntoContent<'a>>(self, content: C) -> (r: Self)
        ensures
            r@ == (TagModel { content: self@.content + content.content_view(), ..self@ }),
    {
        let mut t = self;
        let mut items = content.into_content();
        proof {
            lemma_content_seq_view_concat(t.content@, items@);
        }
        t.content.append(&mut items);
        t
    }

    /// Make the tag self-closing: it renders as its opening marker alone,
    /// and content appended before or after is kept but not rendered.
    pub fn self_closing(self) -> (r: Self)
        ensures
            r@ == (TagModel { self_closing: true, ..self@ }),
    {
        let mut t = self;
        t.self_closing = true;
        t
    }
}

proof fn lemma_content_seq_view_concat<'a>(a: Seq<Content<'a>>, b: Seq<Content<'a>>)
    ensures
        content_seq_view(a + b) == content_seq_view(a) + content_seq_view(b),
    decreases b.len(),
{
    if b.len() == 0 {
        assert(a + b =~= a);
        assert(content_seq_view(b) =~= Seq::empty());
        assert(content_seq_view(a) + content_seq_view(b) =~= content_seq_view(a));
    } else {
        lemma_content_seq_view_concat(a, b.drop_last());
        assert((a + b).drop_last() =~= a + b.drop_last());
        assert(content_seq_view(a) + content_seq_view(b) =~= (content_seq_view(a)
            + content_seq_view(b.drop_last())).push(content_view(b.last())));
    }
}

/// Conversion of a value into the content items that [`Tag::content`]
/// appends: text, a nested node, or each item of a sequence.
pub trait IntoContent<'a> {
    /// The items that the conversion yields.
    spec fn content_view(&self) -> Seq<ContentModel>;

    /// Convert `self` into content items.
    fn into_content(self) -> (r: Vec<Content<'a>>)
        ensures
            content_seq_view(r@) == self.content_view(),
    ;
}

fn single_content<'a>(c: Content<'a>) -> (r: Vec<Content<'a>>)
    ensures
        content_seq_view(r@) == seq![content_view(c)],
{
    let r = vec![c];
    proof {
        assert(r@.drop_last() =~= Seq::<Content<'a>>::empty());
        assert(content_seq_view(r@.drop_last()) =~= Seq::empty());
        assert(Seq::<ContentModel>::empty().push(content_view(c)) =~= seq![content_view(c)]);
    }
    r
}

impl<'a> IntoContent<'a> for &'a str {
    open spec fn content_view(&self) -> Seq<ContentModel> {
        seq![ContentModel::Text((*self)@)]
    }

    fn into_content(self) -> (r: Vec<Content<'a>>) {
        single_content(Content::Str(Cow::Borrowed(self)))
    }
}

impl<'a> IntoContent<'a> for String {
    open spec fn content_view(&self) -> Seq<ContentModel> {
        seq![ContentModel::Text(self@)]
    }

    fn into_content(self) -> (r: Vec<Content<'a>>) {
        single_content(Content::Str(Cow::Owned(self)))
    }
}

impl<'a> IntoContent<'a> for &'a String {
    open spec fn content_view(&self) -> Seq<ContentModel> {
        seq![ContentModel::Text((*self)@)]
    }

    fn into_content(self) -> (r: Vec<Content<'a>>) {
        single_content(Content::Str(Cow::Borrowed(self.as_str())))
    }
}

impl<'a> IntoContent<'a> for Cow<'a, str> {
    open spec fn content_view(&self) -> Seq<ContentModel> {
        seq![ContentModel::Text(self@)]
    }

    fn into_content(self) -> (r: Vec<Content<'a>>) {
        single_content(Content::Str(self))
    }
}

impl<'a> IntoContent<'a> for Tag<'a> {
    open spec fn content_view(&self) -> Seq<ContentModel> {
        seq![ContentModel::Html(HtmlModel::Tag(self@))]
    }

    fn into_content(self) -> (r: Vec<Content<'a>>) {
        single_content(Content::Html(Html::Tag(self)))
    }
}

impl<'a> IntoContent<'a> for Comment<'a> {
    open spec fn content_view(&self) -> Seq<ContentModel> {
        seq![ContentModel::Html(HtmlModel::Comment(self@))]
    }

    fn into_content(self) -> (r: Vec<Content<'a>>) {
        single_content(Content::Html(Html::Comment(self)))
    }
}

impl<'a> IntoContent<'a> for Content<'a> {
    open spec fn content_view(&self) -> Seq<ContentModel> {
        seq![self@]
    }

    fn into_content(self) -> (r: Vec<Content<'a>>) {
        single_content(self)
    }
}

/// Each node as a nested content item.
pub open spec fn nested_items(s: Seq<HtmlModel>) -> Seq<ContentModel> {
    s.map_values(|h: HtmlModel| ContentModel::Html(h))
}

/// A node as content: a sequence gives each of its items, any other node
/// gives itself.
pub open spec fn html_content_view(h: HtmlModel) -> Seq<ContentModel> {
    match h {
        HtmlModel::Sequence(s) => nested_items(s),
        _ => seq![ContentModel::Html(h)],
    }
}

impl<'a> IntoContent<'a> for Html<'a> {
    open spec fn content_view(&self) -> Seq<ContentModel> {
        html_content_view(self@)
    }

    fn into_content(self) -> (r: Vec<Content<'a>>) {
        match self {
            Html::Html(items) => {
                let mut items = items;
                let mut out: Vec<Content<'a>> = Vec::new();
                let ghost all = items@;
                while items.len() > 0
                    invariant
                        out@.len() + items@.len() == all.len(),
                        items@ == all.subrange(out@.len() as int, all.len() as int),
                        content_seq_view(out@) == nested_items(
                            html_seq_view(all.subrange(0, out@.len() as int)),
                        ),
                    decreases items.len(),
                {
                    let ghost k = out@.len() as int;
                    let ghost before = out@;
                    let h = items.remove(0);
                    out.push(Content::Html(h));
                    proof {
                        lemma_html_seq_view_prefix(all, k);
                        assert(out@.drop_last() =~= before);
                        assert(h == all[k]);
                        assert(content_view(out@.last()) == ContentModel::Html(html_view(all[k])));
                        assert(content_seq_view(out@) == content_seq_view(before).push(
                            ContentModel::Html(html_view(all[k])),
                        ));
                        let hs = html_seq_view(all.subrange(0, k));
                        assert(nested_items(hs.push(html_view(all[k]))) =~= nested_items(hs).push(
                            ContentModel::Html(html_view(all[k])),
                        ));
                        assert(items@ =~= all.subrange(k + 1, all.len() as int));
                    }
                }
                proof {
                    assert(all.subrange(0, out@.len() as int) =~= all);
                }
                out
            },
            other => single_content(Content::Html(other)),
        }
    }
}

impl<'a> From<Tag<'a>> for Html<'a> {
    fn from(v: Tag<'a>) -> Self {
        Html::Tag(v)
    }
}

impl<'a> vstd::std_specs::convert::FromSpecImpl<Tag<'a>> for Html<'a> {
    open spec fn obeys_from_spec() -> bool {
        true
    }

    open spec fn from_spec(v: Tag<'a>) -> Self {
        Html::Tag(v)
    }
}

impl<'a> From<Comment<'a>> for Html<'a> {
    fn from(v: Comment<'a>) -> Self {
        Html::Comment(v)
    }
}

impl<'a> vstd::std_specs::convert::FromSpecImpl<Comment<'a>> for Html<'a> {
    open spec fn obeys_from_spec() -> bool {
        true
    }

    open spec fn from_spec(v: Comment<'a>) -> Self {
        Html::Comment(v)
    }
}

impl<'a> From<Vec<Html<'a>>> for Html<'a> {
    fn from(v: Vec<Html<'a>>) -> Self {
        Html::Html(v)
    }
}

impl<'a> vstd::std_specs::convert::FromSpecImpl<Vec<Html<'a>>> for Html<'a> {
    open spec fn obeys_from_spec() -> bool {
        true
    }

    open spec fn from_spec(v: Vec<Html<'a>>) -> Self {
        Html::Html(v)
    }
}

impl<'a> From<Tag<'a>> for Content<'a> {
    fn from(v: Tag<'a>) -> Self {
        Content::Html(Html::Tag(v))
    }
}

impl<'a> vstd::std_specs::convert::FromSpecImpl<Tag<'a>> for Content<'a> {
    open spec fn obeys_from_spec() -> bool {
        true
    }

    open spec fn from_spec(v: Tag<'a>) -> Self {
        Content::Html(Html::Tag(v))
    }
}

impl<'a> From<Comment<'a>> for Content<'a> {
    fn from(v: Comment<'a>) -> Self {
        Content::Html(Html::Comment(v))
    }
}

impl<'a> vstd::std_specs::convert::FromSpecImpl<Comment<'a>> for Content<'a> {
    open spec fn obeys_from_spec() -> bool {
        true
    }

    open spec fn from_spec(v: Comment<'a>) -> Self {
        Content::Html(Html::Comment(v))
    }
}

impl<'a> From<Html<'a>> for Content<'a> {
    fn from(v: Html<'a>) -> Self {
        Content::Html(v)
    }
}

impl<'a> vstd::std_specs::convert::FromSpecImpl<Html<'a>> for Content<'a> {
    open spec fn obeys_from_spec() -> bool {
        true
    }

    open spec fn from_spec(v: Html<'a>) -> Self {
        Content::Html(v)
    }
}

impl<'a> From<&'a str> for Content<'a> {
    fn from(v: &'a str) -> Self {
        Content::Str(Cow::Borrowed(v))
    }
}

impl<'a> vstd::std_specs::convert::FromSpecImpl<&'a str> for Content<'a> {
    open spec fn obeys_from_spec() -> bool {
        true
    }

    open spec fn from_spec(v: &'a str) -> Self {
        Content::Str(Cow::Borrowed(v))
    }
}

impl<'a> From<String> for Content<'a> {
    fn from(v: String) -> Self {
        Content::Str(Cow::Owned(v))
    }
}

impl<'a> vstd::std_specs::convert::FromSpecImpl<String> for Content<'a> {
    open spec fn obeys_from_spec() -> bool {
        true
    }

    open spec fn from_spec(v: String) -> Self {
        Content::Str(Cow::Owned(v))
    }
}

impl<'a> Default for Content<'a> {
    /// Empty text, which renders as nothing.
    fn default() -> (r: Self)
        ensures
            r@ == ContentModel::Text(Seq::empty()),
    {
        Content::Str(Cow::Owned(String::new()))
    }
}

/// A copy of `s` that borrows what `s` borrows.
pub(crate) fn copy_str<'a>(s: &Str<'a>) -> (r: Str<'a>)
    ensures
        r@ == s@,
{
    match s {
        Cow::Borrowed(b) => Cow::Borrowed(*b),
        Cow::Owned(o) => Cow::Owned(o.clone()),
    }
}

fn copy_tag<'a>(t: &Tag<'a>) -> (r: Tag<'a>)
    ensures
        tag_view(r) == tag_view(*t),
    decreases *t, 0int,
{
    let mut attributes: Vec<Attr<'a>> = Vec::new();
    let mut i: usize = 0;
    while i < t.attributes.len()
        invariant
            0 <= i <= t.attributes.len(),
            attributes@.len() == i,
            forall|k: int| 0 <= k < i ==> attr_view(#[trigger] attributes@[k]) == attr_view(t.attributes@[k]),
        decreases t.attributes.len() - i,
    {
        let a = &t.attributes[i];
        attributes.push(Attr { key: copy_str(&a.key), val: copy_str(&a.val) });
        i = i + 1;
    }
    let mut content: Vec<Content<'a>> = Vec::new();
    let mut j: usize = 0;
    while j < t.content.len()
        invariant
            0 <= j <= t.content.len(),
            content_seq_view(content@) == content_seq_view(t.content@.subrange(0, j as int)),
        decreases t.content.len() - j,
    {
        proof {
            assert(decreases_to!(*t => t.content));
            assert(decreases_to!(t.content => t.content@));
            assert(decreases_to!(t.content@ => t.content@[j as int]));
            lemma_content_seq_view_prefix(t.content@, j as int);
        }
        let ghost before = content@;
        let c = copy_content(&t.content[j]);
        content.push(c);
        proof {
            assert(content@.drop_last() =~= before);
        }
        j = j + 1;
    }
    proof {
        assert(t.content@.subrange(0, j as int) =~= t.content@);
        assert(attributes@.map_values(|a: Attr<'a>| attr_view(a)) =~= t.attributes@.map_values(
            |a: Attr<'a>| attr_view(a),
        ));
    }
    Tag { name: copy_str(&t.name), attributes, content, self_closing: t.self_closing }
}

fn copy_content<'a>(c: &Content<'a>) -> (r: Content<'a>)
    ensures
        content_view(r) == content_view(*c),
    decreases *c, 0int,
{
    match c {
        Content::Html(h) => Content::Html(copy_html(h)),
        Content::Str(s) => Content::Str(copy_str(s)),
    }
}

/// A copy of `h` that borrows what `h` borrows.
pub(crate) fn copy_html<'a>(h: &Html<'a>) -> (r: Html<'a>)
    ensures
        r@ == h@,
    decreases *h, 0int,
{
    match h {
        Html::Tag(t) => Html::Tag(copy_tag(t)),
        Html::Comment(c) => Html::Comment(Comment(copy_str(&c.0))),
        Html::Html(v) => {
            let mut items: Vec<Html<'a>> = Vec::new();
            let mut i: usize = 0;
            while i < v.len()
                invariant
                    0 <= i <= v.len(),
                    *h == Html::Html(*v),
                    html_seq_view(items@) == html_seq_view(v@.subrange(0, i as int)),
                decreases v.len() - i,
            {
                proof {
                    assert(decreases_to!(*h => (*h)->Html_0));
                    assert((*h)->Html_0 == *v);
                    assert(decreases_to!(*v => v@));
                    assert(decreases_to!(v@ => v@[i as int]));
                    lemma_html_seq_view_prefix(v@, i as int);
                }
                let ghost before = items@;
                let x = copy_html(&v[i]);
                items.push(x);
                proof {
                    assert(items@.drop_last() =~= before);
                }
                i = i + 1;
            }
            proof {
                assert(v@.subrange(0, i as int) =~= v@);
            }
            Html::Html(items)
        },
    }
}

proof fn lemma_html_seq_view_map<'a>(s: Seq<Html<'a>>)
    ensures
        html_seq_view(s) == s.map_values(|h: Html<'a>| h@),
    decreases s.len(),
{
    if s.len() > 0 {
        lemma_html_seq_view_map(s.drop_last());
        assert(s.map_values(|h: Html<'a>| h@) =~= s.drop_last().map_values(|h: Html<'a>| h@).push(
            s.last()@,
        ));
    } else {
        assert(s.map_values(|h: Html<'a>| h@) =~= Seq::empty());
    }
}

/// The node that a tag makes.
pub(crate) fn tag_node<'a>(t: Tag<'a>) -> (r: Html<'a>)
    ensures
        r@ == HtmlModel::Tag(t@),
{
    Html::Tag(t)
}

/// The sequence node that holds `v`.
pub(crate) fn seq_node<'a>(v: Vec<Html<'a>>) -> (r: Html<'a>)
    ensures
        r@ == HtmlModel::Sequence(v@.map_values(|h: Html<'a>| h@)),
{
    proof {
        lemma_html_seq_view_map(v@);
    }
    Html::Html(v)
}

} // verus!
