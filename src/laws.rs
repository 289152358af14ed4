//! Properties of rendering that hold for every document.
use vstd::prelude::*;

use crate::document::{Html, Render, RenderError};
use crate::markup::{
    close_marker, open_marker, render_attrs, render_html, render_html_seq, render_tag, AttrModel,
    ContentModel, HtmlModel, TagModel,
};

verus! {

/// Rendering a document twice gives the same text both times.
pub proof fn law_render_deterministic<'a>(
    h: &Html<'a>,
    first: Result<String, RenderError>,
    second: Result<String, RenderError>,
)
    requires
        call_ensures(<Html<'a> as Render>::render, (h,), first),
        call_ensures(<Html<'a> as Render>::render, (h,), second),
    ensures
        first matches Ok(a) && second matches Ok(b) && a@ == b@,
{
}

/// A self-closing tag renders as its opening marker alone, whatever
/// content it holds.
pub proof fn law_self_closing(t: TagModel, other_content: Seq<ContentModel>)
    requires
        t.self_closing,
    ensures
        render_tag(t) == open_marker(t),
        render_tag(TagModel { content: other_content, ..t }) == render_tag(t),
{
}

/// An attribute appended with an empty value renders as ` key`; with any
/// other value as ` key="value"`.
pub proof fn law_attr_elision(t: TagModel, key: Seq<char>, val: Seq<char>)
    ensures
        val.len() == 0 ==> open_marker(
            TagModel { attrs: t.attrs.push(AttrModel { key, val }), ..t },
        ) == seq!['<'] + t.name + render_attrs(t.attrs) + seq![' '] + key + seq!['>'],
        val.len() > 0 ==> open_marker(
            TagModel { attrs: t.attrs.push(AttrModel { key, val }), ..t },
        ) == seq!['<'] + t.name + render_attrs(t.attrs) + seq![' '] + key + seq!['=', '"'] + val
            + seq!['"'] + seq!['>'],
{
    let attrs = t.attrs.push(AttrModel { key, val });
    assert(attrs.drop_last() =~= t.attrs);
    if val.len() == 0 {
        assert(seq!['<'] + t.name + render_attrs(attrs) + seq!['>'] =~= seq!['<'] + t.name
            + render_attrs(t.attrs) + seq![' '] + key + seq!['>']);
    } else {
        assert(seq!['<'] + t.name + render_attrs(attrs) + seq!['>'] =~= seq!['<'] + t.name
            + render_attrs(t.attrs) + seq![' '] + key + seq!['=', '"'] + val + seq!['"'] + seq![
            '>',
        ]);
    }
}

/// Rendering a sequence distributes over concatenation.
pub proof fn lemma_render_html_seq_concat(s: Seq<HtmlModel>, t: Seq<HtmlModel>)
    ensures
        render_html_seq(s + t) == render_html_seq(s) + render_html_seq(t),
    decreases t.len(),
{
    if t.len() == 0 {
        assert(s + t =~= s);
        assert(render_html_seq(s) + render_html_seq(t) =~= render_html_seq(s));
    } else {
        lemma_render_html_seq_concat(s, t.drop_last());
        assert((s + t).drop_last() =~= s + t.drop_last());
        assert(render_html_seq(s) + render_html_seq(t) =~= render_html_seq(s) + render_html_seq(
            t.drop_last(),
        ) + render_html(t.last()));
    }
}

/// A sequence nested at the head of a sequence renders as if its items
/// stood in the outer sequence: `[[a, b], c]` renders as `[a, b, c]`.
pub proof fn law_sequence_flattening(inner: Seq<HtmlModel>, rest: Seq<HtmlModel>)
    ensures
        render_html(HtmlModel::Sequence(seq![HtmlModel::Sequence(inner)] + rest)) == render_html(
            HtmlModel::Sequence(inner + rest),
        ),
{
    let outer = seq![HtmlModel::Sequence(inner)];
    lemma_render_html_seq_concat(outer, rest);
    lemma_render_html_seq_concat(inner, rest);
    assert(outer.drop_last() =~= Seq::<HtmlModel>::empty());
    assert(render_html_seq(outer.drop_last()) == Seq::<char>::empty());
    assert(render_html(outer.last()) == render_html_seq(inner));
    assert(render_html_seq(outer) =~= render_html_seq(inner));
}

/// The three-item case: `[[a, b], c]` and `[a, b, c]` render alike.
pub proof fn law_sequence_flattening_three(a: HtmlModel, b: HtmlModel, c: HtmlModel)
    ensures
        render_html(HtmlModel::Sequence(seq![HtmlModel::Sequence(seq![a, b]), c])) == render_html(
            HtmlModel::Sequence(seq![a, b, c]),
        ),
{
    law_sequence_flattening(seq![a, b], seq![c]);
    assert(seq![HtmlModel::Sequence(seq![a, b])] + seq![c] =~= seq![HtmlModel::Sequence(seq![a, b]), c]);
    assert(seq![a, b] + seq![c] =~= seq![a, b, c]);
}

} // verus!
