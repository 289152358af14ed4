//! The parenthesised notation: a grammar over tokens, read in one pass
//! into a document tree, with host-supplied values bound at their slots.
//!
//! `(name key:val key2 = content)` is a tag; `=` may be left out before
//! content that opens with a tag, and a tag without content is
//! self-closing. `{n}` is slot `n`, a value the caller supplies.
use std::borrow::Cow;
use vstd::prelude::*;

use crate::document::{copy_html, copy_str, html_content_view, seq_node, tag_node, Html, Str, Tag};
use crate::markup::{AttrModel, ContentModel, HtmlModel, TagModel};

verus! {

/// A token of the notation. Identifier and literal text is borrowed from
/// the source that the tokens were read from.
#[derive(Debug, PartialEq, Eq, Clone, Copy)]
pub enum Token<'a> {
    /// `(`
    Open,
    /// `)`
    Close,
    /// A braced group `{ .. }` standing for the slot of this index
    Slot(usize),
    /// `:`
    Colon,
    /// `=`
    Equals,
    /// An identifier, by its source text
    Ident(&'a str),
    /// A string literal, by its value
    Literal(&'a str),
    /// Any other token, by its source text
    Other(&'a str),
}

/// A value supplied for a slot: text, or a node of a document.
#[derive(Debug, PartialEq, Eq)]
pub enum Slot<'a> {
    Text(Str<'a>),
    Html(Html<'a>),
}

/// What a slot holds, in the model.
pub enum SlotModel {
    Text(Seq<char>),
    Html(HtmlModel),
}

pub open spec fn slot_view<'a>(s: Slot<'a>) -> SlotModel {
    match s {
        Slot::Text(t) => SlotModel::Text(t@),
        Slot::Html(h) => SlotModel::Html(h@),
    }
}

pub open spec fn slots_view<'a>(s: Seq<Slot<'a>>) -> Seq<SlotModel> {
    s.map_values(|x: Slot<'a>| slot_view(x))
}

/// Why a token sequence was not read.
#[derive(Debug, PartialEq, Eq, Clone, Copy)]
pub enum ErrorKind {
    /// Neither a tag nor a slot where a node must start
    ExpectedHtml,
    /// No identifier, literal or slot where a tag's name must stand
    ExpectedName,
    /// A `:` without a key before it or a value after it
    MalformedAttr,
    /// No content after `=`
    ExpectedContent,
    /// The input ended inside a tag
    Unclosed,
    /// A token where the tag or the input should have ended
    UnexpectedToken,
    /// A slot index with no value supplied
    UnboundSlot,
    /// A slot whose value is a node where text is needed, or the reverse
    SlotMismatch,
}

/// An error, with the index of the token where it was found.
#[derive(Debug, PartialEq, Eq, Clone, Copy)]
pub struct ParseError {
    pub pos: usize,
    pub kind: ErrorKind,
}

pub open spec fn err(p: int, kind: ErrorKind) -> ParseError {
    ParseError { pos: p as usize, kind }
}

pub open spec fn tok<'a>(toks: Seq<Token<'a>>, p: int) -> Option<Token<'a>> {
    if 0 <= p < toks.len() {
        Some(toks[p])
    } else {
        None
    }
}

/// An identifier, a literal or a slot.
pub open spec fn is_value<'a>(t: Option<Token<'a>>) -> bool {
    t matches Some(x) && (x is Ident || x is Literal || x is Slot)
}

/// A token that opens an item of a tag's body.
pub open spec fn is_item_start<'a>(t: Option<Token<'a>>) -> bool {
    t matches Some(x) && (x is Open || x is Slot || x is Literal)
}

/// A token that opens a node at the top.
pub open spec fn is_node_start<'a>(t: Option<Token<'a>>) -> bool {
    t matches Some(x) && (x is Open || x is Slot)
}

/// The text of the value token at `p`.
pub open spec fn value_text<'a>(toks: Seq<Token<'a>>, slots: Seq<SlotModel>, p: int) -> Result<
    Seq<char>,
    ParseError,
> {
    match tok(toks, p) {
        Some(Token::Ident(s)) => Ok(s@),
        Some(Token::Literal(s)) => Ok(s@),
        Some(Token::Slot(k)) => if k < slots.len() {
            match slots[k as int] {
                SlotModel::Text(s) => Ok(s),
                SlotModel::Html(_) => Err(err(p, ErrorKind::SlotMismatch)),
            }
        } else {
            Err(err(p, ErrorKind::UnboundSlot))
        },
        _ => Err(err(p, ErrorKind::ExpectedName)),
    }
}

/// The attribute at `p` and the position after it: `key:val`, or a bare
/// `key`, whose value is empty. `Ok(None)` where no attribute starts.
pub open spec fn parse_attr<'a>(toks: Seq<Token<'a>>, slots: Seq<SlotModel>, p: int) -> Result<
    Option<(AttrModel, int)>,
    ParseError,
> {
    if is_value(tok(toks, p)) {
        if tok(toks, p + 1) == Some(Token::<'a>::Colon) {
            if is_value(tok(toks, p + 2)) {
                match value_text(toks, slots, p) {
                    Err(e) => Err(e),
                    Ok(key) => match value_text(toks, slots, p + 2) {
                        Err(e) => Err(e),
                        Ok(val) => Ok(Some((AttrModel { key, val }, p + 3))),
                    },
                }
            } else {
                Err(err(p + 2, ErrorKind::MalformedAttr))
            }
        } else {
            match value_text(toks, slots, p) {
                Err(e) => Err(e),
                Ok(key) => Ok(Some((AttrModel { key, val: Seq::empty() }, p + 1))),
            }
        }
    } else if tok(toks, p) == Some(Token::<'a>::Colon) {
        Err(err(p, ErrorKind::MalformedAttr))
    } else {
        Ok(None)
    }
}

/// The attributes from `p` on, after those in `acc`, and the position
/// after the last of them.
pub open spec fn parse_attrs<'a>(
    toks: Seq<Token<'a>>,
    slots: Seq<SlotModel>,
    p: int,
    acc: Seq<AttrModel>,
) -> Result<(Seq<AttrModel>, int), ParseError>
    decreases toks.len() - p,
{
    match parse_attr(toks, slots, p) {
        Err(e) => Err(e),
        Ok(None) => Ok((acc, p)),
        Ok(Some((a, q))) => if p < q <= toks.len() {
            parse_attrs(toks, slots, q, acc.push(a))
        } else {
            Ok((acc, p))
        },
    }
}

/// What a slot adds to a tag's body: its text, or its node as
/// [`crate::Tag::content`] adds a node.
pub open spec fn slot_content(slots: Seq<SlotModel>, k: usize, p: int) -> Result<
    Seq<ContentModel>,
    ParseError,
> {
    if k < slots.len() {
        match slots[k as int] {
            SlotModel::Text(s) => Ok(seq![ContentModel::Text(s)]),
            SlotModel::Html(h) => Ok(html_content_view(h)),
        }
    } else {
        Err(err(p, ErrorKind::UnboundSlot))
    }
}

/// The node a slot stands for at the top.
pub open spec fn slot_node(slots: Seq<SlotModel>, k: usize, p: int) -> Result<HtmlModel, ParseError> {
    if k < slots.len() {
        match slots[k as int] {
            SlotModel::Text(_) => Err(err(p, ErrorKind::SlotMismatch)),
            SlotModel::Html(h) => Ok(h),
        }
    } else {
        Err(err(p, ErrorKind::UnboundSlot))
    }
}

/// The tag that opens at `p`, and the position after its `)`.
pub open spec fn parse_tag<'a>(toks: Seq<Token<'a>>, slots: Seq<SlotModel>, p: int) -> Result<
    (TagModel, int),
    ParseError,
>
    decreases toks.len() - p, 0int,
{
    if tok(toks, p) != Some(Token::<'a>::Open) {
        Err(err(p, ErrorKind::ExpectedHtml))
    } else if !is_value(tok(toks, p + 1)) {
        Err(err(p + 1, ErrorKind::ExpectedName))
    } else {
        match value_text(toks, slots, p + 1) {
            Err(e) => Err(e),
            Ok(name) => match parse_attrs(toks, slots, p + 2, Seq::empty()) {
                Err(e) => Err(e),
                Ok((attrs, q)) => {
                    let body = if !(p + 2 <= q <= toks.len()) {
                        Err(err(q, ErrorKind::UnexpectedToken))
                    } else if tok(toks, q) == Some(Token::<'a>::Equals) {
                        if is_item_start(tok(toks, q + 1)) {
                            match parse_items(toks, slots, q + 1, Seq::empty()) {
                                Err(e) => Err(e),
                                Ok((content, r)) => Ok((content, r, false)),
                            }
                        } else {
                            Err(err(q + 1, ErrorKind::ExpectedContent))
                        }
                    } else if is_item_start(tok(toks, q)) {
                        match parse_items(toks, slots, q, Seq::empty()) {
                            Err(e) => Err(e),
                            Ok((content, r)) => Ok((content, r, false)),
                        }
                    } else {
                        Ok((Seq::empty(), q, true))
                    };
                    match body {
                        Err(e) => Err(e),
                        Ok((content, r, self_closing)) => if tok(toks, r) == Some(
                            Token::<'a>::Close,
                        ) {
                            Ok((TagModel { name, attrs, content, self_closing }, r + 1))
                        } else if r >= toks.len() {
                            Err(err(r, ErrorKind::Unclosed))
                        } else {
                            Err(err(r, ErrorKind::UnexpectedToken))
                        },
                    }
                },
            },
        }
    }
}

/// The content that one item at `p` adds to a tag's body, and the
/// position after the item.
pub open spec fn parse_item<'a>(toks: Seq<Token<'a>>, slots: Seq<SlotModel>, p: int) -> Result<
    (Seq<ContentModel>, int),
    ParseError,
>
    decreases toks.len() - p, 1int,
{
    match tok(toks, p) {
        Some(Token::Literal(s)) => Ok((seq![ContentModel::Text(s@)], p + 1)),
        Some(Token::Slot(k)) => match slot_content(slots, k, p) {
            Err(e) => Err(e),
            Ok(c) => Ok((c, p + 1)),
        },
        Some(Token::Open) => match parse_tag(toks, slots, p) {
            Err(e) => Err(e),
            Ok((t, q)) => Ok((seq![ContentModel::Html(HtmlModel::Tag(t))], q)),
        },
        _ => Err(err(p, ErrorKind::ExpectedContent)),
    }
}

/// The content of the items from `p` on, after `acc`, and the position
/// after the last item.
pub open spec fn parse_items<'a>(
    toks: Seq<Token<'a>>,
    slots: Seq<SlotModel>,
    p: int,
    acc: Seq<ContentModel>,
) -> Result<(Seq<ContentModel>, int), ParseError>
    decreases toks.len() - p, 2int,
{
    if is_item_start(tok(toks, p)) {
        match parse_item(toks, slots, p) {
            Err(e) => Err(e),
            Ok((c, q)) => if p < q <= toks.len() {
                parse_items(toks, slots, q, acc + c)
            } else {
                Err(err(q, ErrorKind::UnexpectedToken))
            },
        }
    } else {
        Ok((acc, p))
    }
}

/// The nodes from `p` on, after `acc`, and the position after the last.
pub open spec fn parse_nodes<'a>(
    toks: Seq<Token<'a>>,
    slots: Seq<SlotModel>,
    p: int,
    acc: Seq<HtmlModel>,
) -> Result<(Seq<HtmlModel>, int), ParseError>
    decreases toks.len() - p,
{
    match tok(toks, p) {
        Some(Token::Open) => match parse_tag(toks, slots, p) {
            Err(e) => Err(e),
            Ok((t, q)) => if p < q <= toks.len() {
                parse_nodes(toks, slots, q, acc.push(HtmlModel::Tag(t)))
            } else {
                Err(err(q, ErrorKind::UnexpectedToken))
            },
        },
        Some(Token::Slot(k)) => match slot_node(slots, k, p) {
            Err(e) => Err(e),
            Ok(h) => parse_nodes(toks, slots, p + 1, acc.push(h)),
        },
        _ => Ok((acc, p)),
    }
}

/// The document that the whole of `toks` denotes: one node, or a sequence
/// of two or more.
pub open spec fn parse_document<'a>(toks: Seq<Token<'a>>, slots: Seq<SlotModel>) -> Result<
    HtmlModel,
    ParseError,
> {
    if !is_node_start(tok(toks, 0)) {
        Err(err(0, ErrorKind::ExpectedHtml))
    } else {
        match parse_nodes(toks, slots, 0, Seq::empty()) {
            Err(e) => Err(e),
            Ok((nodes, q)) => if q < toks.len() {
                Err(err(q, ErrorKind::UnexpectedToken))
            } else if nodes.len() == 1 {
                Ok(nodes[0])
            } else {
                Ok(HtmlModel::Sequence(nodes))
            },
        }
    }
}

/// The token at `p`, if there is one.
fn peek<'a>(toks: &Vec<Token<'a>>, p: usize) -> (r: Option<Token<'a>>)
    ensures
        r == tok(toks@, p as int),
{
    if p < toks.len() {
        Some(toks[p])
    } else {
        None
    }
}

fn value_start<'a>(t: Option<Token<'a>>) -> (r: bool)
    ensures
        r == is_value(t),
{
    match t {
        Some(Token::Ident(_)) | Some(Token::Literal(_)) | Some(Token::Slot(_)) => true,
        _ => false,
    }
}

fn item_start<'a>(t: Option<Token<'a>>) -> (r: bool)
    ensures
        r == is_item_start(t),
{
    match t {
        Some(Token::Open) | Some(Token::Literal(_)) | Some(Token::Slot(_)) => true,
        _ => false,
    }
}

fn error<T>(p: usize, kind: ErrorKind) -> (r: Result<T, ParseError>)
    ensures
        r matches Err(e) && e == err(p as int, kind),
{
    Err(ParseError { pos: p, kind })
}

/// The text of the value token at `p`.
fn read_value<'a>(toks: &Vec<Token<'a>>, slots: &Vec<Slot<'a>>, p: usize) -> (r: Result<
    Str<'a>,
    ParseError,
>)
    ensures
        match value_text(toks@, slots_view(slots@), p as int) {
            Ok(s) => r matches Ok(x) && x@ == s,
            Err(e) => r matches Err(e2) && e2 == e,
        },
{
    match peek(toks, p) {
        Some(Token::Ident(s)) => Ok(Cow::Borrowed(s)),
        Some(Token::Literal(s)) => Ok(Cow::Borrowed(s)),
        Some(Token::Slot(k)) => {
            if k < slots.len() {
                match &slots[k] {
                    Slot::Text(s) => Ok(copy_str(s)),
                    Slot::Html(_) => error(p, ErrorKind::SlotMismatch),
                }
            } else {
                error(p, ErrorKind::UnboundSlot)
            }
        },
        _ => error(p, ErrorKind::ExpectedName),
    }
}

/// The attribute at `p`: its key, its value and the position after it.
fn read_attr<'a>(toks: &Vec<Token<'a>>, slots: &Vec<Slot<'a>>, p: usize) -> (r: Result<
    Option<(Str<'a>, Str<'a>, usize)>,
    ParseError,
>)
    requires
        p <= toks.len(),
    ensures
        match parse_attr(toks@, slots_view(slots@), p as int) {
            Ok(None) => r matches Ok(None),
            Ok(Some((a, q))) => r matches Ok(Some((k, v, q2))) && k@ == a.key && v@ == a.val && q2
                == q,
            Err(e) => r matches Err(e2) && e2 == e,
        },
{
    if value_start(peek(toks, p)) {
        let colon = match peek(toks, p + 1) {
            Some(Token::Colon) => true,
            _ => false,
        };
        if colon {
            if value_start(peek(toks, p + 2)) {
                let key = match read_value(toks, slots, p) {
                    Ok(k) => k,
                    Err(e) => return Err(e),
                };
                let val = match read_value(toks, slots, p + 2) {
                    Ok(v) => v,
                    Err(e) => return Err(e),
                };
                Ok(Some((key, val, p + 3)))
            } else {
                error(p + 2, ErrorKind::MalformedAttr)
            }
        } else {
            let key = match read_value(toks, slots, p) {
                Ok(k) => k,
                Err(e) => return Err(e),
            };
            Ok(Some((key, Cow::Owned(String::new()), p + 1)))
        }
    } else {
        match peek(toks, p) {
            Some(Token::Colon) => error(p, ErrorKind::MalformedAttr),
            _ => Ok(None),
        }
    }
}

/// The tag that opens at `p`, and the position after its `)`.
fn read_tag<'a>(toks: &Vec<Token<'a>>, slots: &Vec<Slot<'a>>, p: usize) -> (r: Result<
    (Tag<'a>, usize),
    ParseError,
>)
    requires
        p <= toks.len(),
    ensures
        match parse_tag(toks@, slots_view(slots@), p as int) {
            Ok((t, q)) => r matches Ok((x, q2)) && x@ == t && q2 == q,
            Err(e) => r matches Err(e2) && e2 == e,
        },
    decreases toks.len() - p, 0int,
{
    let ghost sv = slots_view(slots@);
    match peek(toks, p) {
        Some(Token::Open) => {},
        _ => return error(p, ErrorKind::ExpectedHtml),
    }
    if !value_start(peek(toks, p + 1)) {
        return error(p + 1, ErrorKind::ExpectedName);
    }
    let name = match read_value(toks, slots, p + 1) {
        Ok(n) => n,
        Err(e) => return Err(e),
    };
    let mut tag = Tag::new(name);
    let mut q = p + 2;
    loop
        invariant
            p + 2 <= q <= toks.len(),
            sv == slots_view(slots@),
            tok(toks@, p as int) == Some(Token::<'a>::Open),
            is_value(tok(toks@, p + 1)),
            value_text(toks@, sv, p + 1) == Ok::<Seq<char>, ParseError>(name@),
            parse_attrs(toks@, sv, p + 2, Seq::empty()) == parse_attrs(
                toks@,
                sv,
                q as int,
                tag@.attrs,
            ),
            tag@ == (TagModel {
                name: name@,
                attrs: tag@.attrs,
                content: Seq::empty(),
                self_closing: false,
            }),
        ensures
            p + 2 <= q <= toks.len(),
            parse_attrs(toks@, sv, p + 2, Seq::empty()) == Ok::<(Seq<AttrModel>, int), ParseError>(
                (tag@.attrs, q as int),
            ),
            tag@ == (TagModel {
                name: name@,
                attrs: tag@.attrs,
                content: Seq::empty(),
                self_closing: false,
            }),
        decreases toks.len() - q,
    {
        match read_attr(toks, slots, q) {
            Err(e) => return Err(e),
            Ok(None) => break,
            Ok(Some((k, v, q2))) => {
                if !(q < q2 && q2 <= toks.len()) {
                    break;
                }
                tag = tag.attr(k, v);
                q = q2;
            },
        }
    }
    let (tag, r) = match peek(toks, q) {
        Some(Token::Equals) => {
            if !item_start(peek(toks, q + 1)) {
                return error(q + 1, ErrorKind::ExpectedContent);
            }
            match read_items(toks, slots, q + 1, tag) {
                Ok(x) => x,
                Err(e) => return Err(e),
            }
        },
        _ => {
            if item_start(peek(toks, q)) {
                match read_items(toks, slots, q, tag) {
                    Ok(x) => x,
                    Err(e) => return Err(e),
                }
            } else {
                (tag.self_closing(), q)
            }
        },
    };
    match peek(toks, r) {
        Some(Token::Close) => Ok((tag, r + 1)),
        _ => {
            if r >= toks.len() {
                error(r, ErrorKind::Unclosed)
            } else {
                error(r, ErrorKind::UnexpectedToken)
            }
        },
    }
}

/// Append to `tag` the content of the item at `p`.
fn read_item<'a>(toks: &Vec<Token<'a>>, slots: &Vec<Slot<'a>>, p: usize, tag: Tag<'a>) -> (r:
    Result<(Tag<'a>, usize), ParseError>)
    requires
        p <= toks.len(),
    ensures
        match parse_item(toks@, slots_view(slots@), p as int) {
            Ok((c, q)) => r matches Ok((x, q2)) && x@ == (TagModel {
                content: tag@.content + c,
                ..tag@
            }) && q2 == q,
            Err(e) => r matches Err(e2) && e2 == e,
        },
    decreases toks.len() - p, 1int,
{
    match peek(toks, p) {
        Some(Token::Literal(s)) => Ok((tag.content(s), p + 1)),
        Some(Token::Slot(k)) => {
            if k < slots.len() {
                match &slots[k] {
                    Slot::Text(s) => Ok((tag.content(copy_str(s)), p + 1)),
                    Slot::Html(h) => Ok((tag.content(copy_html(h)), p + 1)),
                }
            } else {
                error(p, ErrorKind::UnboundSlot)
            }
        },
        Some(Token::Open) => match read_tag(toks, slots, p) {
            Ok((inner, q)) => Ok((tag.content(inner), q)),
            Err(e) => Err(e),
        },
        _ => error(p, ErrorKind::ExpectedContent),
    }
}

/// Append to `tag` the content of the items from `p` on.
fn read_items<'a>(toks: &Vec<Token<'a>>, slots: &Vec<Slot<'a>>, p: usize, tag: Tag<'a>) -> (r:
    Result<(Tag<'a>, usize), ParseError>)
    requires
        p <= toks.len(),
    ensures
        match parse_items(toks@, slots_view(slots@), p as int, tag@.content) {
            Ok((c, q)) => r matches Ok((x, q2)) && x@ == (TagModel { content: c, ..tag@ }) && q2
                == q,
            Err(e) => r matches Err(e2) && e2 == e,
        },
    decreases toks.len() - p, 2int,
{
    let ghost sv = slots_view(slots@);
    let ghost t0 = tag@;
    let mut acc_tag = tag;
    let mut cur = p;
    while item_start(peek(toks, cur))
        invariant
            p <= cur <= toks.len(),
            sv == slots_view(slots@),
            parse_items(toks@, sv, p as int, t0.content) == parse_items(
                toks@,
                sv,
                cur as int,
                acc_tag@.content,
            ),
            acc_tag@ == (TagModel { content: acc_tag@.content, ..t0 }),
            t0 == tag@,
        decreases toks.len() - cur,
    {
        match read_item(toks, slots, cur, acc_tag) {
            Err(e) => return Err(e),
            Ok((t, q)) => {
                if !(cur < q && q <= toks.len()) {
                    return error(q, ErrorKind::UnexpectedToken);
                }
                acc_tag = t;
                cur = q;
            },
        }
    }
    Ok((acc_tag, cur))
}

/// Read the whole of `tokens` as a document, with `slots[k]` standing in
/// for each slot `k`.
///
/// At the top, a slot's value must be a node; in a name, a key or a value
/// it must be text; in a tag's body it may be either, and a sequence node
/// adds each of its items. A single node is returned as it is; two or more
/// as a sequence.
pub fn hteaml<'a>(tokens: &Vec<Token<'a>>, slots: &Vec<Slot<'a>>) -> (r: Result<
    Html<'a>,
    ParseError,
>)
    ensures
        match parse_document(tokens@, slots_view(slots@)) {
            Ok(h) => r matches Ok(x) && x@ == h,
            Err(e) => r matches Err(e2) && e2 == e,
        },
{
    let ghost sv = slots_view(slots@);
    match peek(tokens, 0) {
        Some(Token::Open) | Some(Token::Slot(_)) => {},
        _ => return error(0, ErrorKind::ExpectedHtml),
    }
    let mut nodes: Vec<Html<'a>> = Vec::new();
    let mut cur: usize = 0;
    proof {
        assert(nodes@.map_values(|h: Html<'a>| h@) =~= Seq::empty());
    }
    loop
        invariant
            cur <= tokens.len(),
            sv == slots_view(slots@),
            parse_nodes(tokens@, sv, 0, Seq::empty()) == parse_nodes(
                tokens@,
                sv,
                cur as int,
                nodes@.map_values(|h: Html<'a>| h@),
            ),
        ensures
            cur <= tokens.len(),
            parse_nodes(tokens@, sv, 0, Seq::empty()) == Ok::<(Seq<HtmlModel>, int), ParseError>(
                (nodes@.map_values(|h: Html<'a>| h@), cur as int),
            ),
        decreases tokens.len() - cur,
    {
        let ghost before = nodes@;
        match peek(tokens, cur) {
            Some(Token::Open) => match read_tag(tokens, slots, cur) {
                Err(e) => return Err(e),
                Ok((t, q)) => {
                    if !(cur < q && q <= tokens.len()) {
                        return error(q, ErrorKind::UnexpectedToken);
                    }
                    nodes.push(tag_node(t));
                    cur = q;
                },
            },
            Some(Token::Slot(k)) => {
                if k >= slots.len() {
                    return error(cur, ErrorKind::UnboundSlot);
                }
                match &slots[k] {
                    Slot::Text(_) => return error(cur, ErrorKind::SlotMismatch),
                    Slot::Html(h) => nodes.push(copy_html(h)),
                }
                cur = cur + 1;
            },
            _ => break,
        }
        proof {
            assert(nodes@.map_values(|h: Html<'a>| h@) =~= before.map_values(|h: Html<'a>| h@).push(
                nodes@.last()@,
            ));
        }
    }
    if cur < tokens.len() {
        return error(cur, ErrorKind::UnexpectedToken);
    }
    if nodes.len() == 1 {
        let h = nodes.pop().unwrap();
        Ok(h)
    } else {
        Ok(seq_node(nodes))
    }
}

} // verus!
