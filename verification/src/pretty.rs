use vstd::prelude::*;

use crate::dom::{parse_document, parse_fragment, parsed_document, parsed_fragment, Attr, DomNode, NodeData};
use crate::escape::{encode_double_quoted_attribute, encode_text, escape_attr, escape_text};
use crate::inline::{
    lemma_pieces_push, normalized_len, normalized_text_len, pieces, push_text_parts, text_pieces,
    wrap_inline_parts, wrapped_lines, InlinePart, Piece,
};
use crate::names::{
    is_block_element, is_block_tag, is_raw_text_element, is_raw_text_element_exec,
    is_text_wrap_element, is_text_wrap_tag, is_void_element, is_void_tag,
};
use crate::pretty_options::{default_pretty_options, PrettyOptions};
use crate::slim::deeper;
use crate::text::{
    ascii_lower, ascii_lower_char, ascii_lower_chars, ascii_lower_seq, chars_of, eq_ignore_ascii_case,
    char_is_whitespace, eq_ignore_ascii_case_lit, eq_lit, is_blank, is_blank_chars, is_ws, push_all, push_lit, starts_with_lit,
    string_of, trim_start, trim_start_index,
};

verus! {

/// How `pretty` lays a tree out: spaces per level, the wrapping width (at
/// least 1) if any, and whether the input was parsed as a whole document.
#[derive(Clone, Copy)]
pub struct Layout {
    pub ident: usize,
    pub wrap: Option<usize>,
    pub is_document: bool,
}

/// The parent is a `head` element.
pub open spec fn is_head_child(parent: Option<Seq<char>>) -> bool {
    parent matches Some(p) && eq_ignore_ascii_case(p, "head"@)
}

/// The parent is an element whose text is raw (`script`, `style`, ...).
pub open spec fn is_raw_text_parent(parent: Option<Seq<char>>) -> bool {
    parent matches Some(p) && is_raw_text_element(ascii_lower_seq(p))
}

/// `s` with every `&gt;` turned back into `>`.
pub open spec fn replace_gt(s: Seq<char>) -> Seq<char>
    decreases s.len(),
{
    if s.len() >= 4 && s.take(4) == seq!['&', 'g', 't', ';'] {
        seq!['>'] + replace_gt(s.skip(4))
    } else if s.len() == 0 {
        seq![]
    } else {
        seq![s[0]] + replace_gt(s.drop_first())
    }
}

/// How an attribute value is written: escaped for a double-quoted
/// attribute, with `>` left as it is.
pub open spec fn attr_value_out(v: Seq<char>) -> Seq<char> {
    replace_gt(escape_attr(v))
}

/// The attributes of a start tag, written in order.
pub open spec fn attrs_text(attrs: Seq<Attr>) -> Seq<char>
    decreases attrs.len(),
{
    if attrs.len() == 0 {
        seq![]
    } else {
        attrs_text(attrs.drop_last()) + seq![' '] + attrs.last().name@ + "=\""@ + attr_value_out(
            attrs.last().value@,
        ) + seq!['"']
    }
}

/// A start tag with all its attributes.
pub open spec fn start_tag(name: Seq<char>, attrs: Seq<Attr>) -> Seq<char> {
    seq!['<'] + name + attrs_text(attrs) + seq!['>']
}

/// An end tag.
pub open spec fn end_tag(name: Seq<char>) -> Seq<char> {
    "</"@ + name + seq!['>']
}

/// A processing instruction.
pub open spec fn pi_text(target: Seq<char>, data: Seq<char>) -> Seq<char> {
    "<?"@ + target + (if data.len() > 0 {
        seq![' '] + data
    } else {
        seq![]
    }) + "?>"@
}

/// A doctype, as `pretty` writes it.
pub open spec fn doctype_text(name: Seq<char>, public_id: Seq<char>, system_id: Seq<char>) -> Seq<
    char,
> {
    "<!DOCTYPE "@ + name + (if public_id.len() > 0 {
        " PUBLIC \""@ + public_id + seq!['"']
    } else {
        seq![]
    }) + (if system_id.len() > 0 {
        (if public_id.len() == 0 {
            " SYSTEM"@
        } else {
            seq![]
        }) + " \""@ + system_id + seq!['"']
    } else {
        seq![]
    }) + seq!['>']
}

/// A new line for a block at `depth`: a line break unless nothing was
/// written yet, then the indentation.
pub open spec fn block_start(out: Seq<char>, depth: usize, lay: Layout) -> Seq<char> {
    (if out.len() > 0 {
        out.push('\n')
    } else {
        out
    }) + Seq::new(lay.ident as nat * depth as nat, |i: int| ' ')
}

/// Some descendant of `node` is a block element.
pub open spec fn contains_block(node: DomNode) -> bool
    decreases node, 0int,
{
    contains_block_from(node.children@, 0)
}

/// Some node of `nodes[i..]`, or a descendant, is a block element.
pub open spec fn contains_block_from(nodes: Seq<DomNode>, i: int) -> bool
    decreases nodes, nodes.len() - i,
{
    if 0 <= i < nodes.len() {
        ||| (match nodes[i].data {
            NodeData::Element { name, .. } => is_block_tag(ascii_lower_seq(name@)),
            _ => false,
        })
        ||| contains_block(nodes[i])
        ||| contains_block_from(nodes, i + 1)
    } else {
        false
    }
}

/// Some node of `nodes[i..]` is a `code` element.
pub open spec fn has_code_from(nodes: Seq<DomNode>, i: int) -> bool
    decreases nodes.len() - i,
{
    if 0 <= i < nodes.len() {
        (match nodes[i].data {
            NodeData::Element { name, .. } => eq_ignore_ascii_case(name@, "code"@),
            _ => false,
        }) || has_code_from(nodes, i + 1)
    } else {
        false
    }
}

/// The nearest sibling before `nodes[i]` that is not blank text is a `head`
/// element.
pub open spec fn follows_head(nodes: Seq<DomNode>, i: int) -> bool
    decreases i,
{
    if 0 < i <= nodes.len() {
        match nodes[i - 1].data {
            NodeData::Element { name, .. } => eq_ignore_ascii_case(name@, "head"@),
            NodeData::Text { text } => is_blank(text@) && follows_head(nodes, i - 1),
            _ => false,
        }
    } else {
        false
    }
}

/// The inline pieces of `node`, whose parent is `parent`.
pub open spec fn node_pieces(node: DomNode, parent: Option<Seq<char>>) -> Seq<Piece>
    decreases node, 0int,
{
    match node.data {
        NodeData::Document => children_pieces(node.children@, 0, None),
        NodeData::Fragment => children_pieces(node.children@, 0, None),
        NodeData::Doctype { name, .. } => seq![Piece::Markup("<!DOCTYPE "@ + name@ + seq!['>'])],
        NodeData::Comment { text } => seq![Piece::Markup("<!--"@ + text@ + "-->"@)],
        NodeData::Text { text } => if is_raw_text_parent(parent) {
            seq![Piece::Markup(text@)]
        } else {
            text_pieces(text@)
        },
        NodeData::Element { name, attrs } => seq![Piece::Open(start_tag(name@, attrs@))] + if !is_void_tag(
            ascii_lower_seq(name@),
        ) {
            children_pieces(node.children@, 0, Some(name@)) + seq![Piece::Close(end_tag(name@))]
        } else {
            seq![]
        },
        NodeData::ProcessingInstruction { target, data } => seq![
            Piece::Markup(pi_text(target@, data@)),
        ],
    }
}

/// The inline pieces of `nodes[i..]`, whose parent is `parent`.
pub open spec fn children_pieces(nodes: Seq<DomNode>, i: int, parent: Option<Seq<char>>) -> Seq<
    Piece,
>
    decreases nodes, nodes.len() - i,
{
    if 0 <= i < nodes.len() {
        node_pieces(nodes[i], parent) + children_pieces(nodes, i + 1, parent)
    } else {
        seq![]
    }
}

/// Writes each wrapped line on its own line at `depth`.
pub open spec fn lines_out(out: Seq<char>, lines: Seq<Seq<char>>, depth: usize, lay: Layout) -> Seq<
    char,
>
    decreases lines.len(),
{
    if lines.len() == 0 {
        out
    } else {
        lines_out(block_start(out, depth, lay) + lines[0], lines.drop_first(), depth, lay)
    }
}

/// The width at which the content of an element is wrapped, if it is.
pub open spec fn wrap_width(node: DomNode, name: Seq<char>, lay: Layout) -> Option<usize> {
    if lay.ident == 0 || !is_text_wrap_tag(ascii_lower_seq(name)) || contains_block(node) {
        None
    } else {
        lay.wrap
    }
}

/// What `pretty` has written after `node` (parent `parent`, right after a
/// `head` element or not) is appended at `depth` to `out`.
pub open spec fn ser(
    node: DomNode,
    parent: Option<Seq<char>>,
    after_head: bool,
    depth: usize,
    lay: Layout,
    out: Seq<char>,
) -> Seq<char>
    decreases node, 0int,
{
    match node.data {
        NodeData::Document => ser_children(node.children@, 0, None, depth, lay, out),
        NodeData::Fragment => ser_children(node.children@, 0, None, depth, lay, out),
        NodeData::Doctype { name, public_id, system_id } => block_start(out, depth, lay)
            + doctype_text(name@, public_id@, system_id@),
        NodeData::Comment { text } => out + "<!--"@ + text@ + "-->"@,
        NodeData::Text { text } => if is_blank(text@) {
            out
        } else if is_raw_text_parent(parent) {
            out + text@
        } else {
            out + escape_text(text@)
        },
        NodeData::ProcessingInstruction { target, data } => out + pi_text(target@, data@),
        NodeData::Element { name, attrs } => {
            let name = name@;
            if !lay.is_document && (name == "html"@ || name == "head"@ || name == "body"@) {
                ser_children(node.children@, 0, Some(name), depth, lay, out)
            } else {
                let block = lay.ident > 0 && (is_block_tag(ascii_lower_seq(name))
                    || is_head_child(parent));
                let out1 = if block {
                    block_start(
                        if eq_ignore_ascii_case(name, "body"@) && after_head {
                            out.push('\n')
                        } else {
                            out
                        },
                        depth,
                        lay,
                    )
                } else {
                    out
                };
                let out2 = out1 + start_tag(name, attrs@);
                if is_void_tag(ascii_lower_seq(name)) {
                    out2
                } else {
                    let out3 = if eq_ignore_ascii_case(name, "pre"@) && has_code_from(
                        node.children@,
                        0,
                    ) {
                        out2.push('\n')
                    } else {
                        out2
                    };
                    let parts = children_pieces(node.children@, 0, Some(name));
                    let w = wrap_width(node, name, lay);
                    if w is Some && normalized_len(parts) > w.unwrap() {
                        block_start(
                            lines_out(
                                out3,
                                wrapped_lines(parts, w.unwrap() as nat),
                                deeper(depth),
                                lay,
                            ),
                            depth,
                            lay,
                        ) + end_tag(name)
                    } else {
                        let child_depth = if block {
                            deeper(depth)
                        } else {
                            depth
                        };
                        let out4 = ser_children(
                            node.children@,
                            0,
                            Some(name),
                            child_depth,
                            lay,
                            out3,
                        );
                        let out5 = if block && out4.subrange(out3.len() as int, out4.len() as int).contains('\n') {
                            block_start(out4, depth, lay)
                        } else {
                            out4
                        };
                        out5 + end_tag(name)
                    }
                }
            }
        },
    }
}

/// What `pretty` has written after `nodes[i..]` (children of `parent`) are
/// appended at `depth` to `out`.
pub open spec fn ser_children(
    nodes: Seq<DomNode>,
    i: int,
    parent: Option<Seq<char>>,
    depth: usize,
    lay: Layout,
    out: Seq<char>,
) -> Seq<char>
    decreases nodes, nodes.len() - i,
{
    if 0 <= i < nodes.len() {
        ser_children(
            nodes,
            i + 1,
            parent,
            depth,
            lay,
            ser(nodes[i], parent, follows_head(nodes, i), depth, lay, out),
        )
    } else {
        out
    }
}


/// Turns every `&gt;` of `s` back into `>`.
pub fn replace_gt_chars(s: &[char]) -> (r: Vec<char>)
    ensures
        r@ == replace_gt(s@),
{
    let n: usize = s.len();
    let mut out: Vec<char> = Vec::new();
    let mut i: usize = 0;
    assert(s@.skip(0) =~= s@);
    while i < n
        invariant
            n == s@.len(),
            i <= n,
            replace_gt(s@) == out@ + replace_gt(s@.skip(i as int)),
        decreases n - i,
    {
        let ghost rest = s@.skip(i as int);
        if n - i >= 4 && s[i] == '&' && s[i + 1] == 'g' && s[i + 2] == 't' && s[i + 3] == ';' {
            assert(rest.take(4) =~= seq!['&', 'g', 't', ';']);
            assert(rest.skip(4) =~= s@.skip(i + 4));
            out.push('>');
            assert(replace_gt(s@) == out@ + replace_gt(s@.skip(i + 4))) by {
                assert(replace_gt(rest) == seq!['>'] + replace_gt(rest.skip(4)));
            }
            i = i + 4;
        } else {
            assert(!(rest.len() >= 4 && rest.take(4) == seq!['&', 'g', 't', ';'])) by {
                if rest.len() >= 4 && rest.take(4) == seq!['&', 'g', 't', ';'] {
                    assert(rest.take(4)[0] == s@[i as int]);
                    assert(rest.take(4)[1] == s@[i + 1]);
                    assert(rest.take(4)[2] == s@[i + 2]);
                    assert(rest.take(4)[3] == s@[i + 3]);
                }
            }
            assert(rest.drop_first() =~= s@.skip(i + 1));
            out.push(s[i]);
            assert(replace_gt(s@) == out@ + replace_gt(s@.skip(i + 1))) by {
                assert(replace_gt(rest) == seq![rest[0]] + replace_gt(rest.drop_first()));
            }
            i = i + 1;
        }
    }
    assert(s@.skip(n as int) =~= Seq::<char>::empty());
    out
}

/// Writes a start tag with all its attributes.
fn write_start_tag(name: &[char], attrs: &Vec<Attr>, out: &mut Vec<char>)
    ensures
        final(out)@ == old(out)@ + start_tag(name@, attrs@),
{
    out.push('<');
    push_all(out, name);
    let ghost base = out@;
    let n: usize = attrs.len();
    let mut i: usize = 0;
    assert(attrs@.take(0) =~= seq![]);
    while i < n
        invariant
            n == attrs@.len(),
            i <= n,
            out@ == base + attrs_text(attrs@.take(i as int)),
        decreases n - i,
    {
        assert(attrs@.take(i + 1).drop_last() =~= attrs@.take(i as int));
        assert(attrs@.take(i + 1).last() == attrs@[i as int]);
        out.push(' ');
        push_all(out, attrs[i].name.as_slice());
        push_lit(out, "=\"");
        let esc = encode_double_quoted_attribute(attrs[i].value.as_slice());
        let v = replace_gt_chars(esc.as_slice());
        push_all(out, v.as_slice());
        out.push('"');
        i = i + 1;
    }
    assert(attrs@.take(n as int) =~= attrs@);
    out.push('>');
    assert(out@ =~= old(out)@ + start_tag(name@, attrs@));
}

/// Writes an end tag.
fn write_end_tag(name: &[char], out: &mut Vec<char>)
    ensures
        final(out)@ == old(out)@ + end_tag(name@),
{
    push_lit(out, "</");
    push_all(out, name);
    out.push('>');
    assert(out@ =~= old(out)@ + end_tag(name@));
}

/// Starts a new line for a block at `depth`: a line break unless nothing
/// was written yet, then the indentation of that depth.
pub fn start_block(out: &mut Vec<char>, depth: usize, lay: &Layout)
    ensures
        final(out)@ == block_start(old(out)@, depth, *lay),
{
    if out.len() > 0 {
        out.push('\n');
    }
    let ghost base = out@;
    let w: usize = lay.ident;
    let mut d: usize = 0;
    while d < depth
        invariant
            d <= depth,
            w == lay.ident,
            out@ == base + Seq::new(w as nat * d as nat, |i: int| ' '),
        decreases depth - d,
    {
        let mut k: usize = 0;
        while k < w
            invariant
                k <= w,
                out@ == base + Seq::new(w as nat * d as nat + k as nat, |i: int| ' '),
            decreases w - k,
        {
            out.push(' ');
            k = k + 1;
            assert(Seq::new(w as nat * d as nat + k as nat, |i: int| ' ') =~= Seq::new(
                (w as nat * d as nat + k - 1) as nat,
                |i: int| ' ',
            ).push(' '));
        }
        assert(w as nat * (d + 1) as nat == w as nat * d as nat + w) by (nonlinear_arith);
        d = d + 1;
    }
}

/// Tests `contains_block`.
fn contains_block_exec(node: &DomNode) -> (r: bool)
    ensures
        r == contains_block(*node),
    decreases node, 0int,
{
    contains_block_children(&node.children)
}

/// Tests `contains_block_from(nodes@, 0)`.
fn contains_block_children(nodes: &Vec<DomNode>) -> (r: bool)
    ensures
        r == contains_block_from(nodes@, 0),
    decreases nodes@, nodes@.len(),
{
    let n: usize = nodes.len();
    let mut i: usize = 0;
    while i < n
        invariant
            n == nodes@.len(),
            i <= n,
            contains_block_from(nodes@, 0) == contains_block_from(nodes@, i as int),
        decreases n - i,
    {
        let child = &nodes[i];
        let here = match &child.data {
            NodeData::Element { name, .. } => is_block_element(name.as_slice()),
            _ => false,
        };
        if here || contains_block_exec(child) {
            return true;
        }
        i = i + 1;
    }
    false
}

/// Tests `has_code_from(nodes@, 0)`.
fn has_code_child(nodes: &Vec<DomNode>) -> (r: bool)
    ensures
        r == has_code_from(nodes@, 0),
{
    let n: usize = nodes.len();
    let mut i: usize = 0;
    while i < n
        invariant
            n == nodes@.len(),
            i <= n,
            has_code_from(nodes@, 0) == has_code_from(nodes@, i as int),
        decreases n - i,
    {
        let is_code = match &nodes[i].data {
            NodeData::Element { name, .. } => eq_ignore_ascii_case_lit(name.as_slice(), "code"),
            _ => false,
        };
        if is_code {
            return true;
        }
        i = i + 1;
    }
    false
}

/// Tests `follows_head(nodes@, i)`.
fn follows_head_exec(nodes: &Vec<DomNode>, i: usize) -> (r: bool)
    requires
        i <= nodes@.len(),
    ensures
        r == follows_head(nodes@, i as int),
{
    let mut j: usize = i;
    while j > 0
        invariant
            j <= i <= nodes@.len(),
            follows_head(nodes@, i as int) == follows_head(nodes@, j as int),
        decreases j,
    {
        match &nodes[j - 1].data {
            NodeData::Element { name, .. } => {
                return eq_ignore_ascii_case_lit(name.as_slice(), "head");
            },
            NodeData::Text { text } => {
                if !is_blank_chars(text.as_slice()) {
                    return false;
                }
            },
            _ => {
                return false;
            },
        }
        j = j - 1;
    }
    false
}


/// The characters a parent reference stands for.
pub open spec fn opt_seq(p: Option<&[char]>) -> Option<Seq<char>> {
    match p {
        Some(s) => Some(s@),
        None => None,
    }
}

/// Tests `is_raw_text_parent`.
fn is_raw_text_parent_exec(parent: Option<&[char]>) -> (r: bool)
    ensures
        r == is_raw_text_parent(opt_seq(parent)),
{
    match parent {
        Some(p) => {
            let lower = ascii_lower_chars(p);
            is_raw_text_element_exec(lower.as_slice())
        },
        None => false,
    }
}

/// Appends the inline pieces of `node` to `parts`.
fn collect_inline_parts(node: &DomNode, parent: Option<&[char]>, parts: &mut Vec<InlinePart>)
    ensures
        pieces(final(parts)@) == pieces(old(parts)@) + node_pieces(*node, opt_seq(parent)),
    decreases node, 0int,
{
    match &node.data {
        NodeData::Document => collect_children_parts(&node.children, None, parts),
        NodeData::Fragment => collect_children_parts(&node.children, None, parts),
        NodeData::Doctype { name, .. } => {
            let mut v: Vec<char> = Vec::new();
            push_lit(&mut v, "<!DOCTYPE ");
            push_all(&mut v, name.as_slice());
            v.push('>');
            assert(v@ =~= "<!DOCTYPE "@ + name@ + seq!['>']);
            proof {
                lemma_pieces_push(parts@, InlinePart::Markup(v));
            }
            parts.push(InlinePart::Markup(v));
        },
        NodeData::Comment { text } => {
            let mut v: Vec<char> = Vec::new();
            push_lit(&mut v, "<!--");
            push_all(&mut v, text.as_slice());
            push_lit(&mut v, "-->");
            assert(v@ =~= "<!--"@ + text@ + "-->"@);
            proof {
                lemma_pieces_push(parts@, InlinePart::Markup(v));
            }
            parts.push(InlinePart::Markup(v));
        },
        NodeData::Text { text } => {
            if is_raw_text_parent_exec(parent) {
                let v = text.clone();
                assert(v@ == text@);
                proof {
                    lemma_pieces_push(parts@, InlinePart::Markup(v));
                }
                parts.push(InlinePart::Markup(v));
            } else {
                push_text_parts(text.as_slice(), parts);
            }
        },
        NodeData::Element { name, attrs } => {
            let mut open: Vec<char> = Vec::new();
            write_start_tag(name.as_slice(), attrs, &mut open);
            proof {
                lemma_pieces_push(parts@, InlinePart::Open(open));
            }
            parts.push(InlinePart::Open(open));
            let ghost after_open = pieces(parts@);
            if !is_void_element(name.as_slice()) {
                collect_children_parts(&node.children, Some(name.as_slice()), parts);
                let mut close: Vec<char> = Vec::new();
                write_end_tag(name.as_slice(), &mut close);
                proof {
                    lemma_pieces_push(parts@, InlinePart::Close(close));
                }
                parts.push(InlinePart::Close(close));
            }
            assert(pieces(parts@) =~= pieces(old(parts)@) + node_pieces(*node, opt_seq(parent)));
        },
        NodeData::ProcessingInstruction { target, data } => {
            let mut v: Vec<char> = Vec::new();
            push_lit(&mut v, "<?");
            push_all(&mut v, target.as_slice());
            if data.len() > 0 {
                v.push(' ');
                push_all(&mut v, data.as_slice());
            }
            push_lit(&mut v, "?>");
            assert(v@ =~= pi_text(target@, data@));
            proof {
                lemma_pieces_push(parts@, InlinePart::Markup(v));
            }
            parts.push(InlinePart::Markup(v));
        },
    }
}

/// Appends the inline pieces of `nodes` (children of `parent`) to `parts`.
fn collect_children_parts(nodes: &Vec<DomNode>, parent: Option<&[char]>, parts: &mut Vec<InlinePart>)
    ensures
        pieces(final(parts)@) == pieces(old(parts)@) + children_pieces(nodes@, 0, opt_seq(parent)),
    decreases nodes@, nodes@.len(),
{
    let n: usize = nodes.len();
    let mut i: usize = 0;
    while i < n
        invariant
            n == nodes@.len(),
            i <= n,
            pieces(old(parts)@) + children_pieces(nodes@, 0, opt_seq(parent)) == pieces(parts@)
                + children_pieces(nodes@, i as int, opt_seq(parent)),
        decreases n - i,
    {
        let ghost before = pieces(parts@);
        collect_inline_parts(&nodes[i], parent, parts);
        assert(before + children_pieces(nodes@, i as int, opt_seq(parent)) =~= pieces(parts@)
            + children_pieces(nodes@, i + 1, opt_seq(parent)));
        i = i + 1;
    }
    assert(pieces(parts@) + children_pieces(nodes@, n as int, opt_seq(parent)) =~= pieces(parts@));
}


/// The layout is one that `pretty` builds: a wrapping width, if any, of at
/// least 1 and below `usize::MAX`.
pub open spec fn layout_wf(lay: Layout) -> bool {
    lay.wrap matches Some(w) ==> 1 <= w < usize::MAX
}

/// Writes each wrapped line on its own line at `depth`.
fn write_lines(lines: &Vec<Vec<char>>, depth: usize, lay: &Layout, out: &mut Vec<char>)
    ensures
        final(out)@ == lines_out(old(out)@, lines@.map_values(|l: Vec<char>| l@), depth, *lay),
        final(out)@.len() >= old(out)@.len(),
{
    let ghost all = lines@.map_values(|l: Vec<char>| l@);
    let n: usize = lines.len();
    let mut j: usize = 0;
    assert(all.skip(0) =~= all);
    while j < n
        invariant
            n == lines@.len(),
            j <= n,
            all == lines@.map_values(|l: Vec<char>| l@),
            out@.len() >= old(out)@.len(),
            lines_out(old(out)@, all, depth, *lay) == lines_out(out@, all.skip(j as int), depth, *lay),
        decreases n - j,
    {
        assert(all.skip(j as int)[0] == lines@[j as int]@);
        assert(all.skip(j as int).drop_first() =~= all.skip(j + 1));
        start_block(out, depth, lay);
        push_all(out, lines[j].as_slice());
        j = j + 1;
    }
    assert(all.skip(n as int) =~= Seq::<Seq<char>>::empty());
}

/// Tests whether `s[from..]` holds a `'\n'`.
fn has_newline_from(s: &Vec<char>, from: usize) -> (r: bool)
    requires
        from <= s@.len(),
    ensures
        r == s@.subrange(from as int, s@.len() as int).contains('\n'),
{
    let n: usize = s.len();
    let mut i: usize = from;
    while i < n
        invariant
            n == s@.len(),
            from <= i <= n,
            forall|j: int| from <= j < i ==> s@[j] != '\n',
        decreases n - i,
    {
        if s[i] == '\n' {
            assert(s@.subrange(from as int, n as int)[i - from] == '\n');
            return true;
        }
        i = i + 1;
    }
    assert forall|j: int| 0 <= j < s@.subrange(from as int, n as int).len() implies s@.subrange(
        from as int,
        n as int,
    )[j] != '\n' by {
        assert(s@.subrange(from as int, n as int)[j] == s@[from + j]);
    }
    false
}

/// Writes what `pretty` makes of `node`.
fn serialize_node(
    node: &DomNode,
    parent: Option<&[char]>,
    after_head: bool,
    depth: usize,
    lay: &Layout,
    out: &mut Vec<char>,
)
    requires
        layout_wf(*lay),
    ensures
        final(out)@ == ser(*node, opt_seq(parent), after_head, depth, *lay, old(out)@),
        final(out)@.len() >= old(out)@.len(),
    decreases node, 1int,
{
    match &node.data {
        NodeData::Document => serialize_children(&node.children, None, depth, lay, out),
        NodeData::Fragment => serialize_children(&node.children, None, depth, lay, out),
        NodeData::Doctype { name, public_id, system_id } => {
            start_block(out, depth, lay);
            push_lit(out, "<!DOCTYPE ");
            push_all(out, name.as_slice());
            if public_id.len() > 0 {
                push_lit(out, " PUBLIC \"");
                push_all(out, public_id.as_slice());
                out.push('"');
            }
            if system_id.len() > 0 {
                if public_id.len() == 0 {
                    push_lit(out, " SYSTEM");
                }
                push_lit(out, " \"");
                push_all(out, system_id.as_slice());
                out.push('"');
            }
            out.push('>');
            assert(out@ =~= ser(*node, opt_seq(parent), after_head, depth, *lay, old(out)@));
        },
        NodeData::Comment { text } => {
            push_lit(out, "<!--");
            push_all(out, text.as_slice());
            push_lit(out, "-->");
        },
        NodeData::Text { text } => {
            if !is_blank_chars(text.as_slice()) {
                if is_raw_text_parent_exec(parent) {
                    push_all(out, text.as_slice());
                } else {
                    let esc = encode_text(text.as_slice());
                    push_all(out, esc.as_slice());
                }
            }
        },
        NodeData::ProcessingInstruction { target, data } => {
            push_lit(out, "<?");
            push_all(out, target.as_slice());
            if data.len() > 0 {
                out.push(' ');
                push_all(out, data.as_slice());
            }
            push_lit(out, "?>");
            assert(out@ =~= old(out)@ + pi_text(target@, data@));
        },
        NodeData::Element { name, attrs } => {
            let n = name.as_slice();
            if !lay.is_document && (eq_lit(n, "html") || eq_lit(n, "head") || eq_lit(n, "body")) {
                serialize_children(&node.children, Some(n), depth, lay, out);
            } else {
                serialize_element(node, n, attrs, parent, after_head, depth, lay, out);
            }
        },
    }
}

/// Writes an element that is not left out as a mere container.
#[verifier::spinoff_prover]
#[verifier::rlimit(40)]
fn serialize_element(
    node: &DomNode,
    name: &[char],
    attrs: &Vec<Attr>,
    parent: Option<&[char]>,
    after_head: bool,
    depth: usize,
    lay: &Layout,
    out: &mut Vec<char>,
)
    requires
        layout_wf(*lay),
        node.data is Element,
        node.data->Element_name@ == name@,
        node.data->Element_attrs == *attrs,
        lay.is_document || !(name@ == "html"@ || name@ == "head"@ || name@ == "body"@),
    ensures
        final(out)@ == ser(*node, opt_seq(parent), after_head, depth, *lay, old(out)@),
        final(out)@.len() >= old(out)@.len(),
    decreases node, 0int,
{
    let head_child = match parent {
        Some(p) => eq_ignore_ascii_case_lit(p, "head"),
        None => false,
    };
    let block = lay.ident > 0 && (is_block_element(name) || head_child);
    if block {
        if eq_ignore_ascii_case_lit(name, "body") && after_head {
            out.push('\n');
        }
        start_block(out, depth, lay);
    }
    write_start_tag(name, attrs, out);
    if is_void_element(name) {
        return;
    }
    if eq_ignore_ascii_case_lit(name, "pre") && has_code_child(&node.children) {
        out.push('\n');
    }
    let ghost out3 = out@;
    let wrap = if lay.ident == 0 || !is_text_wrap_element(name) || contains_block_exec(
        node,
    ) {
        None
    } else {
        lay.wrap
    };
    assert(wrap == wrap_width(*node, name@, *lay));
    if let Some(width) = wrap {
        let mut parts: Vec<InlinePart> = Vec::new();
        collect_children_parts(&node.children, Some(name), &mut parts);
        assert(pieces(parts@) =~= children_pieces(node.children@, 0, Some(name@)));
        if normalized_text_len(&parts) > width {
            let lines = wrap_inline_parts(&parts, width);
            write_lines(&lines, depth.saturating_add(1), lay, out);
            start_block(out, depth, lay);
            write_end_tag(name, out);
            return;
        }
    }
    let children_start: usize = out.len();
    let child_depth = if block {
        depth.saturating_add(1)
    } else {
        depth
    };
    serialize_children(&node.children, Some(name), child_depth, lay, out);
    if block && has_newline_from(out, children_start) {
        start_block(out, depth, lay);
    }
    write_end_tag(name, out);
}

/// Writes what `pretty` makes of `nodes`, children of `parent`.
fn serialize_children(
    nodes: &Vec<DomNode>,
    parent: Option<&[char]>,
    depth: usize,
    lay: &Layout,
    out: &mut Vec<char>,
)
    requires
        layout_wf(*lay),
    ensures
        final(out)@ == ser_children(nodes@, 0, opt_seq(parent), depth, *lay, old(out)@),
        final(out)@.len() >= old(out)@.len(),
    decreases nodes@, nodes@.len(),
{
    let n: usize = nodes.len();
    let mut i: usize = 0;
    while i < n
        invariant
            n == nodes@.len(),
            i <= n,
            layout_wf(*lay),
            out@.len() >= old(out)@.len(),
            ser_children(nodes@, 0, opt_seq(parent), depth, *lay, old(out)@) == ser_children(
                nodes@,
                i as int,
                opt_seq(parent),
                depth,
                *lay,
                out@,
            ),
        decreases n - i,
    {
        let after_head = follows_head_exec(nodes, i);
        serialize_node(&nodes[i], parent, after_head, depth, lay, out);
        i = i + 1;
    }
}


/// The tag `name` (such as `<html`) opens `t`: its name ends there, before
/// `>`, `/`, whitespace or the end of the text.
pub open spec fn opens_tag(t: Seq<char>, name: Seq<char>) -> bool {
    &&& name.is_prefix_of(t)
    &&& (t.len() == name.len() || t[name.len() as int] == '>' || t[name.len() as int] == '/'
        || is_ws(t[name.len() as int]))
}

/// `html` starts, after leading whitespace and ignoring ASCII case, with a
/// doctype or an `html`, `head` or `body` element: it is parsed as a
/// document.
pub open spec fn parses_as_document(html: Seq<char>) -> bool {
    let t = ascii_lower_seq(trim_start(html));
    ||| "<!doctype"@.is_prefix_of(t)
    ||| opens_tag(t, "<html"@)
    ||| opens_tag(t, "<head"@)
    ||| opens_tag(t, "<body"@)
}

/// Tests `opens_tag(t, name)`.
fn opens_tag_exec(t: &[char], name: &str) -> (r: bool)
    ensures
        r == opens_tag(t@, name@),
{
    if !starts_with_lit(t, name) {
        return false;
    }
    let k: usize = chars_of(name).len();
    if t.len() == k {
        return true;
    }
    let c = t[k];
    c == '>' || c == '/' || char_is_whitespace(c)
}

/// Tests `parses_as_document`.
pub fn should_parse_document(html: &str) -> (r: bool)
    ensures
        r == parses_as_document(html@),
{
    let s = chars_of(html);
    let start = trim_start_index(s.as_slice());
    let n: usize = s.len();
    let mut rest: Vec<char> = Vec::new();
    let mut i: usize = start;
    while i < n
        invariant
            n == s@.len(),
            start <= i <= n,
            rest@ == ascii_lower_seq(s@.skip(start as int).take(i - start)),
        decreases n - i,
    {
        rest.push(ascii_lower_char(s[i]));
        i = i + 1;
        assert(ascii_lower_seq(s@.skip(start as int).take(i - start)) =~= ascii_lower_seq(
            s@.skip(start as int).take(i - start - 1),
        ).push(ascii_lower(s@[i - 1])));
    }
    assert(s@.skip(start as int).take(n - start) =~= s@.skip(start as int));
    let r = starts_with_lit(rest.as_slice(), "<!doctype") || opens_tag_exec(rest.as_slice(), "<html")
        || opens_tag_exec(rest.as_slice(), "<head") || opens_tag_exec(rest.as_slice(), "<body");
    r
}

/// The layout `pretty` uses for the given options.
pub open spec fn layout_of(o: PrettyOptions, is_document: bool) -> Layout {
    Layout {
        ident: o.ident as usize,
        wrap: match o.wrap {
            Some(w) => Some(
                if w == 0 {
                    1usize
                } else {
                    w as usize
                },
            ),
            None => None,
        },
        is_document,
    }
}

/// What `pretty` makes of `html` with the options `o`.
pub open spec fn pretty_result(html: Seq<char>, o: PrettyOptions) -> Seq<char> {
    let is_document = parses_as_document(html);
    let tree = if is_document {
        parsed_document(html)
    } else {
        parsed_fragment(html)
    };
    ser(tree, None, false, 0, layout_of(o, is_document), seq![])
}

/// Formats a parsed tree with the given options: what `ser` writes for it,
/// laid out as `layout_of` says.
pub fn pretty_tree(tree: &DomNode, is_document: bool, options: &PrettyOptions) -> (r: String)
    ensures
        r@ == ser(*tree, None, false, 0, layout_of(*options, is_document), seq![]),
{
    let wrap: Option<usize> = match options.wrap {
        Some(w) => Some(
            if w == 0 {
                1usize
            } else {
                w as usize
            },
        ),
        None => None,
    };
    let lay = Layout { ident: options.ident as usize, wrap, is_document };
    assert(lay == layout_of(*options, is_document));
    let mut out: Vec<char> = Vec::new();
    serialize_node(tree, None, false, 0, &lay, &mut out);
    string_of(out.as_slice())
}

/// Formats `html` with the given options; see `pretty`.
pub fn pretty_with(html: &str, options: &PrettyOptions) -> (r: String)
    ensures
        r@ == pretty_result(html@, *options),
{
    let is_document = should_parse_document(html);
    let tree = if is_document {
        parse_document(html)
    } else {
        parse_fragment(html)
    };
    pretty_tree(&tree, is_document, options)
}

/// Formats an HTML document or fragment with block-level indentation and
/// optional text wrapping.
///
/// Input that begins (after whitespace, in any ASCII case) with a doctype or
/// an `html`, `head` or `body` tag is parsed as a document, other input as a
/// fragment. Block elements and the children of `head` go on their own
/// indented lines; the text of paragraphs, list items, headings and the
/// like is wrapped at the configured width when it holds no block element.
///
/// The contract fixes the result exactly for `None` and `Some(options)`.
/// Options passed directly go through core's identity `From`, of which
/// nothing is specified, so for them it says only that the result is the
/// one for some options; `pretty_with` has an exact contract for a given value.
pub fn pretty<O: Into<PrettyOptions>>(html: &str, options: O) -> (r: String)
    ensures
        exists|o: PrettyOptions| r@ == pretty_result(html@, o),
        <O as vstd::std_specs::convert::IntoSpec<PrettyOptions>>::obeys_into_spec() ==> r@
            == pretty_result(
            html@,
            <O as vstd::std_specs::convert::IntoSpec<PrettyOptions>>::into_spec(options),
        ),
{
    let opts: PrettyOptions = options.into();
    let r = pretty_with(html, &opts);
    assert(r@ == pretty_result(html@, opts));
    r
}

/// Passing `None` formats as the default options do, and `Some(o)` as `o`
/// does.
pub proof fn lemma_pretty_option_forms(html: Seq<char>, o: PrettyOptions)
    ensures
        <Option<PrettyOptions> as vstd::std_specs::convert::IntoSpec<PrettyOptions>>::obeys_into_spec(),
        pretty_result(
            html,
            <Option<PrettyOptions> as vstd::std_specs::convert::IntoSpec<PrettyOptions>>::into_spec(None),
        ) == pretty_result(html, default_pretty_options()),
        pretty_result(
            html,
            <Option<PrettyOptions> as vstd::std_specs::convert::IntoSpec<PrettyOptions>>::into_spec(
                Some(o),
            ),
        ) == pretty_result(html, o),
{
}

/// The text of a raw-text element (`script`, `style`, `xmp`, `iframe`,
/// `noembed`, `noframes` or `plaintext`, in any ASCII case) is written as
/// it is, never escaped, whether the element is laid out on its own lines
/// or wrapped with its surroundings.
pub proof fn lemma_raw_text_verbatim(
    node: DomNode,
    p: Seq<char>,
    after_head: bool,
    depth: usize,
    lay: Layout,
    out: Seq<char>,
)
    requires
        ascii_lower_seq(p) == "script"@ || ascii_lower_seq(p) == "style"@ || ascii_lower_seq(p)
            == "xmp"@ || ascii_lower_seq(p) == "iframe"@ || ascii_lower_seq(p) == "noembed"@
            || ascii_lower_seq(p) == "noframes"@ || ascii_lower_seq(p) == "plaintext"@,
    ensures
        match node.data {
            NodeData::Text { text } => {
                &&& !is_blank(text@) ==> ser(node, Some(p), after_head, depth, lay, out) == out
                    + text@
                &&& node_pieces(node, Some(p)) == seq![Piece::Markup(text@)]
            },
            _ => true,
        },
{
}

/// Comments are kept: a comment is written as `<!--`, its text and `-->`,
/// right after what was written before it, and it goes as such into the
/// text that wrapping lays out.
pub proof fn lemma_comment_kept(
    node: DomNode,
    parent: Option<Seq<char>>,
    after_head: bool,
    depth: usize,
    lay: Layout,
    out: Seq<char>,
)
    ensures
        match node.data {
            NodeData::Comment { text } => {
                &&& ser(node, parent, after_head, depth, lay, out) == out + seq!['<', '!', '-', '-']
                    + text@ + seq!['-', '-', '>']
                &&& node_pieces(node, parent) == seq![
                    Piece::Markup(seq!['<', '!', '-', '-'] + text@ + seq!['-', '-', '>']),
                ]
            },
            _ => true,
        },
{
    reveal_strlit("<!--");
    reveal_strlit("-->");
    if let NodeData::Comment { text } = node.data {
        assert("<!--"@ =~= seq!['<', '!', '-', '-']);
        assert("-->"@ =~= seq!['-', '-', '>']);
    }
}

proof fn lemma_contains_block_from(nodes: Seq<DomNode>, j: int, i: int)
    requires
        0 <= j <= i < nodes.len(),
        contains_block_from(nodes, i),
    ensures
        contains_block_from(nodes, j),
    decreases i - j,
{
    if j < i {
        lemma_contains_block_from(nodes, j + 1, i);
    }
}

/// An element with a block-level child (`div`, `p`, `ul`, `table`, the
/// headings, ... in any ASCII case) holds a block element, so its text is
/// never wrapped.
pub proof fn lemma_block_child(node: DomNode, i: int, lay: Layout)
    requires
        0 <= i < node.children@.len(),
        node.children@[i].data matches NodeData::Element { name, .. } && (ascii_lower_seq(name@) == "address"@ || ascii_lower_seq(name@) == "article"@ ||
                ascii_lower_seq(name@) == "aside"@ || ascii_lower_seq(name@) == "blockquote"@ ||
                ascii_lower_seq(name@) == "body"@ || ascii_lower_seq(name@) == "caption"@ ||
                ascii_lower_seq(name@) == "col"@ || ascii_lower_seq(name@) == "colgroup"@ ||
                ascii_lower_seq(name@) == "dd"@ || ascii_lower_seq(name@) == "details"@ ||
                ascii_lower_seq(name@) == "dialog"@ || ascii_lower_seq(name@) == "div"@ ||
                ascii_lower_seq(name@) == "dl"@ || ascii_lower_seq(name@) == "dt"@ ||
                ascii_lower_seq(name@) == "fieldset"@ || ascii_lower_seq(name@) == "figcaption"@ ||
                ascii_lower_seq(name@) == "figure"@ || ascii_lower_seq(name@) == "footer"@ ||
                ascii_lower_seq(name@) == "form"@ || ascii_lower_seq(name@) == "h1"@ ||
                ascii_lower_seq(name@) == "h2"@ || ascii_lower_seq(name@) == "h3"@ ||
                ascii_lower_seq(name@) == "h4"@ || ascii_lower_seq(name@) == "h5"@ ||
                ascii_lower_seq(name@) == "h6"@ || ascii_lower_seq(name@) == "head"@ ||
                ascii_lower_seq(name@) == "header"@ || ascii_lower_seq(name@) == "hgroup"@ ||
                ascii_lower_seq(name@) == "hr"@ || ascii_lower_seq(name@) == "html"@ ||
                ascii_lower_seq(name@) == "li"@ || ascii_lower_seq(name@) == "main"@ ||
                ascii_lower_seq(name@) == "menu"@ || ascii_lower_seq(name@) == "nav"@ ||
                ascii_lower_seq(name@) == "ol"@ || ascii_lower_seq(name@) == "p"@ ||
                ascii_lower_seq(name@) == "pre"@ || ascii_lower_seq(name@) == "script"@ ||
                ascii_lower_seq(name@) == "section"@ || ascii_lower_seq(name@) == "style"@ ||
                ascii_lower_seq(name@) == "summary"@ || ascii_lower_seq(name@) == "table"@ ||
                ascii_lower_seq(name@) == "tbody"@ || ascii_lower_seq(name@) == "td"@ ||
                ascii_lower_seq(name@) == "tfoot"@ || ascii_lower_seq(name@) == "th"@ ||
                ascii_lower_seq(name@) == "thead"@ || ascii_lower_seq(name@) == "tr"@ ||
                ascii_lower_seq(name@) == "ul"@),
    ensures
        contains_block(node),
        forall|n: Seq<char>| wrap_width(node, n, lay) is None,
{
    reveal_strlit("address");
    reveal_strlit("article");
    reveal_strlit("aside");
    reveal_strlit("blockquote");
    reveal_strlit("body");
    reveal_strlit("caption");
    reveal_strlit("col");
    reveal_strlit("colgroup");
    reveal_strlit("dd");
    reveal_strlit("details");
    reveal_strlit("dialog");
    reveal_strlit("div");
    reveal_strlit("dl");
    reveal_strlit("dt");
    reveal_strlit("fieldset");
    reveal_strlit("figcaption");
    reveal_strlit("figure");
    reveal_strlit("footer");
    reveal_strlit("form");
    reveal_strlit("h1");
    reveal_strlit("h2");
    reveal_strlit("h3");
    reveal_strlit("h4");
    reveal_strlit("h5");
    reveal_strlit("h6");
    reveal_strlit("head");
    reveal_strlit("header");
    reveal_strlit("hgroup");
    reveal_strlit("hr");
    reveal_strlit("html");
    reveal_strlit("li");
    reveal_strlit("main");
    reveal_strlit("menu");
    reveal_strlit("nav");
    reveal_strlit("ol");
    reveal_strlit("p");
    reveal_strlit("pre");
    reveal_strlit("script");
    reveal_strlit("section");
    reveal_strlit("style");
    reveal_strlit("summary");
    reveal_strlit("table");
    reveal_strlit("tbody");
    reveal_strlit("td");
    reveal_strlit("tfoot");
    reveal_strlit("th");
    reveal_strlit("thead");
    reveal_strlit("tr");
    reveal_strlit("ul");
    assert(contains_block_from(node.children@, i));
    lemma_contains_block_from(node.children@, 0, i);
}

/// The text of a paragraph, list item, definition term or description,
/// figure caption, table caption, summary, block quote or heading (in any
/// ASCII case) is wrapped at the configured width when the layout indents
/// and the element holds no block element.
pub proof fn lemma_text_wrapped(node: DomNode, name: Seq<char>, lay: Layout)
    requires
        lay.ident > 0,
        !contains_block(node),
        ascii_lower_seq(name) == "p"@ || ascii_lower_seq(name) == "li"@ ||
            ascii_lower_seq(name) == "dt"@ || ascii_lower_seq(name) == "dd"@ ||
            ascii_lower_seq(name) == "figcaption"@ || ascii_lower_seq(name) == "caption"@ ||
            ascii_lower_seq(name) == "summary"@ || ascii_lower_seq(name) == "blockquote"@ ||
            ascii_lower_seq(name) == "h1"@ || ascii_lower_seq(name) == "h2"@ ||
            ascii_lower_seq(name) == "h3"@ || ascii_lower_seq(name) == "h4"@ ||
            ascii_lower_seq(name) == "h5"@ || ascii_lower_seq(name) == "h6"@,
    ensures
        wrap_width(node, name, lay) == lay.wrap,
{
    reveal_strlit("p");
    reveal_strlit("li");
    reveal_strlit("dt");
    reveal_strlit("dd");
    reveal_strlit("figcaption");
    reveal_strlit("caption");
    reveal_strlit("summary");
    reveal_strlit("blockquote");
    reveal_strlit("h1");
    reveal_strlit("h2");
    reveal_strlit("h3");
    reveal_strlit("h4");
    reveal_strlit("h5");
    reveal_strlit("h6");
}

proof fn lemma_container_shape(n: Seq<char>)
    ensures
        n == "html"@ ==> ascii_lower_seq(n).len() == 4 && ascii_lower_seq(n)[0] == 'h',
        n == "head"@ ==> ascii_lower_seq(n).len() == 4 && ascii_lower_seq(n)[0] == 'h',
        n == "body"@ ==> ascii_lower_seq(n).len() == 4 && ascii_lower_seq(n)[0] == 'b'
            && ascii_lower_seq(n)[1] == 'o',
{
    reveal_strlit("html");
    reveal_strlit("head");
    reveal_strlit("body");
}

/// A void element (`br`, `img`, `input`, `meta`, ... in any ASCII case) is
/// written as its start tag alone, never with an end tag (shown here for a
/// layout without indentation).
pub proof fn lemma_void_element(node: DomNode, after_head: bool, depth: usize, lay: Layout, out: Seq<char>)
    requires
        lay.ident == 0,
    ensures
        match node.data {
            NodeData::Element { name, attrs } => (ascii_lower_seq(name@) == "area"@ || ascii_lower_seq(name@) == "base"@ ||
                    ascii_lower_seq(name@) == "br"@ || ascii_lower_seq(name@) == "col"@ ||
                    ascii_lower_seq(name@) == "embed"@ || ascii_lower_seq(name@) == "hr"@ ||
                    ascii_lower_seq(name@) == "img"@ || ascii_lower_seq(name@) == "input"@ ||
                    ascii_lower_seq(name@) == "link"@ || ascii_lower_seq(name@) == "meta"@ ||
                    ascii_lower_seq(name@) == "param"@ || ascii_lower_seq(name@) == "source"@ ||
                    ascii_lower_seq(name@) == "track"@ || ascii_lower_seq(name@) == "wbr"@)
                ==> ser(node, None, after_head, depth, lay, out) == out + start_tag(name@, attrs@),
            _ => true,
        },
{
    if let NodeData::Element { name, attrs } = node.data {
    reveal_strlit("area");
    reveal_strlit("base");
    reveal_strlit("br");
    reveal_strlit("col");
    reveal_strlit("embed");
    reveal_strlit("hr");
    reveal_strlit("img");
    reveal_strlit("input");
    reveal_strlit("link");
    reveal_strlit("meta");
    reveal_strlit("param");
    reveal_strlit("source");
    reveal_strlit("track");
    reveal_strlit("wbr");
        lemma_container_shape(name@);
    }
}

} // verus!
