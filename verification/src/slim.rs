use vstd::prelude::*;

use crate::dom::{parse_document, parsed_document, Attr, DomNode, NodeData};
use crate::error::Result;
use crate::escape::{encode_double_quoted_attribute, escape_attr, to_lowercase, unicode_lowercase};
use crate::names::{
    is_body_attr, is_body_attr_exec, is_meta_attr, is_meta_attr_exec, is_removable_when_empty,
    is_removable_when_empty_exec, is_removed_tag, is_removed_tag_exec, is_slim_block_tag,
    is_slim_block_tag_exec, is_slim_void_tag, is_slim_void_tag_exec,
};
use crate::slim_options::{default_slim_options, SlimOptions};
use crate::text::{
    all_non_blank, contains_lit, contains_seq, eq_lit, is_blank, is_blank_chars, lemma_no_blank_line_left,
    lines, push_all, push_lit, remove_empty_lines, string_of, without_empty_lines,
};

verus! {

/// Spaces per indentation level (0 when the options ask for none).
pub open spec fn indent_spaces(o: SlimOptions) -> nat {
    match o.indent {
        Some(n) => n as nat,
        None => 0,
    }
}

/// The options ask for formatted (indented) output.
pub open spec fn is_formatting(o: SlimOptions) -> bool {
    indent_spaces(o) > 0 || o.indent_with_tabs
}

/// The indentation written before a block element at `depth`.
pub open spec fn indent_of(o: SlimOptions, depth: usize) -> Seq<char> {
    if o.indent_with_tabs {
        Seq::new(depth as nat, |i: int| '\t')
    } else {
        Seq::new(depth as nat * indent_spaces(o), |i: int| ' ')
    }
}

/// One level deeper, without going past `usize::MAX`.
pub open spec fn deeper(depth: usize) -> usize {
    if depth < usize::MAX {
        (depth + 1) as usize
    } else {
        depth
    }
}

/// The value of the first attribute named `name`.
pub open spec fn find_attr(attrs: Seq<Attr>, name: Seq<char>) -> Option<Seq<char>>
    decreases attrs.len(),
{
    if attrs.len() == 0 {
        None
    } else if attrs[0].name@ == name {
        Some(attrs[0].value@)
    } else {
        find_attr(attrs.drop_first(), name)
    }
}

/// A `property` value that names a title, url, image or description.
pub open spec fn has_meta_keyword(v: Seq<char>) -> bool {
    ||| contains_seq(v, "title"@)
    ||| contains_seq(v, "url"@)
    ||| contains_seq(v, "image"@)
    ||| contains_seq(v, "description"@)
}

/// A `meta` element with these attributes is kept inside `head`.
pub open spec fn keep_meta(attrs: Seq<Attr>) -> bool {
    match find_attr(attrs, "property"@) {
        Some(v) => has_meta_keyword(unicode_lowercase(v)),
        None => false,
    }
}

/// An element that slimming drops with its whole content.
pub open spec fn slim_skips(tag: Seq<char>, attrs: Seq<Attr>, in_head: bool) -> bool {
    ||| is_removed_tag(tag)
    ||| in_head && !(tag == "title"@ || (tag == "meta"@ && keep_meta(attrs)))
}

/// Attribute `attr` is kept on element `tag`.
pub open spec fn attr_kept(tag: Seq<char>, attr: Seq<char>, in_head: bool) -> bool {
    if in_head {
        tag == "meta"@ && is_meta_attr(attr)
    } else {
        is_body_attr(attr)
    }
}

/// How one kept attribute is written.
pub open spec fn attr_out(a: Attr) -> Seq<char> {
    seq![' '] + a.name@ + "=\""@ + escape_attr(a.value@) + seq!['"']
}

/// The kept attributes among `attrs`, written in order.
pub open spec fn attrs_out(tag: Seq<char>, attrs: Seq<Attr>, in_head: bool) -> Seq<char>
    decreases attrs.len(),
{
    if attrs.len() == 0 {
        seq![]
    } else {
        attrs_out(tag, attrs.drop_last(), in_head) + if attr_kept(
            tag,
            attrs.last().name@,
            in_head,
        ) {
            attr_out(attrs.last())
        } else {
            seq![]
        }
    }
}

/// How a doctype is written.
pub open spec fn doctype_out(
    name: Seq<char>,
    public_id: Seq<char>,
    system_id: Seq<char>,
    o: SlimOptions,
) -> Seq<char> {
    "<!DOCTYPE "@ + name + (if public_id.len() > 0 {
        " PUBLIC \""@ + public_id + seq!['"']
    } else {
        seq![]
    }) + (if system_id.len() > 0 {
        (if public_id.len() == 0 {
            " SYSTEM"@
        } else {
            seq![]
        }) + seq![' ', '"'] + system_id + seq!['"']
    } else {
        seq![]
    }) + seq!['>'] + (if indent_spaces(o) > 0 {
        seq!['\n']
    } else {
        seq![]
    })
}

/// The element is written on its own indented line.
pub open spec fn slim_block(tag: Seq<char>, o: SlimOptions) -> bool {
    is_formatting(o) && (is_slim_block_tag(tag) || tag == "title"@)
}

/// The element is dropped once its content turned out blank.
pub open spec fn slim_removes_empty(tag: Seq<char>, in_head: bool, inner: Seq<char>) -> bool {
    ||| !(in_head || tag == "head"@) && is_removable_when_empty(tag) && is_blank(inner)
    ||| tag == "head"@ && is_blank(inner)
}

/// The start tag of a kept element, with the line break and indentation
/// before it when it is a block.
pub open spec fn open_part(
    tag: Seq<char>,
    attrs: Seq<Attr>,
    in_head: bool,
    depth: usize,
    o: SlimOptions,
) -> Seq<char> {
    (if slim_block(tag, o) {
        seq!['\n'] + indent_of(o, depth)
    } else {
        seq![]
    }) + seq!['<'] + tag + attrs_out(tag, attrs, in_head || tag == "head"@) + seq!['>']
}

/// What follows the content of a kept element: a line break and indentation
/// when it is a block whose content spans lines, then the end tag unless the
/// element is void.
pub open spec fn close_part(tag: Seq<char>, depth: usize, o: SlimOptions, multiline: bool) -> Seq<
    char,
> {
    let void = is_formatting(o) && is_slim_void_tag(tag);
    (if slim_block(tag, o) && !void && multiline {
        seq!['\n'] + indent_of(o, depth)
    } else {
        seq![]
    }) + (if !void {
        "</"@ + tag + seq!['>']
    } else {
        seq![]
    })
}

/// How a kept element is written, given what its children became.
pub open spec fn element_out(
    tag: Seq<char>,
    attrs: Seq<Attr>,
    in_head: bool,
    depth: usize,
    o: SlimOptions,
    inner: Seq<char>,
) -> Seq<char> {
    if slim_removes_empty(tag, in_head, inner) {
        seq![]
    } else {
        open_part(tag, attrs, in_head, depth, o) + inner + close_part(
            tag,
            depth,
            o,
            inner.contains('\n'),
        )
    }
}

/// What slimming writes for `node`, inside `head` or not, at `depth`.
pub open spec fn slim_node(node: DomNode, in_head: bool, depth: usize, o: SlimOptions) -> Seq<char>
    decreases node, 0int,
{
    match node.data {
        NodeData::Document => slim_children(node.children@, 0, false, depth, o),
        NodeData::Fragment => slim_children(node.children@, 0, false, depth, o),
        NodeData::Doctype { name, public_id, system_id } => doctype_out(
            name@,
            public_id@,
            system_id@,
            o,
        ),
        NodeData::Comment { .. } => seq![],
        NodeData::ProcessingInstruction { .. } => seq![],
        NodeData::Text { text } => if is_blank(text@) {
            seq![]
        } else {
            text@
        },
        NodeData::Element { name, attrs } => {
            if name@ == "html"@ {
                slim_children(node.children@, 0, in_head, depth, o)
            } else if slim_skips(name@, attrs@, in_head) {
                seq![]
            } else {
                let child_depth = if slim_block(name@, o) {
                    deeper(depth)
                } else {
                    depth
                };
                let inner = slim_children(
                    node.children@,
                    0,
                    in_head || name@ == "head"@,
                    child_depth,
                    o,
                );
                element_out(name@, attrs@, in_head, depth, o, inner)
            }
        },
    }
}

/// What slimming writes for `nodes[i..]`, one after the other.
pub open spec fn slim_children(
    nodes: Seq<DomNode>,
    i: int,
    in_head: bool,
    depth: usize,
    o: SlimOptions,
) -> Seq<char>
    decreases nodes, nodes.len() - i,
{
    if 0 <= i < nodes.len() {
        slim_node(nodes[i], in_head, depth, o) + slim_children(nodes, i + 1, in_head, depth, o)
    } else {
        seq![]
    }
}


/// The position of the first attribute named `name`.
pub fn find_attr_index(attrs: &Vec<Attr>, name: &str) -> (r: Option<usize>)
    ensures
        match r {
            Some(i) => i < attrs@.len() && find_attr(attrs@, name@) == Some(attrs@[i as int].value@),
            None => find_attr(attrs@, name@) is None,
        },
{
    let n: usize = attrs.len();
    let mut i: usize = 0;
    assert(attrs@.skip(0) =~= attrs@);
    while i < n
        invariant
            n == attrs@.len(),
            i <= n,
            find_attr(attrs@, name@) == find_attr(attrs@.skip(i as int), name@),
        decreases n - i,
    {
        assert(attrs@.skip(i as int).drop_first() =~= attrs@.skip(i + 1));
        assert(attrs@.skip(i as int)[0] == attrs@[i as int]);
        if eq_lit(attrs[i].name.as_slice(), name) {
            return Some(i);
        }
        i = i + 1;
    }
    None
}

/// Tests `has_meta_keyword`.
pub fn has_meta_keyword_exec(v: &[char]) -> (r: bool)
    ensures
        r == has_meta_keyword(v@),
{
    contains_lit(v, "title") || contains_lit(v, "url") || contains_lit(v, "image") || contains_lit(
        v,
        "description",
    )
}

/// Tests `keep_meta`.
pub fn keep_meta_exec(attrs: &Vec<Attr>) -> (r: bool)
    ensures
        r == keep_meta(attrs@),
{
    match find_attr_index(attrs, "property") {
        Some(i) => {
            let lower = to_lowercase(attrs[i].value.as_slice());
            has_meta_keyword_exec(lower.as_slice())
        },
        None => false,
    }
}

/// Tests `attr_kept`.
fn attr_kept_exec(tag: &[char], attr: &[char], in_head: bool) -> (r: bool)
    ensures
        r == attr_kept(tag@, attr@, in_head),
{
    if in_head {
        eq_lit(tag, "meta") && is_meta_attr_exec(attr)
    } else {
        is_body_attr_exec(attr)
    }
}

/// Writes the kept attributes of an element.
fn write_attrs(tag: &[char], attrs: &Vec<Attr>, in_head: bool, out: &mut Vec<char>)
    ensures
        final(out)@ == old(out)@ + attrs_out(tag@, attrs@, in_head),
{
    let n: usize = attrs.len();
    let mut i: usize = 0;
    assert(attrs@.take(0) =~= seq![]);
    while i < n
        invariant
            n == attrs@.len(),
            i <= n,
            out@ == old(out)@ + attrs_out(tag@, attrs@.take(i as int), in_head),
        decreases n - i,
    {
        let a = &attrs[i];
        assert(attrs@.take(i + 1).drop_last() =~= attrs@.take(i as int));
        assert(attrs@.take(i + 1).last() == attrs@[i as int]);
        if attr_kept_exec(tag, a.name.as_slice(), in_head) {
            out.push(' ');
            push_all(out, a.name.as_slice());
            push_lit(out, "=\"");
            let v = encode_double_quoted_attribute(a.value.as_slice());
            push_all(out, v.as_slice());
            out.push('"');
        }
        i = i + 1;
    }
    assert(attrs@.take(n as int) =~= attrs@);
}

/// Writes the indentation for `depth`.
fn write_indent(o: &SlimOptions, depth: usize, out: &mut Vec<char>)
    ensures
        final(out)@ == old(out)@ + indent_of(*o, depth),
{
    if o.indent_with_tabs {
        let mut d: usize = 0;
        while d < depth
            invariant
                d <= depth,
                out@ == old(out)@ + Seq::new(d as nat, |i: int| '\t'),
            decreases depth - d,
        {
            out.push('\t');
            d = d + 1;
            assert(Seq::new(d as nat, |i: int| '\t') =~= Seq::new((d - 1) as nat, |i: int| '\t').push('\t'));
        }
    } else {
        let spaces: usize = match o.indent {
            Some(n) => n as usize,
            None => 0,
        };
        let ghost w: nat = indent_spaces(*o);
        let mut d: usize = 0;
        while d < depth
            invariant
                d <= depth,
                spaces == w,
                out@ == old(out)@ + Seq::new(d as nat * w, |i: int| ' '),
            decreases depth - d,
        {
            let mut k: usize = 0;
            while k < spaces
                invariant
                    k <= spaces,
                    spaces == w,
                    out@ == old(out)@ + Seq::new(d as nat * w + k as nat, |i: int| ' '),
                decreases spaces - k,
            {
                out.push(' ');
                k = k + 1;
                assert(Seq::new(d as nat * w + k as nat, |i: int| ' ') =~= Seq::new(
                    (d as nat * w + k - 1) as nat,
                    |i: int| ' ',
                ).push(' '));
            }
            assert((d + 1) as nat * w == d as nat * w + w) by (nonlinear_arith);
            d = d + 1;
        }
        assert(indent_spaces(*o) == w);
    }
}

/// Writes a doctype.
fn write_doctype(
    name: &[char],
    public_id: &[char],
    system_id: &[char],
    o: &SlimOptions,
    out: &mut Vec<char>,
)
    ensures
        final(out)@ == old(out)@ + doctype_out(name@, public_id@, system_id@, *o),
{
    push_lit(out, "<!DOCTYPE ");
    push_all(out, name);
    if public_id.len() > 0 {
        push_lit(out, " PUBLIC \"");
        push_all(out, public_id);
        out.push('"');
    }
    if system_id.len() > 0 {
        if public_id.len() == 0 {
            push_lit(out, " SYSTEM");
        }
        out.push(' ');
        out.push('"');
        push_all(out, system_id);
        out.push('"');
    }
    out.push('>');
    let spaces: u8 = match o.indent {
        Some(n) => n,
        None => 0,
    };
    if spaces > 0 {
        out.push('\n');
    }
    assert(out@ =~= old(out)@ + doctype_out(name@, public_id@, system_id@, *o));
}


/// Tests `slim_skips`.
fn slim_skips_exec(tag: &[char], attrs: &Vec<Attr>, in_head: bool) -> (r: bool)
    ensures
        r == slim_skips(tag@, attrs@, in_head),
{
    if is_removed_tag_exec(tag) {
        return true;
    }
    if in_head {
        let title = eq_lit(tag, "title");
        let meta = eq_lit(tag, "meta") && keep_meta_exec(attrs);
        !(title || meta)
    } else {
        false
    }
}

/// Tests `slim_block`.
fn slim_block_exec(tag: &[char], o: &SlimOptions) -> (r: bool)
    ensures
        r == slim_block(tag@, *o),
{
    let spaces: u8 = match o.indent {
        Some(n) => n,
        None => 0,
    };
    let formatting = spaces > 0 || o.indent_with_tabs;
    formatting && (is_slim_block_tag_exec(tag) || eq_lit(tag, "title"))
}

/// Tests whether `s` holds a `'\n'`.
fn has_newline(s: &[char]) -> (r: bool)
    ensures
        r == s@.contains('\n'),
{
    let n: usize = s.len();
    let mut i: usize = 0;
    while i < n
        invariant
            n == s@.len(),
            i <= n,
            forall|j: int| 0 <= j < i ==> s@[j] != '\n',
        decreases n - i,
    {
        if s[i] == '\n' {
            return true;
        }
        i = i + 1;
    }
    false
}

/// Writes the start tag of a kept element.
fn write_open(
    tag: &[char],
    attrs: &Vec<Attr>,
    in_head: bool,
    depth: usize,
    o: &SlimOptions,
    out: &mut Vec<char>,
)
    ensures
        final(out)@ == old(out)@ + open_part(tag@, attrs@, in_head, depth, *o),
{
    let head = eq_lit(tag, "head");
    if slim_block_exec(tag, o) {
        out.push('\n');
        write_indent(o, depth, out);
    }
    out.push('<');
    push_all(out, tag);
    write_attrs(tag, attrs, in_head || head, out);
    out.push('>');
    assert(out@ =~= old(out)@ + open_part(tag@, attrs@, in_head, depth, *o));
}

/// Writes what follows the content of a kept element.
fn write_close(tag: &[char], depth: usize, o: &SlimOptions, multiline: bool, out: &mut Vec<char>)
    ensures
        final(out)@ == old(out)@ + close_part(tag@, depth, *o, multiline),
{
    let spaces: u8 = match o.indent {
        Some(n) => n,
        None => 0,
    };
    let void = (spaces > 0 || o.indent_with_tabs) && is_slim_void_tag_exec(tag);
    if slim_block_exec(tag, o) && !void && multiline {
        out.push('\n');
        write_indent(o, depth, out);
    }
    if !void {
        push_lit(out, "</");
        push_all(out, tag);
        out.push('>');
    }
    assert(out@ =~= old(out)@ + close_part(tag@, depth, *o, multiline));
}

/// Writes a kept element around the output of its children.
fn write_element(
    tag: &[char],
    attrs: &Vec<Attr>,
    in_head: bool,
    depth: usize,
    o: &SlimOptions,
    inner: &[char],
    out: &mut Vec<char>,
)
    ensures
        final(out)@ == old(out)@ + element_out(tag@, attrs@, in_head, depth, *o, inner@),
{
    let head = eq_lit(tag, "head");
    let blank = is_blank_chars(inner);
    let removable = !(in_head || head) && is_removable_when_empty_exec(tag) && blank;
    if removable || (head && blank) {
        assert(out@ =~= old(out)@ + seq![]);
        return;
    }
    write_open(tag, attrs, in_head, depth, o, out);
    push_all(out, inner);
    let multiline = has_newline(inner);
    write_close(tag, depth, o, multiline, out);
    assert(out@ =~= old(out)@ + element_out(tag@, attrs@, in_head, depth, *o, inner@));
}

/// Writes what slimming makes of `node`.
fn slim_node_exec(node: &DomNode, in_head: bool, depth: usize, o: &SlimOptions, out: &mut Vec<char>)
    ensures
        final(out)@ == old(out)@ + slim_node(*node, in_head, depth, *o),
    decreases node, 0int,
{
    match &node.data {
        NodeData::Document => slim_children_exec(&node.children, false, depth, o, out),
        NodeData::Fragment => slim_children_exec(&node.children, false, depth, o, out),
        NodeData::Doctype { name, public_id, system_id } => {
            write_doctype(name.as_slice(), public_id.as_slice(), system_id.as_slice(), o, out);
        },
        NodeData::Comment { .. } => {
            assert(out@ =~= old(out)@ + seq![]);
        },
        NodeData::ProcessingInstruction { .. } => {
            assert(out@ =~= old(out)@ + seq![]);
        },
        NodeData::Text { text } => {
            if !is_blank_chars(text.as_slice()) {
                push_all(out, text.as_slice());
            } else {
                assert(out@ =~= old(out)@ + seq![]);
            }
        },
        NodeData::Element { name, attrs } => {
            if eq_lit(name.as_slice(), "html") {
                slim_children_exec(&node.children, in_head, depth, o, out);
            } else if slim_skips_exec(name.as_slice(), attrs, in_head) {
                assert(out@ =~= old(out)@ + seq![]);
            } else {
                let child_in_head = in_head || eq_lit(name.as_slice(), "head");
                let child_depth = if slim_block_exec(name.as_slice(), o) {
                    depth.saturating_add(1)
                } else {
                    depth
                };
                let mut inner: Vec<char> = Vec::new();
                slim_children_exec(&node.children, child_in_head, child_depth, o, &mut inner);
                assert(inner@ =~= seq![] + slim_children(node.children@, 0, child_in_head, child_depth, *o));
                write_element(name.as_slice(), attrs, in_head, depth, o, inner.as_slice(), out);
            }
        },
    }
}

/// Writes what slimming makes of `nodes`, one after the other.
fn slim_children_exec(
    nodes: &Vec<DomNode>,
    in_head: bool,
    depth: usize,
    o: &SlimOptions,
    out: &mut Vec<char>,
)
    ensures
        final(out)@ == old(out)@ + slim_children(nodes@, 0, in_head, depth, *o),
    decreases nodes@, nodes@.len(),
{
    let n: usize = nodes.len();
    let mut i: usize = 0;
    while i < n
        invariant
            n == nodes@.len(),
            i <= n,
            old(out)@ + slim_children(nodes@, 0, in_head, depth, *o) == out@ + slim_children(
                nodes@,
                i as int,
                in_head,
                depth,
                *o,
            ),
        decreases n - i,
    {
        let ghost before = out@;
        slim_node_exec(&nodes[i], in_head, depth, o, out);
        assert(before + slim_children(nodes@, i as int, in_head, depth, *o) =~= out@ + slim_children(
            nodes@,
            i + 1,
            in_head,
            depth,
            *o,
        ));
        i = i + 1;
    }
    assert(out@ + slim_children(nodes@, n as int, in_head, depth, *o) =~= out@);
}


/// What `slim` makes of `html`: the slimmed tree of the parsed document,
/// with its blank lines removed.
pub open spec fn slim_result(html: Seq<char>, o: SlimOptions) -> Seq<char> {
    without_empty_lines(slim_node(parsed_document(html), false, 0, o))
}

/// Slims a parsed tree with the given options: what `slim_node` writes for
/// it, with its blank lines removed.
pub fn slim_tree(tree: &DomNode, options: &SlimOptions) -> (r: Result<String>)
    ensures
        r matches Ok(s) && s@ == without_empty_lines(slim_node(*tree, false, 0, *options)),
{
    let mut out: Vec<char> = Vec::new();
    slim_node_exec(tree, false, 0, options, &mut out);
    assert(out@ =~= slim_node(*tree, false, 0, *options));
    remove_empty_lines(string_of(out.as_slice()))
}

/// Slims `html_content` with the given options; see `slim`.
pub fn slim_with(html_content: &str, options: &SlimOptions) -> (r: Result<String>)
    ensures
        r matches Ok(s) && s@ == slim_result(html_content@, *options),
{
    let tree = parse_document(html_content);
    slim_tree(&tree, options)
}

/// Strips non-content elements from an HTML page and returns the cleaned HTML.
///
/// Removes `script`, `link`, `style`, `svg` and `base` elements, comments,
/// blank text, and `div`, `span`, `p` and similar elements that are blank
/// once their children are processed; inside `head` it keeps only `title`
/// and the `meta` elements whose `property` names a title, url, image or
/// description, and drops `head` itself when nothing is left in it. Outside
/// `head` only `class`, `aria-label`, `href`, `title` and `id` attributes
/// remain; inside it only `property` and `content` on `meta`. Blank lines
/// are removed from the result. It never fails.
///
/// The contract fixes the result exactly for `None` and `Some(options)`.
/// Options passed directly go through core's identity `From`, of which
/// nothing is specified, so for them it says only that the result is the
/// one for some options; `slim_with` has an exact contract for a given value.
pub fn slim<O: Into<SlimOptions>>(html_content: &str, options: O) -> (r: Result<String>)
    ensures
        r is Ok,
        exists|o: SlimOptions| r matches Ok(s) && s@ == #[trigger] slim_result(html_content@, o),
        <O as vstd::std_specs::convert::IntoSpec<SlimOptions>>::obeys_into_spec() ==> (r matches Ok(
            s,
        ) && s@ == slim_result(
            html_content@,
            <O as vstd::std_specs::convert::IntoSpec<SlimOptions>>::into_spec(options),
        )),
{
    let opts: SlimOptions = options.into();
    let r = slim_with(html_content, &opts);
    assert(r matches Ok(s) && s@ == slim_result(html_content@, opts));
    r
}

/// Slimming leaves no blank line: every line of the result holds a
/// character that is not whitespace.
pub proof fn lemma_slim_has_no_blank_line(html: Seq<char>, o: SlimOptions)
    ensures
        all_non_blank(lines(slim_result(html, o))),
{
    lemma_no_blank_line_left(slim_node(parsed_document(html), false, 0, o));
}

/// Passing `None` slims as the default options do, and `Some(o)` as `o`
/// does.
pub proof fn lemma_slim_option_forms(html: Seq<char>, o: SlimOptions)
    ensures
        <Option<SlimOptions> as vstd::std_specs::convert::IntoSpec<SlimOptions>>::obeys_into_spec(),
        slim_result(
            html,
            <Option<SlimOptions> as vstd::std_specs::convert::IntoSpec<SlimOptions>>::into_spec(None),
        ) == slim_result(html, default_slim_options()),
        slim_result(
            html,
            <Option<SlimOptions> as vstd::std_specs::convert::IntoSpec<SlimOptions>>::into_spec(Some(o)),
        ) == slim_result(html, o),
{
}

proof fn lemma_attrs_out_one(tag: Seq<char>, a: Attr, in_head: bool)
    ensures
        attrs_out(tag, seq![a], in_head) == if attr_kept(tag, a.name@, in_head) {
            seq![' '] + a.name@ + seq!['=', '"'] + escape_attr(a.value@) + seq!['"']
        } else {
            Seq::<char>::empty()
        },
{
    reveal_strlit("=\"");
    let s = seq![a];
    assert(s.drop_last() =~= Seq::<Attr>::empty());
    assert(s.last() == a);
    assert(attrs_out(tag, s.drop_last(), in_head) == Seq::<char>::empty());
    let kept = seq![' '] + a.name@ + seq!['=', '"'] + escape_attr(a.value@) + seq!['"'];
    assert(attr_out(a) =~= kept);
    if attr_kept(tag, a.name@, in_head) {
        assert(attrs_out(tag, s, in_head) =~= kept);
    } else {
        assert(attrs_out(tag, s, in_head) =~= Seq::<char>::empty());
    }
}

/// Outside `head`, the attributes `class`, `aria-label`, `href`, `title`
/// and `id` are kept on every element, written as ` name="value"` with the
/// value escaped, and `style` is dropped. Inside `head`, `property` and
/// `content` are kept on `meta`, and nothing is kept on `title`.
pub proof fn lemma_attributes_kept(tag: Seq<char>, a: Attr)
    ensures
        (a.name@ == "class"@ || a.name@ == "aria-label"@ || a.name@ == "href"@ || a.name@
            == "title"@ || a.name@ == "id"@) ==> attrs_out(tag, seq![a], false) == seq![' ']
            + a.name@ + seq!['=', '"'] + escape_attr(a.value@) + seq!['"'],
        a.name@ == "style"@ ==> attrs_out(tag, seq![a], false) == Seq::<char>::empty(),
        (a.name@ == "property"@ || a.name@ == "content"@) ==> attrs_out("meta"@, seq![a], true)
            == seq![' '] + a.name@ + seq!['=', '"'] + escape_attr(a.value@) + seq!['"'],
        attrs_out("title"@, seq![a], true) == Seq::<char>::empty(),
{
    lemma_attrs_out_one(tag, a, false);
    lemma_attrs_out_one("meta"@, a, true);
    lemma_attrs_out_one("title"@, a, true);
    reveal_strlit("class");
    reveal_strlit("aria-label");
    reveal_strlit("href");
    reveal_strlit("title");
    reveal_strlit("id");
    reveal_strlit("style");
    reveal_strlit("meta");
    assert("title"@[0] != "meta"@[0]);
    assert("title"@ != "meta"@);
    if a.name@ == "style"@ {
        assert(a.name@[0] != "class"@[0]);
        assert(a.name@[0] != "title"@[0]);
        assert(!is_body_attr(a.name@));
    }
}

proof fn lemma_removed_tag_shape(n: Seq<char>)
    ensures
        is_removed_tag(n) ==> (n.len() == 6 && n[1] == 'c') || (n.len() == 4 && (n[0] == 'l'
            || n[0] == 'b')) || (n.len() == 5 && n[0] == 's') || (n.len() == 3 && n[0] == 's'),
        n == "html"@ ==> n.len() == 4 && n[0] == 'h' && n[1] == 't',
        n == "head"@ ==> n.len() == 4 && n[0] == 'h' && n[1] == 'e',
{
    reveal_strlit("html");
    reveal_strlit("head");
    reveal_strlit("script");
    reveal_strlit("link");
    reveal_strlit("style");
    reveal_strlit("svg");
    reveal_strlit("base");
}

/// `script`, `link`, `style`, `svg` and `base` elements are dropped with
/// all their content, and so are comments, wherever they stand.
pub proof fn lemma_slim_drops(node: DomNode, in_head: bool, depth: usize, o: SlimOptions)
    ensures
        match node.data {
            NodeData::Element { name, .. } => (name@ == "script"@ || name@ == "link"@ || name@
                == "style"@ || name@ == "svg"@ || name@ == "base"@) ==> slim_node(
                node,
                in_head,
                depth,
                o,
            ) == Seq::<char>::empty(),
            NodeData::Comment { .. } => slim_node(node, in_head, depth, o) == Seq::<char>::empty(),
            _ => true,
        },
{
    if let NodeData::Element { name, .. } = node.data {
        reveal_strlit("script");
        reveal_strlit("link");
        reveal_strlit("style");
        reveal_strlit("svg");
        reveal_strlit("base");
        lemma_removed_tag_shape(name@);
    }
}

/// Outside `head`, an empty `div`, `span`, `p`, `i`, `b`, `em`, `strong`,
/// `section`, `article`, `header`, `footer`, `nav` or `aside` is dropped,
/// and so is an empty `head`.
pub proof fn lemma_slim_drops_empty(node: DomNode, depth: usize, o: SlimOptions)
    requires
        node.children@.len() == 0,
    ensures
        match node.data {
            NodeData::Element { name, .. } => (name@ == "div"@ || name@ == "span"@ || name@
                == "p"@ || name@ == "i"@ || name@ == "b"@ || name@ == "em"@ || name@ == "strong"@
                || name@ == "section"@ || name@ == "article"@ || name@ == "header"@ || name@
                == "footer"@ || name@ == "nav"@ || name@ == "aside"@ || name@ == "head"@)
                ==> slim_node(node, false, depth, o) == Seq::<char>::empty(),
            _ => true,
        },
{
    if let NodeData::Element { name, attrs } = node.data {
        reveal_strlit("head");
        reveal_strlit("div");
        reveal_strlit("span");
        reveal_strlit("p");
        reveal_strlit("i");
        reveal_strlit("b");
        reveal_strlit("em");
        reveal_strlit("strong");
        reveal_strlit("section");
        reveal_strlit("article");
        reveal_strlit("header");
        reveal_strlit("footer");
        reveal_strlit("nav");
        reveal_strlit("aside");
        lemma_removed_tag_shape(name@);
        let d = if slim_block(name@, o) {
            deeper(depth)
        } else {
            depth
        };
        assert(slim_children(node.children@, 0, false || name@ == "head"@, d, o)
            == Seq::<char>::empty());
    }
}

} // verus!
