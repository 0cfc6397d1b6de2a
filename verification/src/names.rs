use vstd::prelude::*;

use crate::text::{ascii_lower_chars, ascii_lower_seq, eq_lit};

verus! {

/// Elements that slimming always drops, with their content.
pub open spec fn is_removed_tag(n: Seq<char>) -> bool {
    ||| n == "script"@
    ||| n == "link"@
    ||| n == "style"@
    ||| n == "svg"@
    ||| n == "base"@
}

/// Tests `is_removed_tag`.
pub fn is_removed_tag_exec(n: &[char]) -> (r: bool)
    ensures
        r == is_removed_tag(n@),
{
    eq_lit(n, "script")
        || eq_lit(n, "link")
        || eq_lit(n, "style")
        || eq_lit(n, "svg")
        || eq_lit(n, "base")
}

/// Elements that slimming drops outside `head` once their content is blank.
pub open spec fn is_removable_when_empty(n: Seq<char>) -> bool {
    ||| n == "div"@
    ||| n == "span"@
    ||| n == "p"@
    ||| n == "i"@
    ||| n == "b"@
    ||| n == "em"@
    ||| n == "strong"@
    ||| n == "section"@
    ||| n == "article"@
    ||| n == "header"@
    ||| n == "footer"@
    ||| n == "nav"@
    ||| n == "aside"@
}

/// Tests `is_removable_when_empty`.
pub fn is_removable_when_empty_exec(n: &[char]) -> (r: bool)
    ensures
        r == is_removable_when_empty(n@),
{
    eq_lit(n, "div")
        || eq_lit(n, "span")
        || eq_lit(n, "p")
        || eq_lit(n, "i")
        || eq_lit(n, "b")
        || eq_lit(n, "em")
        || eq_lit(n, "strong")
        || eq_lit(n, "section")
        || eq_lit(n, "article")
        || eq_lit(n, "header")
        || eq_lit(n, "footer")
        || eq_lit(n, "nav")
        || eq_lit(n, "aside")
}

/// Elements that slimming places on their own indented line when formatting.
pub open spec fn is_slim_block_tag(n: Seq<char>) -> bool {
    ||| n == "html"@
    ||| n == "head"@
    ||| n == "body"@
    ||| n == "a"@
    ||| n == "div"@
    ||| n == "p"@
    ||| n == "section"@
    ||| n == "article"@
    ||| n == "header"@
    ||| n == "footer"@
    ||| n == "nav"@
    ||| n == "aside"@
    ||| n == "ul"@
    ||| n == "ol"@
    ||| n == "li"@
    ||| n == "table"@
    ||| n == "tr"@
    ||| n == "td"@
    ||| n == "th"@
    ||| n == "h1"@
    ||| n == "h2"@
    ||| n == "h3"@
    ||| n == "h4"@
    ||| n == "h5"@
    ||| n == "h6"@
    ||| n == "pre"@
    ||| n == "blockquote"@
    ||| n == "main"@
    ||| n == "form"@
    ||| n == "fieldset"@
    ||| n == "details"@
    ||| n == "summary"@
    ||| n == "figure"@
    ||| n == "figcaption"@
    ||| n == "dl"@
    ||| n == "dt"@
    ||| n == "dd"@
    ||| n == "br"@
    ||| n == "hr"@
    ||| n == "img"@
    ||| n == "input"@
    ||| n == "meta"@
    ||| n == "link"@
    ||| n == "script"@
    ||| n == "style"@
}

/// Tests `is_slim_block_tag`.
pub fn is_slim_block_tag_exec(n: &[char]) -> (r: bool)
    ensures
        r == is_slim_block_tag(n@),
{
    eq_lit(n, "html")
        || eq_lit(n, "head")
        || eq_lit(n, "body")
        || eq_lit(n, "a")
        || eq_lit(n, "div")
        || eq_lit(n, "p")
        || eq_lit(n, "section")
        || eq_lit(n, "article")
        || eq_lit(n, "header")
        || eq_lit(n, "footer")
        || eq_lit(n, "nav")
        || eq_lit(n, "aside")
        || eq_lit(n, "ul")
        || eq_lit(n, "ol")
        || eq_lit(n, "li")
        || eq_lit(n, "table")
        || eq_lit(n, "tr")
        || eq_lit(n, "td")
        || eq_lit(n, "th")
        || eq_lit(n, "h1")
        || eq_lit(n, "h2")
        || eq_lit(n, "h3")
        || eq_lit(n, "h4")
        || eq_lit(n, "h5")
        || eq_lit(n, "h6")
        || eq_lit(n, "pre")
        || eq_lit(n, "blockquote")
        || eq_lit(n, "main")
        || eq_lit(n, "form")
        || eq_lit(n, "fieldset")
        || eq_lit(n, "details")
        || eq_lit(n, "summary")
        || eq_lit(n, "figure")
        || eq_lit(n, "figcaption")
        || eq_lit(n, "dl")
        || eq_lit(n, "dt")
        || eq_lit(n, "dd")
        || eq_lit(n, "br")
        || eq_lit(n, "hr")
        || eq_lit(n, "img")
        || eq_lit(n, "input")
        || eq_lit(n, "meta")
        || eq_lit(n, "link")
        || eq_lit(n, "script")
        || eq_lit(n, "style")
}

/// Elements that slimming writes without a closing tag when formatting.
pub open spec fn is_slim_void_tag(n: Seq<char>) -> bool {
    ||| n == "area"@
    ||| n == "base"@
    ||| n == "br"@
    ||| n == "col"@
    ||| n == "embed"@
    ||| n == "hr"@
    ||| n == "img"@
    ||| n == "input"@
    ||| n == "link"@
    ||| n == "meta"@
    ||| n == "param"@
    ||| n == "source"@
    ||| n == "track"@
    ||| n == "wbr"@
}

/// Tests `is_slim_void_tag`.
pub fn is_slim_void_tag_exec(n: &[char]) -> (r: bool)
    ensures
        r == is_slim_void_tag(n@),
{
    eq_lit(n, "area")
        || eq_lit(n, "base")
        || eq_lit(n, "br")
        || eq_lit(n, "col")
        || eq_lit(n, "embed")
        || eq_lit(n, "hr")
        || eq_lit(n, "img")
        || eq_lit(n, "input")
        || eq_lit(n, "link")
        || eq_lit(n, "meta")
        || eq_lit(n, "param")
        || eq_lit(n, "source")
        || eq_lit(n, "track")
        || eq_lit(n, "wbr")
}

/// Attributes kept on a `meta` element inside `head`.
pub open spec fn is_meta_attr(n: Seq<char>) -> bool {
    ||| n == "property"@
    ||| n == "content"@
}

/// Tests `is_meta_attr`.
pub fn is_meta_attr_exec(n: &[char]) -> (r: bool)
    ensures
        r == is_meta_attr(n@),
{
    eq_lit(n, "property")
        || eq_lit(n, "content")
}

/// Attributes kept on elements outside `head`.
pub open spec fn is_body_attr(n: Seq<char>) -> bool {
    ||| n == "class"@
    ||| n == "aria-label"@
    ||| n == "href"@
    ||| n == "title"@
    ||| n == "id"@
}

/// Tests `is_body_attr`.
pub fn is_body_attr_exec(n: &[char]) -> (r: bool)
    ensures
        r == is_body_attr(n@),
{
    eq_lit(n, "class")
        || eq_lit(n, "aria-label")
        || eq_lit(n, "href")
        || eq_lit(n, "title")
        || eq_lit(n, "id")
}

/// Block-level elements for pretty printing (compared in ASCII lower case).
pub open spec fn is_block_tag(n: Seq<char>) -> bool {
    ||| n == "address"@
    ||| n == "article"@
    ||| n == "aside"@
    ||| n == "blockquote"@
    ||| n == "body"@
    ||| n == "caption"@
    ||| n == "col"@
    ||| n == "colgroup"@
    ||| n == "dd"@
    ||| n == "details"@
    ||| n == "dialog"@
    ||| n == "div"@
    ||| n == "dl"@
    ||| n == "dt"@
    ||| n == "fieldset"@
    ||| n == "figcaption"@
    ||| n == "figure"@
    ||| n == "footer"@
    ||| n == "form"@
    ||| n == "h1"@
    ||| n == "h2"@
    ||| n == "h3"@
    ||| n == "h4"@
    ||| n == "h5"@
    ||| n == "h6"@
    ||| n == "head"@
    ||| n == "header"@
    ||| n == "hgroup"@
    ||| n == "hr"@
    ||| n == "html"@
    ||| n == "li"@
    ||| n == "main"@
    ||| n == "menu"@
    ||| n == "nav"@
    ||| n == "ol"@
    ||| n == "p"@
    ||| n == "pre"@
    ||| n == "script"@
    ||| n == "section"@
    ||| n == "style"@
    ||| n == "summary"@
    ||| n == "table"@
    ||| n == "tbody"@
    ||| n == "td"@
    ||| n == "tfoot"@
    ||| n == "th"@
    ||| n == "thead"@
    ||| n == "tr"@
    ||| n == "ul"@
}

/// Tests `is_block_tag` on a name already in ASCII lower case.
fn is_block_tag_exec(n: &[char]) -> (r: bool)
    ensures
        r == is_block_tag(n@),
{
    eq_lit(n, "address")
        || eq_lit(n, "article")
        || eq_lit(n, "aside")
        || eq_lit(n, "blockquote")
        || eq_lit(n, "body")
        || eq_lit(n, "caption")
        || eq_lit(n, "col")
        || eq_lit(n, "colgroup")
        || eq_lit(n, "dd")
        || eq_lit(n, "details")
        || eq_lit(n, "dialog")
        || eq_lit(n, "div")
        || eq_lit(n, "dl")
        || eq_lit(n, "dt")
        || eq_lit(n, "fieldset")
        || eq_lit(n, "figcaption")
        || eq_lit(n, "figure")
        || eq_lit(n, "footer")
        || eq_lit(n, "form")
        || eq_lit(n, "h1")
        || eq_lit(n, "h2")
        || eq_lit(n, "h3")
        || eq_lit(n, "h4")
        || eq_lit(n, "h5")
        || eq_lit(n, "h6")
        || eq_lit(n, "head")
        || eq_lit(n, "header")
        || eq_lit(n, "hgroup")
        || eq_lit(n, "hr")
        || eq_lit(n, "html")
        || eq_lit(n, "li")
        || eq_lit(n, "main")
        || eq_lit(n, "menu")
        || eq_lit(n, "nav")
        || eq_lit(n, "ol")
        || eq_lit(n, "p")
        || eq_lit(n, "pre")
        || eq_lit(n, "script")
        || eq_lit(n, "section")
        || eq_lit(n, "style")
        || eq_lit(n, "summary")
        || eq_lit(n, "table")
        || eq_lit(n, "tbody")
        || eq_lit(n, "td")
        || eq_lit(n, "tfoot")
        || eq_lit(n, "th")
        || eq_lit(n, "thead")
        || eq_lit(n, "tr")
        || eq_lit(n, "ul")
}

/// Void elements for pretty printing (compared in ASCII lower case).
pub open spec fn is_void_tag(n: Seq<char>) -> bool {
    ||| n == "area"@
    ||| n == "base"@
    ||| n == "br"@
    ||| n == "col"@
    ||| n == "embed"@
    ||| n == "hr"@
    ||| n == "img"@
    ||| n == "input"@
    ||| n == "link"@
    ||| n == "meta"@
    ||| n == "param"@
    ||| n == "source"@
    ||| n == "track"@
    ||| n == "wbr"@
}

/// Tests `is_void_tag` on a name already in ASCII lower case.
fn is_void_tag_exec(n: &[char]) -> (r: bool)
    ensures
        r == is_void_tag(n@),
{
    eq_lit(n, "area")
        || eq_lit(n, "base")
        || eq_lit(n, "br")
        || eq_lit(n, "col")
        || eq_lit(n, "embed")
        || eq_lit(n, "hr")
        || eq_lit(n, "img")
        || eq_lit(n, "input")
        || eq_lit(n, "link")
        || eq_lit(n, "meta")
        || eq_lit(n, "param")
        || eq_lit(n, "source")
        || eq_lit(n, "track")
        || eq_lit(n, "wbr")
}

/// Elements whose text content pretty printing may wrap (compared in ASCII lower case).
pub open spec fn is_text_wrap_tag(n: Seq<char>) -> bool {
    ||| n == "p"@
    ||| n == "li"@
    ||| n == "dt"@
    ||| n == "dd"@
    ||| n == "figcaption"@
    ||| n == "caption"@
    ||| n == "summary"@
    ||| n == "blockquote"@
    ||| n == "h1"@
    ||| n == "h2"@
    ||| n == "h3"@
    ||| n == "h4"@
    ||| n == "h5"@
    ||| n == "h6"@
}

/// Tests `is_text_wrap_tag` on a name already in ASCII lower case.
fn is_text_wrap_tag_exec(n: &[char]) -> (r: bool)
    ensures
        r == is_text_wrap_tag(n@),
{
    eq_lit(n, "p")
        || eq_lit(n, "li")
        || eq_lit(n, "dt")
        || eq_lit(n, "dd")
        || eq_lit(n, "figcaption")
        || eq_lit(n, "caption")
        || eq_lit(n, "summary")
        || eq_lit(n, "blockquote")
        || eq_lit(n, "h1")
        || eq_lit(n, "h2")
        || eq_lit(n, "h3")
        || eq_lit(n, "h4")
        || eq_lit(n, "h5")
        || eq_lit(n, "h6")
}

/// Elements whose text children are written without escaping (compared in ASCII lower case).
pub open spec fn is_raw_text_element(n: Seq<char>) -> bool {
    ||| n == "script"@
    ||| n == "style"@
    ||| n == "xmp"@
    ||| n == "iframe"@
    ||| n == "noembed"@
    ||| n == "noframes"@
    ||| n == "plaintext"@
}

/// Tests `is_raw_text_element`.
pub fn is_raw_text_element_exec(n: &[char]) -> (r: bool)
    ensures
        r == is_raw_text_element(n@),
{
    eq_lit(n, "script")
        || eq_lit(n, "style")
        || eq_lit(n, "xmp")
        || eq_lit(n, "iframe")
        || eq_lit(n, "noembed")
        || eq_lit(n, "noframes")
        || eq_lit(n, "plaintext")
}

/// Whether the element named `name` is a block-level element; the name is
/// compared in ASCII lower case.
pub fn is_block_element(name: &[char]) -> (r: bool)
    ensures
        r == is_block_tag(ascii_lower_seq(name@)),
{
    let lower = ascii_lower_chars(name);
    is_block_tag_exec(lower.as_slice())
}

/// Whether the element named `name` is a void element; the name is
/// compared in ASCII lower case.
pub fn is_void_element(name: &[char]) -> (r: bool)
    ensures
        r == is_void_tag(ascii_lower_seq(name@)),
{
    let lower = ascii_lower_chars(name);
    is_void_tag_exec(lower.as_slice())
}

/// Whether the element named `name` is an element whose text is wrapped; the name is
/// compared in ASCII lower case.
pub fn is_text_wrap_element(name: &[char]) -> (r: bool)
    ensures
        r == is_text_wrap_tag(ascii_lower_seq(name@)),
{
    let lower = ascii_lower_chars(name);
    is_text_wrap_tag_exec(lower.as_slice())
}

} // verus!
