use vstd::prelude::*;

use crate::dom::parse_html;
use crate::elem::{entries_map, AttrMap, Elem};
use crate::html_content::{content_document, HtmlContent, HtmlParsed};
use crate::error::{Error, Result};
use crate::text::{
    chars_of, is_blank, is_blank_chars, lemma_trim_empty_iff_blank, push_all, string_of, trim, trim_chars,
};

verus! {

#[verifier::external_type_specification]
#[verifier::external_body]
pub struct ExSelector(scraper::Selector);

/// A parsed CSS selector group, with the text it was parsed from.
pub struct CssSelector {
    source: String,
    compiled: scraper::Selector,
}

impl CssSelector {
    /// The text the selector was parsed from.
    pub closed spec fn source(&self) -> Seq<char> {
        self.source@
    }
}

/// What `scraper::Selector::parse` says of `s`: `None` when it parses,
/// else the message of its error.
pub uninterp spec fn css_parse_error(s: Seq<char>) -> Option<Seq<char>>;

/// `scraper::Selector::parse`: parses a CSS selector group (cssparser and
/// the selectors crate do the work). Whether `s` parses, and the message
/// of the error when it does not (`SelectorErrorKind` written with
/// `Display`), depend on `s` alone and are named, not written out.
#[verifier::external_body]
fn parse_selector(s: &str) -> (r: core::result::Result<CssSelector, String>)
    ensures
        match r {
            Ok(sel) => css_parse_error(s@) is None && sel.source() == s@,
            Err(e) => css_parse_error(s@) == Some(e@),
        },
{
    match scraper::Selector::parse(s) {
        Ok(compiled) => Ok(CssSelector { source: s.to_string(), compiled }),
        Err(e) => Err(e.to_string()),
    }
}

/// An element as scraper hands it out: tag name, attributes in scraper's
/// order, the text of its descendants, and its inner HTML.
pub struct RawElem {
    pub tag: String,
    pub attrs: Vec<(String, String)>,
    pub text: String,
    pub inner_html: String,
}

/// The elements that scraper selects with the selector group `selector`
/// in the document `doc`.
pub uninterp spec fn selected_in(doc: HtmlParsed, selector: Seq<char>) -> Seq<RawElem>;

/// `scraper::Html::select`: the elements of the document that the selector
/// matches, in document order, each with its name, its attributes, the
/// concatenated text of its descendants (`ElementRef::text`) and its inner
/// HTML (`ElementRef::inner_html`, html5ever's serializer). The result
/// depends on the document and the selector's text alone and is named, not
/// written out.
#[verifier::external_body]
fn select_in(doc: &HtmlParsed, selector: &CssSelector) -> (r: Vec<RawElem>)
    ensures
        r@ == selected_in(*doc, selector.source()),
{
    let found = doc.select(&selector.compiled).map(|el| RawElem {
        tag: el.value().name().to_string(),
        attrs: el.value().attrs().map(|(k, v)| (k.to_string(), v.to_string())).collect(),
        text: el.text().collect(),
        inner_html: el.inner_html(),
    });
    found.collect()
}

/// `Some(s)` unless `s` is blank.
pub open spec fn non_blank(s: String) -> Option<Seq<char>> {
    if is_blank(s@) {
        None
    } else {
        Some(s@)
    }
}

/// The characters an optional string stands for.
pub open spec fn opt_string(s: Option<String>) -> Option<Seq<char>> {
    match s {
        Some(v) => Some(v@),
        None => None,
    }
}

/// `e` is the `Elem` made from the raw element `raw`: same tag, the
/// attributes as a map (`None` when there are none), and the text and
/// inner HTML unless they are blank.
pub open spec fn elem_of(e: Elem, raw: RawElem) -> bool {
    &&& e.tag@ == raw.tag@
    &&& raw.attrs@.len() == 0 ==> e.attrs is None
    &&& raw.attrs@.len() > 0 ==> (e.attrs matches Some(m) && m@ == entries_map(raw.attrs@))
    &&& opt_string(e.text) == non_blank(raw.text)
    &&& opt_string(e.inner_html) == non_blank(raw.inner_html)
}

/// A copy of the text, or `None` when it is blank.
fn non_blank_string(s: &String) -> (r: Option<String>)
    ensures
        opt_string(r) == non_blank(*s),
{
    let cs = chars_of(s.as_str());
    if is_blank_chars(cs.as_slice()) {
        None
    } else {
        Some(s.clone())
    }
}

impl Elem {
    /// Makes an `Elem` of a raw element.
    pub fn from_raw(raw: &RawElem) -> (r: Elem)
        ensures
            elem_of(r, *raw),
    {
        let attrs = if raw.attrs.len() == 0 {
            None
        } else {
            let mut m = AttrMap::new();
            let n: usize = raw.attrs.len();
            let mut i: usize = 0;
            assert(raw.attrs@.take(0) =~= seq![]);
            while i < n
                invariant
                    n == raw.attrs@.len(),
                    i <= n,
                    m@ == entries_map(raw.attrs@.take(i as int)),
                decreases n - i,
            {
                assert(raw.attrs@.take(i + 1).drop_last() =~= raw.attrs@.take(i as int));
                assert(raw.attrs@.take(i + 1).last() == raw.attrs@[i as int]);
                m.insert(raw.attrs[i].0.clone(), raw.attrs[i].1.clone());
                i = i + 1;
            }
            assert(raw.attrs@.take(n as int) =~= raw.attrs@);
            Some(m)
        };
        Elem {
            tag: raw.tag.clone(),
            attrs,
            text: non_blank_string(&raw.text),
            inner_html: non_blank_string(&raw.inner_html),
        }
    }
}

/// The selectors, trimmed, without the blank ones, joined with `,`.
pub open spec fn joined_selectors(sels: Seq<Seq<char>>) -> Seq<char>
    decreases sels.len(),
{
    if sels.len() == 0 {
        seq![]
    } else {
        let prev = joined_selectors(sels.drop_last());
        let s = trim(sels.last());
        if s.len() == 0 {
            prev
        } else if prev.len() == 0 {
            s
        } else {
            prev + seq![','] + s
        }
    }
}

/// The characters of each string.
pub open spec fn strings_view(v: Seq<String>) -> Seq<Seq<char>> {
    v.map_values(|s: String| s@)
}

/// `r` is what selecting with the selector texts `sels` in `doc` gives:
/// an empty list when no selector is left after trimming, the parse error
/// when the joined group does not parse, else one `Elem` for each element
/// that scraper selects, in its order.
pub open spec fn select_outcome(doc: HtmlParsed, sels: Seq<Seq<char>>, r: Result<Vec<Elem>>) -> bool {
    let group = joined_selectors(sels);
    if group.len() == 0 {
        r matches Ok(v) && v@.len() == 0
    } else {
        match css_parse_error(group) {
            Some(cause) => r matches Err(Error::SelectorParse { selector, cause: c }) && selector@
                == group && c@ == cause,
            None => r matches Ok(v) && v@.len() == selected_in(doc, group).len() && forall|
                i: int,
            |
                0 <= i < v@.len() ==> #[trigger] elem_of(
                    v@[i],
                    selected_in(doc, group)[i],
                ),
        }
    }
}

/// Selects the elements of `html_content` that match any of `selectors`
/// (CSS selectors, combined with `,`); see `select`.
pub fn select_list(html_content: &HtmlContent, selectors: &Vec<String>) -> (r: Result<Vec<Elem>>)
    ensures
        select_outcome(content_document(*html_content), strings_view(selectors@), r),
{
    let ghost sels = strings_view(selectors@);
    let mut group: Vec<char> = Vec::new();
    let n: usize = selectors.len();
    let mut i: usize = 0;
    assert(sels.take(0) =~= seq![]);
    while i < n
        invariant
            n == selectors@.len(),
            sels == strings_view(selectors@),
            i <= n,
            group@ == joined_selectors(sels.take(i as int)),
        decreases n - i,
    {
        assert(sels.take(i + 1).drop_last() =~= sels.take(i as int));
        assert(sels.take(i + 1).last() == selectors@[i as int]@);
        let cs = chars_of(selectors[i].as_str());
        let s = trim_chars(cs.as_slice());
        if s.len() > 0 {
            if group.len() > 0 {
                group.push(',');
            }
            push_all(&mut group, s.as_slice());
        }
        i = i + 1;
    }
    assert(sels.take(n as int) =~= sels);
    if group.len() == 0 {
        return Ok(Vec::new());
    }
    let group_str = string_of(group.as_slice());
    match parse_selector(group_str.as_str()) {
        Err(cause) => Err(Error::SelectorParse { selector: group_str, cause }),
        Ok(sel) => {
            let raws = match html_content {
                HtmlContent::Source(text) => {
                    let doc = parse_html(text);
                    select_in(&doc, &sel)
                },
                HtmlContent::Parsed(doc) => select_in(doc, &sel),
            };
            let mut els: Vec<Elem> = Vec::new();
            let m: usize = raws.len();
            let mut k: usize = 0;
            while k < m
                invariant
                    m == raws@.len(),
                    k <= m,
                    els@.len() == k,
                    forall|j: int| 0 <= j < k ==> #[trigger] elem_of(els@[j], raws@[j]),
                decreases m - k,
            {
                els.push(Elem::from_raw(&raws[k]));
                k = k + 1;
            }
            Ok(els)
        },
    }
}

/// Gathers the selector texts of an iterator, in order. Nothing is stated
/// of the result: the iterator's type is a parameter of the caller.
#[verifier::external_body]
fn collect_selectors<S>(selectors: S) -> Vec<String> where S: IntoIterator, S::Item: AsRef<str> {
    selectors.into_iter().map(|s| s.as_ref().to_string()).collect()
}

/// Selects HTML elements with a list of CSS selectors and returns them as a
/// list of `Elem`. The HTML is a string, parsed as a document, or a document
/// parsed already. The selectors are combined with `,` (an "or" match);
/// blank selectors are left out, and when none is left the list is empty.
/// Elements come in document order. An error is returned when the combined
/// selector does not parse.
///
/// The selectors come from an iterator of the caller's type, of which
/// nothing can be specified, so the contract says only that the result is
/// the outcome for some list of selectors (and, for a `&str` or a parsed
/// document, for that HTML). `select_list` takes the selectors as a list and
/// has an exact contract; this function hands its work to it.
pub fn select<'a, H, S>(html_content: H, selectors: S) -> (r: Result<Vec<Elem>>) where
    H: Into<HtmlContent<'a>>,
    S: IntoIterator,
    S::Item: AsRef<str>,

    ensures
        exists|c: HtmlContent<'a>, sels: Seq<Seq<char>>|
            select_outcome(content_document(c), sels, r),
        <H as vstd::std_specs::convert::IntoSpec<HtmlContent<'a>>>::obeys_into_spec() ==> exists|
            sels: Seq<Seq<char>>,
        |
            select_outcome(
                content_document(
                    <H as vstd::std_specs::convert::IntoSpec<HtmlContent<'a>>>::into_spec(
                        html_content,
                    ),
                ),
                sels,
                r,
            ),
{
    let content: HtmlContent<'a> = html_content.into();
    let list = collect_selectors(selectors);
    let r = select_list(&content, &list);
    assert(select_outcome(content_document(content), strings_view(list@), r));
    r
}

/// Blank selectors are ignored: putting one anywhere in the list changes
/// neither the combined selector nor the outcome.
pub proof fn lemma_blank_selector_ignored(
    a: Seq<Seq<char>>,
    b: Seq<Seq<char>>,
    blank: Seq<char>,
    doc: HtmlParsed,
    r: Result<Vec<Elem>>,
)
    requires
        is_blank(blank),
    ensures
        joined_selectors(a + seq![blank] + b) == joined_selectors(a + b),
        select_outcome(doc, a + seq![blank] + b, r) == select_outcome(doc, a + b, r),
    decreases b.len(),
{
    if b.len() == 0 {
        assert(a + seq![blank] + b =~= a.push(blank));
        assert(a.push(blank).drop_last() =~= a);
        assert(a + b =~= a);
        lemma_trim_empty_iff_blank(blank);
    } else {
        lemma_blank_selector_ignored(a, b.drop_last(), blank, doc, r);
        assert((a + seq![blank] + b).drop_last() =~= a + seq![blank] + b.drop_last());
        assert((a + b).drop_last() =~= a + b.drop_last());
        assert((a + seq![blank] + b).last() == b.last());
        assert((a + b).last() == b.last());
    }
}

} // verus!
