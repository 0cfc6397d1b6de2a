use vstd::prelude::*;

use crate::dom::parsed_html;

verus! {

/// A parsed HTML document, as scraper builds it.
pub type HtmlParsed = scraper::Html;

/// Either a raw HTML string or a pre-parsed HTML document.
pub enum HtmlContent<'a> {
    /// A raw HTML string.
    Source(&'a str),
    /// A pre-parsed HTML document.
    Parsed(&'a HtmlParsed),
}

/// The document that `c` stands for: the parse of the string, or the
/// document itself.
pub open spec fn content_document(c: HtmlContent) -> HtmlParsed {
    match c {
        HtmlContent::Source(s) => parsed_html(s@),
        HtmlContent::Parsed(d) => *d,
    }
}

impl<'a> From<&'a str> for HtmlContent<'a> {
    /// The string itself.
    fn from(value: &'a str) -> (r: Self) {
        HtmlContent::Source(value)
    }
}

impl<'a> vstd::std_specs::convert::FromSpecImpl<&'a str> for HtmlContent<'a> {
    open spec fn obeys_from_spec() -> bool {
        true
    }

    open spec fn from_spec(v: &'a str) -> Self {
        HtmlContent::Source(v)
    }
}

impl<'a> From<&'a HtmlParsed> for HtmlContent<'a> {
    /// The document itself.
    fn from(value: &'a HtmlParsed) -> (r: Self) {
        HtmlContent::Parsed(value)
    }
}

impl<'a> vstd::std_specs::convert::FromSpecImpl<&'a HtmlParsed> for HtmlContent<'a> {
    open spec fn obeys_from_spec() -> bool {
        true
    }

    open spec fn from_spec(v: &'a HtmlParsed) -> Self {
        HtmlContent::Parsed(v)
    }
}

impl<'a> From<&'a String> for HtmlContent<'a> {
    /// The string's text.
    fn from(value: &'a String) -> (r: Self)
        ensures
            r matches HtmlContent::Source(s) && s@ == value@,
    {
        HtmlContent::Source(value.as_str())
    }
}

impl<'a> vstd::std_specs::convert::FromSpecImpl<&'a String> for HtmlContent<'a> {
    /// The `&str` that the conversion borrows cannot be named from the
    /// `String` in a specification, so no spec value is claimed; `from`
    /// states what it gives instead.
    open spec fn obeys_from_spec() -> bool {
        false
    }

    open spec fn from_spec(v: &'a String) -> Self {
        HtmlContent::Source(choose|s: &'a str| s@ == v@)
    }
}

} // verus!
