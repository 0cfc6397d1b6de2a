use vstd::prelude::*;

verus! {

/// Options of `md_to_html`: how fenced code blocks are written.
#[derive(Clone, Copy, Debug)]
pub struct MdToHtmlOptions {
    /// Write ` ```mermaid ` blocks as `<pre class="mermaid">` elements
    /// (default `true`); when `false` they are ordinary code blocks.
    pub code_block_mermaid_as_pre: bool,
    /// Escape `&`, `<` and `>` in code block contents (default `true`).
    pub code_block_html_escape_content: bool,
}

/// The default options: Mermaid blocks as `pre`, contents escaped.
pub open spec fn default_md_to_html_options() -> MdToHtmlOptions {
    MdToHtmlOptions { code_block_mermaid_as_pre: true, code_block_html_escape_content: true }
}

impl Default for MdToHtmlOptions {
    fn default() -> (r: Self)
        ensures
            r == default_md_to_html_options(),
    {
        MdToHtmlOptions { code_block_mermaid_as_pre: true, code_block_html_escape_content: true }
    }
}

impl From<Option<MdToHtmlOptions>> for MdToHtmlOptions {
    /// The given options, or the default ones for `None`.
    fn from(options: Option<MdToHtmlOptions>) -> (r: Self) {
        match options {
            Some(o) => o,
            None => MdToHtmlOptions::default(),
        }
    }
}

impl vstd::std_specs::convert::FromSpecImpl<Option<MdToHtmlOptions>> for MdToHtmlOptions {
    open spec fn obeys_from_spec() -> bool {
        true
    }

    open spec fn from_spec(v: Option<MdToHtmlOptions>) -> Self {
        match v {
            Some(o) => o,
            None => default_md_to_html_options(),
        }
    }
}

} // verus!
