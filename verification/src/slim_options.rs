use vstd::prelude::*;

verus! {

/// Options for the `slim` function (indentation, etc.).
#[derive(Clone, Copy, Debug)]
pub struct SlimOptions {
    /// Whether to use tabs instead of spaces for indentation.
    pub indent_with_tabs: bool,
    /// Number of spaces per indentation level, or `None` for flat output.
    pub indent: Option<u8>,
}

impl SlimOptions {
    /// Create a new `SlimOptions` with the given indent and no tabs.
    pub fn from_indent(indent: u8) -> (r: Self)
        ensures
            r.indent == Some(indent),
            !r.indent_with_tabs,
    {
        SlimOptions { indent: Some(indent), indent_with_tabs: false }
    }

    /// Set the number of spaces for indentation (enables formatting).
    pub fn with_indent(self, spaces: u8) -> (r: Self)
        ensures
            r.indent == Some(spaces),
            r.indent_with_tabs == self.indent_with_tabs,
    {
        SlimOptions { indent: Some(spaces), ..self }
    }

    /// Use tabs instead of spaces for indentation.
    pub fn with_indent_with_tabs(self, tabs: bool) -> (r: Self)
        ensures
            r.indent_with_tabs == tabs,
            r.indent == self.indent,
    {
        SlimOptions { indent_with_tabs: tabs, ..self }
    }
}

impl Default for SlimOptions {
    fn default() -> (r: Self)
        ensures
            r.indent is None,
            !r.indent_with_tabs,
    {
        SlimOptions { indent_with_tabs: false, indent: None }
    }
}


/// The default options: flat output, no indentation.
pub open spec fn default_slim_options() -> SlimOptions {
    SlimOptions { indent_with_tabs: false, indent: None }
}

impl From<Option<SlimOptions>> for SlimOptions {
    /// The given options, or the default ones for `None`.
    fn from(o: Option<SlimOptions>) -> (r: Self) {
        match o {
            Some(opts) => opts,
            None => SlimOptions::default(),
        }
    }
}

impl vstd::std_specs::convert::FromSpecImpl<Option<SlimOptions>> for SlimOptions {
    open spec fn obeys_from_spec() -> bool {
        true
    }

    open spec fn from_spec(v: Option<SlimOptions>) -> Self {
        match v {
            Some(opts) => opts,
            None => default_slim_options(),
        }
    }
}

} // verus!
