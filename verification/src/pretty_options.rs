use vstd::prelude::*;

verus! {

/// Options for the `pretty` function.
#[derive(Clone, Copy, Debug)]
pub struct PrettyOptions {
    /// Number of spaces per indentation level.
    pub ident: u8,
    /// Maximum text-content line length, or `None` to disable wrapping.
    pub wrap: Option<u16>,
}

/// The default options: two spaces per level, text wrapped at 80 characters.
pub open spec fn default_pretty_options() -> PrettyOptions {
    PrettyOptions { ident: 2, wrap: Some(80) }
}

impl Default for PrettyOptions {
    fn default() -> (r: Self)
        ensures
            r == default_pretty_options(),
    {
        PrettyOptions { ident: 2, wrap: Some(80) }
    }
}

impl From<Option<PrettyOptions>> for PrettyOptions {
    /// The given options, or the default ones for `None`.
    fn from(options: Option<PrettyOptions>) -> (r: Self) {
        match options {
            Some(o) => o,
            None => PrettyOptions::default(),
        }
    }
}

impl vstd::std_specs::convert::FromSpecImpl<Option<PrettyOptions>> for PrettyOptions {
    open spec fn obeys_from_spec() -> bool {
        true
    }

    open spec fn from_spec(v: Option<PrettyOptions>) -> Self {
        match v {
            Some(o) => o,
            None => default_pretty_options(),
        }
    }
}

} // verus!
