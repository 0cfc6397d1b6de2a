use vstd::prelude::*;

verus! {

#[verifier::external_type_specification]
#[verifier::external_body]
pub struct ExHtmdOptions(htmd::options::Options);

/// The htmd options built with the given list settings (dashes or asterisks
/// as bullets, and the spacing after bullets and after numbers), htmd's
/// defaults for the rest.
pub uninterp spec fn htmd_list_options(
    dash_bullets: bool,
    ul_bullet_spacing: u8,
    ol_number_spacing: u8,
) -> htmd::options::Options;

/// Builds `htmd::options::Options` with the given bullet marker (`-` when
/// `dash_bullets`, else `*`), spacing after bullets and spacing after list
/// numbers, and `Options::default()` for every other field. A plain struct
/// literal: the result depends on the arguments alone.
#[verifier::external_body]
fn htmd_options(dash_bullets: bool, ul_bullet_spacing: u8, ol_number_spacing: u8) -> (r:
    htmd::options::Options)
    ensures
        r == htmd_list_options(dash_bullets, ul_bullet_spacing, ol_number_spacing),
{
    let bullet_list_marker = match dash_bullets {
        true => htmd::options::BulletListMarker::Dash,
        false => htmd::options::BulletListMarker::Asterisk,
    };
    htmd::options::Options {
        bullet_list_marker,
        ul_bullet_spacing,
        ol_number_spacing,
        ..Default::default()
    }
}

/// Options of `to_md`.
#[derive(Debug)]
pub struct ToMdOptions {
    /// The options handed to the htmd converter.
    pub htmd_options: htmd::options::Options,
    /// Whether the page's `<title>` becomes a first-level heading in front.
    pub title_as_h1: bool,
    /// Whether, when a title was put in front, the page's headings move one
    /// level down.
    pub shift_headings: bool,
}

/// The default options: `-` bullets with one space after bullets and after
/// numbers, the title as a heading, headings shifted.
pub open spec fn default_to_md_options() -> ToMdOptions {
    ToMdOptions {
        htmd_options: htmd_list_options(true, 1, 1),
        title_as_h1: true,
        shift_headings: true,
    }
}

impl ToMdOptions {
    /// Sets whether the title becomes a first-level heading.
    pub fn with_title_as_h1(self, title_as_h1: bool) -> (r: Self)
        ensures
            r == (ToMdOptions { title_as_h1, ..self }),
    {
        ToMdOptions { title_as_h1, ..self }
    }

    /// Sets whether headings move one level down under a title.
    pub fn with_shift_headings(self, shift_headings: bool) -> (r: Self)
        ensures
            r == (ToMdOptions { shift_headings, ..self }),
    {
        ToMdOptions { shift_headings, ..self }
    }

    /// The options of the htmd converter.
    pub fn into_htmd_options(self) -> (r: htmd::options::Options)
        ensures
            r == self.htmd_options,
    {
        self.htmd_options
    }

    /// Whether the title becomes a first-level heading.
    pub fn title_as_h1(&self) -> (r: bool)
        ensures
            r == self.title_as_h1,
    {
        self.title_as_h1
    }

    /// Whether headings move one level down under a title.
    pub fn shift_headings(&self) -> (r: bool)
        ensures
            r == self.shift_headings,
    {
        self.shift_headings
    }
}

impl Default for ToMdOptions {
    fn default() -> (r: Self)
        ensures
            r == default_to_md_options(),
    {
        ToMdOptions {
            htmd_options: htmd_options(true, 1, 1),
            title_as_h1: true,
            shift_headings: true,
        }
    }
}

impl From<htmd::options::Options> for ToMdOptions {
    /// The given htmd options, with the title as a heading and headings
    /// shifted.
    fn from(opts: htmd::options::Options) -> (r: Self) {
        ToMdOptions { htmd_options: opts, title_as_h1: true, shift_headings: true }
    }
}

impl vstd::std_specs::convert::FromSpecImpl<htmd::options::Options> for ToMdOptions {
    open spec fn obeys_from_spec() -> bool {
        true
    }

    open spec fn from_spec(v: htmd::options::Options) -> Self {
        ToMdOptions { htmd_options: v, title_as_h1: true, shift_headings: true }
    }
}

impl From<Option<ToMdOptions>> for ToMdOptions {
    /// The given options, or the default ones for `None`.
    fn from(o: Option<ToMdOptions>) -> (r: Self) {
        match o {
            Some(opts) => opts,
            None => ToMdOptions::default(),
        }
    }
}

impl vstd::std_specs::convert::FromSpecImpl<Option<ToMdOptions>> for ToMdOptions {
    open spec fn obeys_from_spec() -> bool {
        true
    }

    open spec fn from_spec(v: Option<ToMdOptions>) -> Self {
        match v {
            Some(opts) => opts,
            None => default_to_md_options(),
        }
    }
}

} // verus!
