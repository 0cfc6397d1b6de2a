use vstd::prelude::*;

use crate::error::Result;
use crate::escape::{decode_html_entities, decoded_text};
use crate::select::{opt_string, strings_view};
use crate::to_md_options::{default_to_md_options, ToMdOptions};
use crate::text::{
    ascii_lower, ascii_lower_char, chars_of, lemma_trim_idem, push_all, push_lit, string_of, trim, trim_chars,
};

verus! {

// ---- The title of a page

/// `c` may follow `<title` for the tag to open a title element.
pub open spec fn ends_title_name(c: char) -> bool {
    c == '>' || c == ' ' || c == '\t' || c == '\n' || c == '\r' || c == '/'
}

/// The five characters of `h` from `k` on spell `title`, in any ASCII case.
pub open spec fn title_word_at(h: Seq<char>, k: int) -> bool {
    &&& ascii_lower(h[k]) == 't'
    &&& ascii_lower(h[k + 1]) == 'i'
    &&& ascii_lower(h[k + 2]) == 't'
    &&& ascii_lower(h[k + 3]) == 'l'
    &&& ascii_lower(h[k + 4]) == 'e'
}

/// An opening `<title` tag starts at `i`: `<`, the word `title`, then `>`,
/// whitespace or `/`.
pub open spec fn opens_title_at(h: Seq<char>, i: int) -> bool {
    &&& 0 <= i
    &&& i + 6 < h.len()
    &&& h[i] == '<'
    &&& title_word_at(h, i + 1)
    &&& ends_title_name(h[i + 6])
}

/// A closing `</title` starts at `j`.
pub open spec fn closes_title_at(h: Seq<char>, j: int) -> bool {
    &&& 0 <= j
    &&& j + 7 <= h.len()
    &&& h[j] == '<'
    &&& h[j + 1] == '/'
    &&& title_word_at(h, j + 2)
}

/// The position of the first `>` of `h` at `k` or after it.
pub open spec fn next_gt(h: Seq<char>, k: int) -> Option<int>
    decreases h.len() - k,
{
    if k < 0 || k >= h.len() {
        None
    } else if h[k] == '>' {
        Some(k)
    } else {
        next_gt(h, k + 1)
    }
}

/// The position of the first `</title` of `h` at `j` or after it.
pub open spec fn next_title_close(h: Seq<char>, j: int) -> Option<int>
    decreases h.len() - j,
{
    if j < 0 || j + 7 > h.len() {
        None
    } else if closes_title_at(h, j) {
        Some(j)
    } else {
        next_title_close(h, j + 1)
    }
}

pub proof fn lemma_next_gt(h: Seq<char>, k: int)
    ensures
        next_gt(h, k) matches Some(g) ==> k <= g < h.len() && h[g] == '>',
    decreases h.len() - k,
{
    if 0 <= k < h.len() && h[k] != '>' {
        lemma_next_gt(h, k + 1);
    }
}

pub proof fn lemma_next_title_close(h: Seq<char>, j: int)
    ensures
        next_title_close(h, j) matches Some(c) ==> j <= c && closes_title_at(h, c),
    decreases h.len() - j,
{
    if 0 <= j && j + 7 <= h.len() && !closes_title_at(h, j) {
        lemma_next_title_close(h, j + 1);
    }
}

/// The title of the page `h`, looked for from position `i` on: the text
/// between the first opening `<title ...>` tag and the next `</title`,
/// trimmed, with its character references decoded (see `decoded_text`: a
/// title without `&` is kept as it is) and trimmed again. A
/// title that is blank before or after decoding is passed over and the
/// search goes on after its closing tag; an opening tag with no `>` after
/// it is passed over too; there is none once an opening tag has no
/// closing one.
pub open spec fn title_from(h: Seq<char>, i: int) -> Option<Seq<char>>
    decreases h.len() - i,
{
    if i < 0 || i >= h.len() {
        None
    } else if opens_title_at(h, i) && next_gt(h, i + 6) is Some {
        let start = next_gt(h, i + 6)->0 + 1;
        match next_title_close(h, start) {
            None => None,
            Some(j) => {
                let t = trim(h.subrange(start, j));
                let d = trim(decoded_text(t));
                if t.len() > 0 && d.len() > 0 {
                    Some(d)
                } else {
                    proof {
                        lemma_next_gt(h, i + 6);
                        lemma_next_title_close(h, start);
                    }
                    title_from(h, j + 7)
                }
            },
        }
    } else {
        title_from(h, i + 1)
    }
}

/// Tests `title_word_at(h, k)`.
fn title_word_exec(h: &[char], k: usize) -> (r: bool)
    requires
        k + 5 <= h@.len(),
    ensures
        r == title_word_at(h@, k as int),
{
    ascii_lower_char(h[k]) == 't' && ascii_lower_char(h[k + 1]) == 'i' && ascii_lower_char(h[k + 2])
        == 't' && ascii_lower_char(h[k + 3]) == 'l' && ascii_lower_char(h[k + 4]) == 'e'
}

/// Tests `opens_title_at(h, i)`.
fn opens_title_exec(h: &[char], i: usize) -> (r: bool)
    requires
        i < h@.len(),
    ensures
        r == opens_title_at(h@, i as int),
{
    if h.len() - i <= 6 || h[i] != '<' {
        return false;
    }
    if !title_word_exec(h, i + 1) {
        return false;
    }
    let c = h[i + 6];
    c == '>' || c == ' ' || c == '\t' || c == '\n' || c == '\r' || c == '/'
}

/// Finds `next_gt(h, k)`.
fn next_gt_exec(h: &[char], k: usize) -> (r: Option<usize>)
    ensures
        match r {
            Some(g) => next_gt(h@, k as int) == Some(g as int),
            None => next_gt(h@, k as int) is None,
        },
{
    let n: usize = h.len();
    let mut p: usize = k;
    while p < n
        invariant
            n == h@.len(),
            k <= p,
            next_gt(h@, k as int) == next_gt(h@, p as int),
        decreases n - p,
    {
        if h[p] == '>' {
            return Some(p);
        }
        p = p + 1;
    }
    None
}

/// Finds `next_title_close(h, j)`.
fn next_title_close_exec(h: &[char], j: usize) -> (r: Option<usize>)
    ensures
        match r {
            Some(c) => next_title_close(h@, j as int) == Some(c as int),
            None => next_title_close(h@, j as int) is None,
        },
{
    let n: usize = h.len();
    if n < 7 {
        return None;
    }
    let mut p: usize = j;
    while p <= n - 7
        invariant
            n == h@.len(),
            n >= 7,
            j <= p,
            next_title_close(h@, j as int) == next_title_close(h@, p as int),
        decreases n - p,
    {
        if h[p] == '<' && h[p + 1] == '/' && title_word_exec(h, p + 2) {
            return Some(p);
        }
        p = p + 1;
    }
    None
}

/// Extracts the title of an HTML page: the text of its first `<title>`
/// element that is not blank, trimmed, with character references decoded.
/// Tags are matched in any ASCII case. See `title_from`.
pub fn extract_title(html: &str) -> (r: Option<String>)
    ensures
        opt_string(r) == title_from(html@, 0),
{
    let h = chars_of(html);
    let n: usize = h.len();
    let mut i: usize = 0;
    while i < n
        invariant
            n == h@.len(),
            h@ == html@,
            i <= n,
            title_from(h@, 0) == title_from(h@, i as int),
        decreases n - i,
    {
        let mut next: usize = i + 1;
        if opens_title_exec(h.as_slice(), i) {
            if let Some(g) = next_gt_exec(h.as_slice(), i + 6) {
                proof {
                    lemma_next_gt(h@, i + 6);
                }
                let start: usize = g + 1;
                match next_title_close_exec(h.as_slice(), start) {
                    None => {
                        return None;
                    },
                    Some(j) => {
                        proof {
                            lemma_next_title_close(h@, start as int);
                        }
                        let content = vstd::slice::slice_subrange(h.as_slice(), start, j);
                        let t = trim_chars(content);
                        if t.len() > 0 {
                            let decoded = decode_html_entities(string_of(t.as_slice()).as_str());
                            let dcs = chars_of(decoded.as_str());
                            let d = trim_chars(dcs.as_slice());
                            if d.len() > 0 {
                                return Some(string_of(d.as_slice()));
                            }
                        }
                        next = j + 7;
                    },
                }
            }
        }
        i = next;
    }
    None
}

// ---- Heading shifting

/// The level of a heading element named `tag` (`h1` to `h6`), or 0.
pub open spec fn heading_level(tag: Seq<char>) -> int {
    if tag.len() == 2 && tag[0] == 'h' && '1' <= tag[1] && tag[1] <= '6' {
        (tag[1] as int) - ('0' as int)
    } else {
        0
    }
}

/// The Markdown of a heading of level `level` moved one level down: its
/// content trimmed, after `level + 1` hashes and a space, set apart by
/// blank lines; nothing when the content is blank.
pub open spec fn shifted_heading_text(level: int, content: Seq<char>) -> Seq<char> {
    let t = trim(content);
    if t.len() == 0 {
        seq![]
    } else {
        "\n\n"@ + Seq::new((level + 1) as nat, |_k: int| '#') + seq![' '] + t + "\n\n"@
    }
}

/// The Markdown of a heading element named `tag` whose children converted
/// to `content`, one level deeper than the element says.
pub fn shifted_heading(tag: &str, content: &str) -> (r: String)
    ensures
        r@ == shifted_heading_text(heading_level(tag@), content@),
{
    let tc = chars_of(tag);
    let mut level: usize = 0;
    if tc.len() == 2 && tc[0] == 'h' && '1' <= tc[1] && tc[1] <= '6' {
        let d: u32 = (tc[1] as u32) - ('0' as u32);
        level = d as usize;
    }
    let cs = chars_of(content);
    let t = trim_chars(cs.as_slice());
    let mut out: Vec<char> = Vec::new();
    if t.len() == 0 {
        return string_of(out.as_slice());
    }
    push_lit(&mut out, "\n\n");
    let ghost head = out@;
    let mut k: usize = 0;
    while k < level + 1
        invariant
            level <= 6,
            k <= level + 1,
            out@ == head + Seq::new(k as nat, |_k: int| '#'),
        decreases level + 1 - k,
    {
        out.push('#');
        k = k + 1;
        assert(out@ =~= head + Seq::new(k as nat, |_k: int| '#'));
    }
    out.push(' ');
    push_all(&mut out, t.as_slice());
    push_lit(&mut out, "\n\n");
    string_of(out.as_slice())
}

/// The Markdown of an element that is dropped with its content: nothing.
pub fn removed_markdown() -> (r: String)
    ensures
        r@ == Seq::<char>::empty(),
{
    String::new()
}

// ---- Putting the title first

/// `s` without the carriage returns and line feeds it starts with.
pub open spec fn skip_newlines(s: Seq<char>) -> Seq<char>
    decreases s.len(),
{
    if s.len() > 0 && (s[0] == '\r' || s[0] == '\n') {
        skip_newlines(s.drop_first())
    } else {
        s
    }
}

/// `md` with the title, when there is one, as a first-level heading in
/// front of it: `# title` alone on its line, then a blank line and `md`
/// without its leading line breaks (only the heading when nothing is left).
pub open spec fn titled(title: Option<Seq<char>>, md: Seq<char>) -> Seq<char> {
    match title {
        None => md,
        Some(t) => {
            let rest = skip_newlines(md);
            if rest.len() == 0 {
                "# "@ + t + "\n"@
            } else {
                "# "@ + t + "\n\n"@ + rest
            }
        },
    }
}

/// Puts the title, when there is one, in front of the converted Markdown;
/// see `titled`.
pub fn titled_markdown(title: Option<String>, md: String) -> (r: String)
    ensures
        r@ == titled(opt_string(title), md@),
{
    match title {
        None => md,
        Some(t) => {
            let cs = chars_of(md.as_str());
            let n: usize = cs.len();
            let mut i: usize = 0;
            assert(cs@.skip(0) =~= cs@);
            while i < n && (cs[i] == '\r' || cs[i] == '\n')
                invariant
                    n == cs@.len(),
                    cs@ == md@,
                    i <= n,
                    skip_newlines(md@) == skip_newlines(cs@.skip(i as int)),
                decreases n - i,
            {
                assert(cs@.skip(i as int).drop_first() =~= cs@.skip(i + 1));
                i = i + 1;
            }
            let rest = vstd::slice::slice_subrange(cs.as_slice(), i, n);
            assert(rest@ =~= cs@.skip(i as int));
            let mut out: Vec<char> = Vec::new();
            push_lit(&mut out, "# ");
            let tc = chars_of(t.as_str());
            push_all(&mut out, tc.as_slice());
            if rest.len() == 0 {
                push_lit(&mut out, "\n");
            } else {
                push_lit(&mut out, "\n\n");
                push_all(&mut out, rest);
            }
            string_of(out.as_slice())
        },
    }
}

// ---- The conversion

#[verifier::external_type_specification]
#[verifier::external_body]
pub struct ExHtmlToMarkdownBuilder(htmd::HtmlToMarkdownBuilder);

#[verifier::external_type_specification]
#[verifier::external_body]
pub struct ExIoError(std::io::Error);

/// The htmd converter builder set up with `options`.
pub uninterp spec fn htmd_builder(options: htmd::options::Options) -> htmd::HtmlToMarkdownBuilder;

/// The builder `b` with the elements named in `tags` dropped, content and all.
pub uninterp spec fn htmd_dropping(
    b: htmd::HtmlToMarkdownBuilder,
    tags: Seq<Seq<char>>,
) -> htmd::HtmlToMarkdownBuilder;

/// The builder `b` with the headings named in `tags` written by
/// `shifted_heading`.
pub uninterp spec fn htmd_shifting(
    b: htmd::HtmlToMarkdownBuilder,
    tags: Seq<Seq<char>>,
) -> htmd::HtmlToMarkdownBuilder;

/// The Markdown that the converter built from `b` makes of `html`.
pub uninterp spec fn htmd_converted(b: htmd::HtmlToMarkdownBuilder, html: Seq<char>) -> Seq<char>;

/// `htmd::HtmlToMarkdown::builder().options(options)`: a builder with
/// htmd's element handlers and the given options.
#[verifier::external_body]
fn md_builder(options: htmd::options::Options) -> (r: htmd::HtmlToMarkdownBuilder)
    ensures
        r == htmd_builder(options),
{
    htmd::HtmlToMarkdown::builder().options(options)
}

/// `HtmlToMarkdownBuilder::add_handler`: registers, for the elements named
/// in `tags`, a handler that writes `removed_markdown()` in their place.
/// htmd asserts that the list of tags is not empty.
#[verifier::external_body]
fn drop_elements(b: htmd::HtmlToMarkdownBuilder, tags: &Vec<String>) -> (r:
    htmd::HtmlToMarkdownBuilder)
    requires
        tags@.len() > 0,
    ensures
        r == htmd_dropping(b, strings_view(tags@)),
{
    let names: Vec<&str> = tags.iter().map(|t| t.as_str()).collect();
    b.add_handler(
        names,
        |_: &dyn htmd::element_handler::Handlers, _: htmd::Element| Some(removed_markdown().into()),
    )
}

/// `HtmlToMarkdownBuilder::add_handler`: registers, for the headings named
/// in `tags`, a handler that converts the element's children
/// (`Handlers::walk_children`) and writes `shifted_heading` of the element's
/// name and that content. htmd asserts that the list of tags is not empty.
#[verifier::external_body]
fn shift_elements(b: htmd::HtmlToMarkdownBuilder, tags: &Vec<String>) -> (r:
    htmd::HtmlToMarkdownBuilder)
    requires
        tags@.len() > 0,
    ensures
        r == htmd_shifting(b, strings_view(tags@)),
{
    let names: Vec<&str> = tags.iter().map(|t| t.as_str()).collect();
    b.add_handler(
        names,
        |h: &dyn htmd::element_handler::Handlers, el: htmd::Element|
            Some(shifted_heading(el.tag, &h.walk_children(el.node).content).into()),
    )
}

/// `HtmlToMarkdownBuilder::build` then `HtmlToMarkdown::convert`: parses
/// `html` with html5ever and walks the tree with the registered handlers.
/// The Markdown depends on the builder and the HTML alone and is named. In
/// the crate's source `convert` never returns an error (building the tree
/// always succeeds), which is stated.
#[verifier::external_body]
fn convert_html(b: htmd::HtmlToMarkdownBuilder, html: &str) -> (r: core::result::Result<
    String,
    std::io::Error,
>)
    ensures
        match r {
            Ok(md) => md@ == htmd_converted(b, html@),
            Err(_) => false,
        },
{
    b.build().convert(html)
}

/// The elements whose content never reaches the Markdown.
pub open spec fn removed_tag_names() -> Seq<Seq<char>> {
    seq!["script"@, "title"@]
}

/// The heading elements.
pub open spec fn heading_tag_names() -> Seq<Seq<char>> {
    seq!["h1"@, "h2"@, "h3"@, "h4"@, "h5"@, "h6"@]
}

fn removed_tags() -> (r: Vec<String>)
    ensures
        strings_view(r@) == removed_tag_names(),
        r@.len() > 0,
{
    let mut v: Vec<String> = Vec::new();
    v.push("script".to_owned());
    v.push("title".to_owned());
    assert(strings_view(v@) =~= removed_tag_names());
    v
}

fn heading_tags() -> (r: Vec<String>)
    ensures
        strings_view(r@) == heading_tag_names(),
        r@.len() > 0,
{
    let mut v: Vec<String> = Vec::new();
    v.push("h1".to_owned());
    v.push("h2".to_owned());
    v.push("h3".to_owned());
    v.push("h4".to_owned());
    v.push("h5".to_owned());
    v.push("h6".to_owned());
    assert(strings_view(v@) =~= heading_tag_names());
    v
}

/// The title `to_md` puts in front of the Markdown, if any.
pub open spec fn to_md_title(html: Seq<char>, o: ToMdOptions) -> Option<Seq<char>> {
    if o.title_as_h1 {
        title_from(html, 0)
    } else {
        None
    }
}

/// What `to_md` makes of `html` with the options `o`: htmd's Markdown, with
/// `script` and `title` elements dropped, and, when a title is put in front
/// and headings are to be shifted, every heading one level deeper; then the
/// title in front (see `titled`).
pub open spec fn to_md_result(html: Seq<char>, o: ToMdOptions) -> Seq<char> {
    let title = to_md_title(html, o);
    let b = htmd_dropping(htmd_builder(o.htmd_options), removed_tag_names());
    let md = if o.shift_headings && title is Some {
        htmd_converted(htmd_shifting(b, heading_tag_names()), html)
    } else {
        htmd_converted(b, html)
    };
    titled(title, md)
}

/// Converts HTML to Markdown with the given options; see `to_md`.
pub fn to_md_with(html_content: &str, options: ToMdOptions) -> (r: Result<String>)
    ensures
        r matches Ok(s) && s@ == to_md_result(html_content@, options),
        r matches Ok(s) && s@ == titled(
            to_md_title(html_content@, options),
            htmd_converted(
                if options.shift_headings && to_md_title(html_content@, options) is Some {
                    htmd_shifting(
                        htmd_dropping(htmd_builder(options.htmd_options), seq!["script"@, "title"@]),
                        seq!["h1"@, "h2"@, "h3"@, "h4"@, "h5"@, "h6"@],
                    )
                } else {
                    htmd_dropping(htmd_builder(options.htmd_options), seq!["script"@, "title"@])
                },
                html_content@,
            ),
        ),
{
    let ToMdOptions { htmd_options, title_as_h1, shift_headings } = options;
    let title = if title_as_h1 {
        extract_title(html_content)
    } else {
        None
    };
    let should_shift = shift_headings && title.is_some();
    let removed = removed_tags();
    let builder = drop_elements(md_builder(htmd_options), &removed);
    let builder = if should_shift {
        let headings = heading_tags();
        shift_elements(builder, &headings)
    } else {
        builder
    };
    let md = convert_html(builder, html_content).unwrap();
    Ok(titled_markdown(title, md))
}

/// Converts an HTML string to Markdown with htmd (`-` bullets by default).
///
/// `script` elements are dropped with their content, and so is `title`: the
/// page's title, when `title_as_h1` is set and the page has a non-blank one,
/// comes first as `# title` instead, followed by a blank line; the headings of
/// the page then move one level down when `shift_headings` is set. It does not
/// fail.
///
/// The contract fixes the result exactly for `None`, `Some(options)` and
/// htmd options.
/// Options passed directly go through core's identity `From`, of which
/// nothing is specified, so for them it says only that the result is the
/// one for some options; `to_md_with` has an exact contract for a given value.
pub fn to_md<O: Into<ToMdOptions>>(html_content: &str, options: O) -> (r: Result<String>)
    ensures
        r is Ok,
        exists|o: ToMdOptions| r matches Ok(s) && s@ == #[trigger] to_md_result(html_content@, o),
        <O as vstd::std_specs::convert::IntoSpec<ToMdOptions>>::obeys_into_spec() ==> (r matches Ok(
            s,
        ) && s@ == to_md_result(
            html_content@,
            <O as vstd::std_specs::convert::IntoSpec<ToMdOptions>>::into_spec(options),
        )),
{
    let opts: ToMdOptions = options.into();
    let ghost o = opts;
    let r = to_md_with(html_content, opts);
    assert(r matches Ok(s) && s@ == to_md_result(html_content@, o));
    r
}

// ---- Laws

/// A title that is found is never blank and has no whitespace at either end.
pub proof fn lemma_title_trimmed(h: Seq<char>, i: int)
    ensures
        title_from(h, i) matches Some(t) ==> t.len() > 0 && trim(t) == t,
    decreases h.len() - i,
{
    if 0 <= i < h.len() {
        if opens_title_at(h, i) && next_gt(h, i + 6) is Some {
            let start = next_gt(h, i + 6)->0 + 1;
            if let Some(j) = next_title_close(h, start) {
                let t = trim(h.subrange(start, j));
                let d = trim(decoded_text(t));
                if t.len() > 0 && d.len() > 0 {
                    lemma_trim_idem(decoded_text(t));
                } else {
                    lemma_next_gt(h, i + 6);
                    lemma_next_title_close(h, start);
                    lemma_title_trimmed(h, j + 7);
                }
            }
        } else {
            lemma_title_trimmed(h, i + 1);
        }
    }
}

/// A non-blank title that holds no `&` is found as it is, trimmed.
pub proof fn lemma_title_without_references(h: Seq<char>, i: int)
    requires
        0 <= i,
        opens_title_at(h, i),
        next_gt(h, i + 6) is Some,
        next_title_close(h, next_gt(h, i + 6)->0 + 1) is Some,
        trim(
            h.subrange(
                next_gt(h, i + 6)->0 + 1,
                next_title_close(h, next_gt(h, i + 6)->0 + 1)->0,
            ),
        ).len() > 0,
        !trim(
            h.subrange(
                next_gt(h, i + 6)->0 + 1,
                next_title_close(h, next_gt(h, i + 6)->0 + 1)->0,
            ),
        ).contains('&'),
    ensures
        title_from(h, i) == Some(
            trim(
                h.subrange(
                    next_gt(h, i + 6)->0 + 1,
                    next_title_close(h, next_gt(h, i + 6)->0 + 1)->0,
                ),
            ),
        ),
{
    let start = next_gt(h, i + 6)->0 + 1;
    let j = next_title_close(h, start)->0;
    lemma_trim_idem(h.subrange(start, j));
}

/// When the title is to be a heading and the page has one, the Markdown
/// starts with `# `, the title and a line break.
pub proof fn lemma_to_md_title_first(html: Seq<char>, o: ToMdOptions)
    requires
        o.title_as_h1,
        title_from(html, 0) is Some,
    ensures
        ("# "@ + title_from(html, 0)->0 + "\n"@).is_prefix_of(to_md_result(html, o)),
{
    let t = title_from(html, 0)->0;
    let head = "# "@ + t + "\n"@;
    let r = to_md_result(html, o);
    let b = htmd_dropping(htmd_builder(o.htmd_options), removed_tag_names());
    let md = if o.shift_headings {
        htmd_converted(htmd_shifting(b, heading_tag_names()), html)
    } else {
        htmd_converted(b, html)
    };
    assert(r == titled(Some(t), md));
    reveal_strlit("\n");
    reveal_strlit("\n\n");
    if skip_newlines(md).len() == 0 {
        assert(r =~= head);
    } else {
        assert(r =~= head + seq!['\n'] + skip_newlines(md));
    }
    assert(r.subrange(0, head.len() as int) =~= head);
}

/// Without the title as a heading, the Markdown is htmd's, with `script`
/// and `title` elements dropped and headings left as they are.
pub proof fn lemma_to_md_without_title(html: Seq<char>, o: ToMdOptions)
    requires
        !o.title_as_h1,
    ensures
        to_md_result(html, o) == htmd_converted(
            htmd_dropping(htmd_builder(o.htmd_options), removed_tag_names()),
            html,
        ),
{
}

/// Passing `None` converts as the default options do, `Some(o)` as `o` does,
/// and htmd options as those options with the title and heading shift on.
pub proof fn lemma_to_md_option_forms(html: Seq<char>, o: ToMdOptions, h: htmd::options::Options)
    ensures
        <Option<ToMdOptions> as vstd::std_specs::convert::IntoSpec<ToMdOptions>>::obeys_into_spec(),
        to_md_result(
            html,
            <Option<ToMdOptions> as vstd::std_specs::convert::IntoSpec<ToMdOptions>>::into_spec(None),
        ) == to_md_result(html, default_to_md_options()),
        to_md_result(
            html,
            <Option<ToMdOptions> as vstd::std_specs::convert::IntoSpec<ToMdOptions>>::into_spec(Some(o)),
        ) == to_md_result(html, o),
        <htmd::options::Options as vstd::std_specs::convert::IntoSpec<ToMdOptions>>::obeys_into_spec(),
        <htmd::options::Options as vstd::std_specs::convert::IntoSpec<ToMdOptions>>::into_spec(h)
            == (ToMdOptions { htmd_options: h, title_as_h1: true, shift_headings: true }),
{
}

/// Script and title elements never reach the Markdown, whether or not a
/// title was found and put in front: the Markdown is always converted by a
/// builder that drops `script` and `title`, and that shifts the headings
/// exactly when a title is put in front and shifting is asked for.
pub proof fn lemma_to_md_drops_script_and_title(html: Seq<char>, o: ToMdOptions)
    ensures
        to_md_result(html, o) == titled(
            to_md_title(html, o),
            htmd_converted(
                if o.shift_headings && to_md_title(html, o) is Some {
                    htmd_shifting(
                        htmd_dropping(htmd_builder(o.htmd_options), seq!["script"@, "title"@]),
                        seq!["h1"@, "h2"@, "h3"@, "h4"@, "h5"@, "h6"@],
                    )
                } else {
                    htmd_dropping(htmd_builder(o.htmd_options), seq!["script"@, "title"@])
                },
                html,
            ),
        ),
        to_md_title(html, o) == (if o.title_as_h1 {
            title_from(html, 0)
        } else {
            None
        }),
{
}

} // verus!
