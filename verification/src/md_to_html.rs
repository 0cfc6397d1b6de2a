use vstd::prelude::*;

use crate::error::Result;
use crate::escape::{
    encode_double_quoted_attribute, encode_text, escape_attr, escape_text, lemma_escaped_text_has_no_tag,
};
use crate::md_to_html_options::{default_md_to_html_options, MdToHtmlOptions};
use crate::select::opt_string;
use crate::text::{
    char_is_whitespace, eq_lit, is_ws, push_all, push_lit, string_of, trim_start, trim_start_index,
};
use pulldown_cmark::{CodeBlockKind, Event, Tag, TagEnd};

verus! {

#[verifier::external_type_specification]
#[verifier::external_body]
pub struct ExMarkdownEvent<'a>(pulldown_cmark::Event<'a>);

#[verifier::external_type_specification]
#[verifier::external_body]
pub struct ExParserOptions(pulldown_cmark::Options);

/// What the code block rewriting reads of a Markdown event.
pub enum MdKind {
    /// The start of a code block: fenced or indented, and its info string
    /// (empty for an indented block).
    CodeStart { fenced: bool, info: Vec<char> },
    /// The end of a code block.
    CodeEnd,
    /// A piece of text.
    Text { text: Vec<char> },
    /// Any other event.
    Other,
}

/// A Markdown event as the parser produced it, with what the rewriting
/// reads of it.
pub struct MdEvent {
    pub kind: MdKind,
    pub raw: Event<'static>,
}

/// The parser options with the given extensions on: tables, footnotes,
/// strikethrough, task lists and smart punctuation.
pub uninterp spec fn markdown_options(
    tables: bool,
    footnotes: bool,
    strikethrough: bool,
    tasklists: bool,
    smart_punctuation: bool,
) -> pulldown_cmark::Options;

/// `pulldown_cmark::Options::empty()` with each extension flag set as asked
/// (`Options::set`). The result depends on the arguments alone.
#[verifier::external_body]
fn parser_options(
    tables: bool,
    footnotes: bool,
    strikethrough: bool,
    tasklists: bool,
    smart_punctuation: bool,
) -> (r: pulldown_cmark::Options)
    ensures
        r == markdown_options(tables, footnotes, strikethrough, tasklists, smart_punctuation),
{
    let mut o = pulldown_cmark::Options::empty();
    o.set(pulldown_cmark::Options::ENABLE_TABLES, tables);
    o.set(pulldown_cmark::Options::ENABLE_FOOTNOTES, footnotes);
    o.set(pulldown_cmark::Options::ENABLE_STRIKETHROUGH, strikethrough);
    o.set(pulldown_cmark::Options::ENABLE_TASKLISTS, tasklists);
    o.set(pulldown_cmark::Options::ENABLE_SMART_PUNCTUATION, smart_punctuation);
    o
}

/// The events that pulldown-cmark's parser yields for `md` with `options`.
pub uninterp spec fn parsed_markdown(md: Seq<char>, options: pulldown_cmark::Options) -> Seq<MdEvent>;

/// `pulldown_cmark::Parser::new_ext`: the CommonMark events of `md`, in
/// order, each with what `md_event_of` reads of it. What they are takes the
/// CommonMark specification to state; the result depends on `md` and the
/// options alone and is named.
#[verifier::external_body]
fn md_events(md: &str, options: pulldown_cmark::Options) -> (r: Vec<MdEvent>)
    ensures
        r@ == parsed_markdown(md@, options),
{
    pulldown_cmark::Parser::new_ext(md, options).map(md_event_of).collect()
}

/// Copies a parser event into an `MdEvent`: the start and end of code
/// blocks (with a fenced block's info string) and text are told apart, every
/// other event is `Other`; the event itself is kept. Nothing is stated of
/// it: it only changes the representation.
#[verifier::external_body]
fn md_event_of(e: Event<'_>) -> MdEvent {
    let kind = match &e {
        Event::Start(Tag::CodeBlock(CodeBlockKind::Fenced(info))) => MdKind::CodeStart {
            fenced: true,
            info: info.chars().collect(),
        },
        Event::Start(Tag::CodeBlock(CodeBlockKind::Indented)) => MdKind::CodeStart {
            fenced: false,
            info: Vec::new(),
        },
        Event::End(TagEnd::CodeBlock) => MdKind::CodeEnd,
        Event::Text(t) => MdKind::Text { text: t.chars().collect() },
        _ => MdKind::Other,
    };
    MdEvent { kind, raw: e.into_static() }
}

/// The parser events of a list of `MdEvent`s.
pub open spec fn raw_events(evs: Seq<MdEvent>) -> Seq<Event<'static>> {
    evs.map_values(|e: MdEvent| e.raw)
}

/// The characters each optional string stands for.
pub open spec fn opt_strings(v: Seq<Option<String>>) -> Seq<Option<Seq<char>>> {
    v.map_values(|o: Option<String>| opt_string(o))
}

/// The HTML that pulldown-cmark writes for the events `raws`, where the
/// event at each position with a replacement is replaced by that text as
/// raw HTML.
pub uninterp spec fn rendered_html(
    raws: Seq<Event<'static>>,
    replacements: Seq<Option<Seq<char>>>,
) -> Seq<char>;

/// `pulldown_cmark::html::push_html` into an empty string, on the events
/// of `events` where each one with a replacement gives way to
/// `Event::Html` of the replacement. Named: the HTML writer takes pages to
/// state, and its output depends on the events alone.
#[verifier::external_body]
fn render_html(events: Vec<MdEvent>, replacements: Vec<Option<String>>) -> (r: String)
    requires
        events@.len() == replacements@.len(),
    ensures
        r@ == rendered_html(raw_events(events@), opt_strings(replacements@)),
{
    let stream = events.into_iter().zip(replacements).map(|(e, rep)| match rep {
        Some(html) => Event::Html(html.into()),
        None => e.raw,
    });
    let mut out = String::new();
    pulldown_cmark::html::push_html(&mut out, stream);
    out
}

// ---- Code blocks

/// The characters of `t` up to its first whitespace.
pub open spec fn word_prefix(t: Seq<char>) -> Seq<char>
    decreases t.len(),
{
    if t.len() == 0 || is_ws(t[0]) {
        seq![]
    } else {
        seq![t[0]] + word_prefix(t.drop_first())
    }
}

/// The first whitespace-separated word of `s` (`split_whitespace().next()`),
/// empty when there is none.
pub open spec fn first_word(s: Seq<char>) -> Seq<char> {
    word_prefix(trim_start(s))
}

/// A code block is written as a Mermaid diagram: it is fenced, its info
/// string starts with the word `mermaid`, and the options ask for it.
pub open spec fn is_mermaid_block(fenced: bool, info: Seq<char>, o: MdToHtmlOptions) -> bool {
    fenced && first_word(info) == "mermaid"@ && o.code_block_mermaid_as_pre
}

/// The HTML that opens a code block: `<pre class="mermaid">` for a Mermaid
/// diagram, else `<pre>` and `<code>`, with the class `language-` and the
/// info string's first word (escaped) when a fenced block has one; each tag
/// ends its line.
pub open spec fn code_opening(fenced: bool, info: Seq<char>, mermaid: bool) -> Seq<char> {
    if mermaid {
        "<pre class=\"mermaid\">\n"@
    } else if fenced && first_word(info).len() > 0 {
        "<pre>\n<code class=\"language-"@ + escape_attr(first_word(info)) + "\">\n"@
    } else {
        "<pre>\n<code>\n"@
    }
}

/// The HTML that closes a code block.
pub open spec fn code_closing(mermaid: bool) -> Seq<char> {
    if mermaid {
        "</pre>\n"@
    } else {
        "</code>\n</pre>\n"@
    }
}

/// The text of a code block as written: escaped when the options ask for it.
pub open spec fn code_content(text: Seq<char>, o: MdToHtmlOptions) -> Seq<char> {
    if o.code_block_html_escape_content {
        escape_text(text)
    } else {
        text
    }
}

/// Where the rewriting stands after an event: `None` outside a code block,
/// `Some(mermaid)` inside one.
pub open spec fn state_after(s: Option<bool>, k: MdKind, o: MdToHtmlOptions) -> Option<bool> {
    match k {
        MdKind::CodeStart { fenced, info } => Some(is_mermaid_block(fenced, info@, o)),
        MdKind::CodeEnd => None,
        _ => s,
    }
}

/// What replaces an event, if anything, given where the rewriting stands:
/// the opening and closing HTML of code blocks, and the text inside them.
pub open spec fn replacement(s: Option<bool>, k: MdKind, o: MdToHtmlOptions) -> Option<Seq<char>> {
    match k {
        MdKind::CodeStart { fenced, info } => Some(
            code_opening(fenced, info@, is_mermaid_block(fenced, info@, o)),
        ),
        MdKind::Text { text } => if s is Some {
            Some(code_content(text@, o))
        } else {
            None
        },
        MdKind::CodeEnd => match s {
            Some(m) => Some(code_closing(m)),
            None => None,
        },
        MdKind::Other => None,
    }
}

/// Where the rewriting stands before the event at `i`.
pub open spec fn code_state(evs: Seq<MdEvent>, o: MdToHtmlOptions, i: int) -> Option<bool>
    decreases i,
{
    if i <= 0 {
        None
    } else {
        state_after(code_state(evs, o, i - 1), evs[i - 1].kind, o)
    }
}

/// The replacement of each event of `evs`.
pub open spec fn replacements(evs: Seq<MdEvent>, o: MdToHtmlOptions) -> Seq<Option<Seq<char>>> {
    Seq::new(evs.len(), |i: int| replacement(code_state(evs, o, i), evs[i].kind, o))
}

/// Computes `first_word(s)`.
fn first_word_exec(s: &[char]) -> (r: Vec<char>)
    ensures
        r@ == first_word(s@),
{
    let a: usize = trim_start_index(s);
    let n: usize = s.len();
    let mut e: usize = a;
    assert(s@.subrange(a as int, a as int) =~= Seq::<char>::empty());
    while e < n && !char_is_whitespace(s[e])
        invariant
            n == s@.len(),
            a <= e <= n,
            trim_start(s@) == s@.skip(a as int),
            first_word(s@) == s@.subrange(a as int, e as int) + word_prefix(s@.skip(e as int)),
        decreases n - e,
    {
        assert(s@.skip(e as int)[0] == s@[e as int]);
        assert(s@.skip(e as int).drop_first() =~= s@.skip(e + 1));
        assert(s@.subrange(a as int, e + 1) =~= s@.subrange(a as int, e as int) + seq![s@[e as int]]);
        e = e + 1;
    }
    if e < n {
        assert(s@.skip(e as int)[0] == s@[e as int]);
    } else {
        assert(s@.skip(e as int) =~= Seq::<char>::empty());
    }
    assert(first_word(s@) =~= s@.subrange(a as int, e as int));
    let w = vstd::slice::slice_subrange(s, a, e);
    vstd::slice::slice_to_vec(w)
}

/// Computes `code_opening(fenced, info, mermaid)`.
fn code_opening_exec(fenced: bool, info: &[char], mermaid: bool) -> (r: String)
    ensures
        r@ == code_opening(fenced, info@, mermaid),
{
    let mut out: Vec<char> = Vec::new();
    if mermaid {
        push_lit(&mut out, "<pre class=\"mermaid\">\n");
    } else {
        let w = first_word_exec(info);
        if fenced && w.len() > 0 {
            push_lit(&mut out, "<pre>\n<code class=\"language-");
            let esc = encode_double_quoted_attribute(w.as_slice());
            push_all(&mut out, esc.as_slice());
            push_lit(&mut out, "\">\n");
        } else {
            push_lit(&mut out, "<pre>\n<code>\n");
        }
    }
    string_of(out.as_slice())
}

/// Computes `code_closing(mermaid)`.
fn code_closing_exec(mermaid: bool) -> (r: String)
    ensures
        r@ == code_closing(mermaid),
{
    let mut out: Vec<char> = Vec::new();
    if mermaid {
        push_lit(&mut out, "</pre>\n");
    } else {
        push_lit(&mut out, "</code>\n</pre>\n");
    }
    string_of(out.as_slice())
}

/// Computes `code_content(text, o)`.
fn code_content_exec(text: &[char], o: &MdToHtmlOptions) -> (r: String)
    ensures
        r@ == code_content(text@, *o),
{
    if o.code_block_html_escape_content {
        let esc = encode_text(text);
        string_of(esc.as_slice())
    } else {
        string_of(text)
    }
}

/// What replaces each parser event: code blocks are written by hand, as
/// `replacements` says, and every other event stays as it is (`None`).
pub fn code_block_replacements(events: &Vec<MdEvent>, options: &MdToHtmlOptions) -> (r: Vec<
    Option<String>,
>)
    ensures
        r@.len() == events@.len(),
        opt_strings(r@) == replacements(events@, *options),
{
    let ghost o = *options;
    let n: usize = events.len();
    let mut out: Vec<Option<String>> = Vec::new();
    let mut state: Option<bool> = None;
    let mut i: usize = 0;
    while i < n
        invariant
            n == events@.len(),
            o == *options,
            i <= n,
            out@.len() == i,
            state == code_state(events@, o, i as int),
            forall|j: int|
                0 <= j < i ==> opt_string(#[trigger] out@[j]) == replacement(
                    code_state(events@, o, j),
                    events@[j].kind,
                    o,
                ),
        decreases n - i,
    {
        let rep: Option<String>;
        match &events[i].kind {
            MdKind::CodeStart { fenced, info } => {
                let w = first_word_exec(info.as_slice());
                let mermaid = *fenced && eq_lit(w.as_slice(), "mermaid")
                    && options.code_block_mermaid_as_pre;
                rep = Some(code_opening_exec(*fenced, info.as_slice(), mermaid));
                state = Some(mermaid);
            },
            MdKind::Text { text } => {
                rep = match state {
                    Some(_) => Some(code_content_exec(text.as_slice(), options)),
                    None => None,
                };
            },
            MdKind::CodeEnd => {
                rep = match state {
                    Some(m) => Some(code_closing_exec(m)),
                    None => None,
                };
                state = None;
            },
            MdKind::Other => {
                rep = None;
            },
        }
        out.push(rep);
        i = i + 1;
    }
    assert(opt_strings(out@) =~= replacements(events@, o));
    out
}

/// What `md_to_html` makes of `md` with the options `o`: the HTML of the
/// events that pulldown-cmark parses with tables, footnotes, strikethrough,
/// task lists and smart punctuation on, code blocks written as
/// `replacements` says.
pub open spec fn md_to_html_result(md: Seq<char>, o: MdToHtmlOptions) -> Seq<char> {
    let evs = parsed_markdown(md, markdown_options(true, true, true, true, true));
    rendered_html(raw_events(evs), replacements(evs, o))
}

/// Converts Markdown to HTML with the given options; see `md_to_html`.
pub fn md_to_html_with(md: &str, options: &MdToHtmlOptions) -> (r: Result<String>)
    ensures
        r matches Ok(s) && s@ == md_to_html_result(md@, *options),
        r matches Ok(s) && s@ == rendered_html(
            raw_events(parsed_markdown(md@, markdown_options(true, true, true, true, true))),
            replacements(
                parsed_markdown(md@, markdown_options(true, true, true, true, true)),
                *options,
            ),
        ),
{
    let parser = parser_options(true, true, true, true, true);
    let events = md_events(md, parser);
    let reps = code_block_replacements(&events, options);
    Ok(render_html(events, reps))
}

/// Converts Markdown into HTML with pulldown-cmark, with tables, footnotes,
/// strikethrough, task lists and smart punctuation enabled.
///
/// Code blocks are written as `<pre>` then `<code>`, with a `language-`
/// class when the fence names a language, and their content escaped unless
/// the options say otherwise; Mermaid blocks become `<pre class="mermaid">`
/// unless the options say otherwise. It returns `Ok` for every input.
///
/// The contract fixes the result exactly for `None` and `Some(options)`.
/// Options passed directly go through core's identity `From`, of which
/// nothing is specified, so for them it says only that the result is the
/// one for some options; `md_to_html_with` has an exact contract for a given value.
pub fn md_to_html<O: Into<MdToHtmlOptions>>(md: &str, options: O) -> (r: Result<String>)
    ensures
        r is Ok,
        exists|o: MdToHtmlOptions| r matches Ok(s) && s@ == #[trigger] md_to_html_result(md@, o),
        <O as vstd::std_specs::convert::IntoSpec<MdToHtmlOptions>>::obeys_into_spec() ==> (r matches Ok(
            s,
        ) && s@ == md_to_html_result(
            md@,
            <O as vstd::std_specs::convert::IntoSpec<MdToHtmlOptions>>::into_spec(options),
        )),
{
    let opts: MdToHtmlOptions = options.into();
    let r = md_to_html_with(md, &opts);
    assert(r matches Ok(s) && s@ == md_to_html_result(md@, opts));
    r
}

/// Passing `None` converts as the default options do, and `Some(o)` as `o`
/// does.
pub proof fn lemma_md_to_html_option_forms(md: Seq<char>, o: MdToHtmlOptions)
    ensures
        <Option<MdToHtmlOptions> as vstd::std_specs::convert::IntoSpec<MdToHtmlOptions>>::obeys_into_spec(),
        md_to_html_result(
            md,
            <Option<MdToHtmlOptions> as vstd::std_specs::convert::IntoSpec<MdToHtmlOptions>>::into_spec(None),
        ) == md_to_html_result(md, default_md_to_html_options()),
        md_to_html_result(
            md,
            <Option<MdToHtmlOptions> as vstd::std_specs::convert::IntoSpec<MdToHtmlOptions>>::into_spec(
                Some(o),
            ),
        ) == md_to_html_result(md, o),
{
}

/// With escaping on (the default), the text of a code block is written
/// without `<` or `>`, so it never turns into markup.
pub proof fn lemma_escaped_code_has_no_tag(text: Seq<char>, o: MdToHtmlOptions)
    requires
        o.code_block_html_escape_content,
    ensures
        !code_content(text, o).contains('<'),
        !code_content(text, o).contains('>'),
{
    lemma_escaped_text_has_no_tag(text);
}

/// Markdown is read with all five extensions on (tables, footnotes,
/// strikethrough, task lists, smart punctuation): the HTML is that of the
/// events parsed with exactly those options, code blocks rewritten.
pub proof fn lemma_md_to_html_extensions(md: Seq<char>, o: MdToHtmlOptions)
    ensures
        md_to_html_result(md, o) == rendered_html(
            raw_events(parsed_markdown(md, markdown_options(true, true, true, true, true))),
            replacements(parsed_markdown(md, markdown_options(true, true, true, true, true)), o),
        ),
{
}

} // verus!
