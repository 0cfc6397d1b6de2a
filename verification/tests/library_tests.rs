use htmlr::inline::{normalized_text_len, push_text_parts, InlinePart};
use htmlr::pretty::should_parse_document;
use htmlr::text::{is_string_effectively_empty, remove_empty_lines};
use htmlr::to_md::{extract_title, removed_markdown, shifted_heading, titled_markdown, to_md_with};
use htmlr::{
    decode_html_entities, md_to_html, select, slim, to_md, AttrMap, Error, HtmlContent, HtmlParsed,
    MdToHtmlOptions, SlimOptions, ToMdOptions,
};

#[test]
fn remove_empty_lines_keeps_only_non_blank_lines() {
    let out = remove_empty_lines("a\n\n  \nb\r\nc\r".to_string()).unwrap();
    assert_eq!(out, "a\nb\nc\r");
    assert_eq!(remove_empty_lines(" \n\t\n".to_string()).unwrap(), "");
}

#[test]
fn effectively_empty_strings() {
    assert!(is_string_effectively_empty(""));
    assert!(is_string_effectively_empty(" \t\n\u{a0}"));
    assert!(!is_string_effectively_empty("  x "));
}

#[test]
fn decode_html_entities_decodes_references() {
    assert_eq!(decode_html_entities("&lt;p&gt; &amp; &#39;x&#39;"), "<p> & 'x'");
    assert_eq!(decode_html_entities("plain text"), "plain text");
}

#[test]
fn extract_title_finds_the_first_non_blank_title() {
    assert_eq!(
        extract_title("<html><head><TITLE>  Tom &amp; Jerry </title></head></html>").as_deref(),
        Some("Tom & Jerry")
    );
    assert_eq!(extract_title("<title>   </title><title>Second</title>").as_deref(), Some("Second"));
    assert_eq!(extract_title("<title>&#32;</title><title>B</title>").as_deref(), Some("B"));
    assert_eq!(extract_title("<title >A</TITLE>").as_deref(), Some("A"));
}

#[test]
fn extract_title_without_a_title() {
    assert_eq!(extract_title("<titles>x</titles>"), None);
    assert_eq!(extract_title("<title>Unclosed"), None);
    assert_eq!(extract_title("<title"), None);
    assert_eq!(extract_title(""), None);
}

#[test]
fn shifted_heading_adds_one_level() {
    assert_eq!(shifted_heading("h2", "  Sub Header \n"), "\n\n### Sub Header\n\n");
    assert_eq!(shifted_heading("h6", "x"), "\n\n####### x\n\n");
    assert_eq!(shifted_heading("h3", " \t "), "");
    assert_eq!(removed_markdown(), "");
}

#[test]
fn titled_markdown_puts_the_title_first() {
    assert_eq!(titled_markdown(Some("T".to_string()), "\r\n\nbody".to_string()), "# T\n\nbody");
    assert_eq!(titled_markdown(Some("T".to_string()), "\n\n".to_string()), "# T\n");
    assert_eq!(titled_markdown(None, "md".to_string()), "md");
}

#[test]
fn to_md_title_comes_first_and_is_trimmed() {
    let md = to_md("<title>  Doc \n</title><p>Body</p>", None).unwrap();
    assert!(md.starts_with("# Doc\n\n"));
    assert!(md.contains("Body"));
}

#[test]
fn to_md_with_options_without_title() {
    let opts = ToMdOptions::default().with_title_as_h1(false);
    assert!(!opts.title_as_h1());
    assert!(opts.shift_headings());
    let md = to_md_with("<title>T</title><h1>H</h1>", opts).unwrap();
    assert_eq!(md, "# H");
}

#[test]
fn to_md_options_defaults() {
    let opts = ToMdOptions::default();
    assert!(opts.title_as_h1());
    assert!(opts.shift_headings());
    let htmd_opts = opts.into_htmd_options();
    assert_eq!(htmd_opts.bullet_list_marker, htmd::options::BulletListMarker::Dash);
    assert_eq!(htmd_opts.ul_bullet_spacing, 1);
    assert_eq!(htmd_opts.ol_number_spacing, 1);
    let from_htmd: ToMdOptions = htmd::options::Options::default().into();
    assert!(from_htmd.title_as_h1());
    assert!(from_htmd.shift_headings());
    assert_eq!(from_htmd.htmd_options.bullet_list_marker, htmd::options::BulletListMarker::Asterisk);
}

#[test]
fn slim_leaves_no_blank_line() {
    let html = "<div>\n\n<p>a</p>\n   \n<p>b</p></div>";
    let out = slim(html, Some(SlimOptions::from_indent(2))).unwrap();
    assert!(!out.is_empty());
    for line in out.lines() {
        assert!(!line.trim().is_empty(), "blank line in {out:?}");
    }
}

#[test]
fn slim_keeps_meta_whatever_the_case_of_its_property() {
    let html = r#"<html><head><meta property="OG:Title" content="x"></head><body><p>a</p></body></html>"#;
    let out = slim(html, None).unwrap();
    assert!(out.contains(r#"property="OG:Title""#), "got {out:?}");
}

#[test]
fn select_ignores_blank_selectors() {
    let html = "<h1>T</h1><p>a</p>";
    let with_blank = select(html, ["  ", "p", "\t"]).unwrap();
    let plain = select(html, ["p"]).unwrap();
    assert_eq!(with_blank.len(), 1);
    assert_eq!(plain.len(), 1);
    assert_eq!(with_blank[0].tag, plain[0].tag);
}

#[test]
fn select_reports_the_joined_selector_that_does_not_parse() {
    let res = select("<p>x</p>", [" p ", "h1["]);
    match res {
        Err(Error::SelectorParse { selector, cause }) => {
            assert_eq!(selector, "p,h1[");
            assert!(!cause.is_empty());
        }
        _ => panic!("expected a selector error"),
    }
    let err = select("<p>x</p>", ["h1["]).unwrap_err();
    assert!(err.to_string().starts_with("Selector 'h1[' is invalid. Cause: "));
}

#[test]
fn select_in_a_parsed_document_or_a_string() {
    let html = "<div><p>one</p><p>two</p></div>";
    let doc = HtmlParsed::parse_document(html);
    let from_doc = select(&doc, ["p"]).unwrap();
    let text = html.to_string();
    let from_string = select(&text, ["p"]).unwrap();
    assert_eq!(from_doc.len(), 2);
    assert_eq!(from_string.len(), 2);
    assert_eq!(from_doc[1].text.as_deref(), Some("two"));
    assert_eq!(from_string[1].text.as_deref(), Some("two"));
    let content: HtmlContent = (&text).into();
    assert!(matches!(content, HtmlContent::Source(s) if s == html));
}

#[test]
fn md_to_html_indented_and_bare_code_blocks() {
    let html = md_to_html("    let x = 1;\n", None).unwrap();
    assert_eq!(html, "<pre>\n<code>\nlet x = 1;\n</code>\n</pre>\n");
    let html = md_to_html("```\nx\n```", None).unwrap();
    assert_eq!(html, "<pre>\n<code>\nx\n</code>\n</pre>\n");
}

#[test]
fn md_to_html_language_is_the_first_word_escaped() {
    let html = md_to_html("```rust ignore\nfn a() {}\n```", None).unwrap();
    assert_eq!(html, "<pre>\n<code class=\"language-rust\">\nfn a() {}\n</code>\n</pre>\n");
    let html = md_to_html("```a\"b\nx\n```", None).unwrap();
    assert_eq!(html, "<pre>\n<code class=\"language-a&quot;b\">\nx\n</code>\n</pre>\n");
}

#[test]
fn md_to_html_mermaid_as_code_when_disabled() {
    let options = MdToHtmlOptions {
        code_block_mermaid_as_pre: false,
        ..Default::default()
    };
    let html = md_to_html("```mermaid\ngraph TD\n```", options).unwrap();
    assert_eq!(html, "<pre>\n<code class=\"language-mermaid\">\ngraph TD\n</code>\n</pre>\n");
}

#[test]
fn custom_error_message_is_its_text() {
    assert_eq!(Error::Custom("boom".to_string()).to_string(), "boom");
}

#[test]
fn attr_map_insert_returns_the_previous_value() {
    let mut m = AttrMap::new();
    assert!(m.is_empty());
    assert_eq!(m.insert("a".to_string(), "1".to_string()), None);
    assert_eq!(m.insert("a".to_string(), "2".to_string()), Some("1".to_string()));
    assert_eq!(m.len(), 1);
    assert_eq!(m.get("a").map(|s| s.as_str()), Some("2"));
    assert_eq!(m.get("b"), None);
}

#[test]
fn readme_example_slim_select_to_md() {
    let html = r#"<html><head></head><body><p>Hello &amp; welcome!</p>
    <a class="blink" style="background: red" href="https://example.com">good&nbsp;link</a><script>some_stuff()</script></body></html>"#;
    let slimmed = slim(html, SlimOptions::from_indent(2)).unwrap();
    assert_eq!(
        slimmed,
        "<body>\n  <p>Hello & welcome!</p>\n  <a class=\"blink\" href=\"https://example.com\">good\u{a0}link</a>\n</body>"
    );
    let elems = select(&slimmed, ["a"]).unwrap();
    assert_eq!(elems.len(), 1);
    let markdown = to_md(&slimmed, None).unwrap();
    assert!(markdown.starts_with("Hello & welcome!\n\n["));
    assert!(markdown.ends_with("](https://example.com)"));
    assert_eq!(decode_html_entities("good&nbsp;link"), "good\u{a0}link");
}

#[test]
fn document_or_fragment() {
    assert!(should_parse_document("  <!DOCTYPE html><p>x</p>"));
    assert!(should_parse_document("<HTML><body></body></HTML>"));
    assert!(should_parse_document("<head></head>"));
    assert!(should_parse_document("\n<body>x</body>"));
    assert!(should_parse_document("<body"));
    assert!(should_parse_document("<html lang=\"en\">"));
    assert!(!should_parse_document("<main>x</main>"));
    assert!(!should_parse_document("<header><p>Hi</p></header>"));
    assert!(!should_parse_document("<htmlx>"));
    let out = htmlr::pretty("<header><p>Hi</p></header>", None);
    assert!(!out.contains("<html"), "got {out:?}");
    assert!(!out.contains("<body"), "got {out:?}");
    assert!(out.contains("<header>"), "got {out:?}");
}

#[test]
fn normalized_text_len_counts_words_and_gaps() {
    let parts = vec![
        InlinePart::Whitespace,
        InlinePart::Text("a".chars().collect()),
        InlinePart::Whitespace,
        InlinePart::Open("<b>".chars().collect()),
        InlinePart::Text("bc".chars().collect()),
        InlinePart::Whitespace,
    ];
    assert_eq!(normalized_text_len(&parts), 4);
    let mut p = Vec::new();
    let text: Vec<char> = "  one  two\n three ".chars().collect();
    push_text_parts(&text, &mut p);
    assert_eq!(normalized_text_len(&p), "one two three".len());
}

#[test]
fn plain_title_is_kept_as_it_is() {
    assert_eq!(extract_title("<title>X</title>").as_deref(), Some("X"));
    assert_eq!(extract_title("<title> A b </title>").as_deref(), Some("A b"));
}

#[test]
fn wrapped_lines_are_never_empty() {
    let text = "word ".repeat(30);
    let out = htmlr::pretty(&format!("<p>{text}</p>"), Some(htmlr::PrettyOptions { ident: 2, wrap: Some(20) }));
    let lines: Vec<&str> = out.lines().collect();
    assert!(lines.len() > 3, "got {out:?}");
    for line in &lines {
        assert!(!line.trim().is_empty(), "got {out:?}");
    }
    let words: String = out.split_whitespace().collect::<Vec<_>>().join(" ");
    assert_eq!(words, format!("<p>{}</p>", text.trim()).replace("<p>", "<p> ").replace("</p>", " </p>"));
}
