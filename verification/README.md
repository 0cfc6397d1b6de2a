# htmlr

High-level HTML helpers, verified with Verus:

- `slim` strips scripts, styles, comments, empty elements and most attributes
  from a page;
- `pretty` indents HTML and wraps the text of paragraphs and the like;
- `select` returns the elements that match CSS selectors;
- `to_md` converts HTML to Markdown (htmd), with the page title as a heading;
- `md_to_html` converts Markdown to HTML (pulldown-cmark), writing code
  blocks and Mermaid diagrams itself;
- `decode_html_entities` decodes character references.

## Layout

- `src/` is the library. Its functions carry contracts that Verus proves,
  except the small functions marked `#[verifier::external_body]` that make the
  calls into scraper, html5ever, htmd, pulldown-cmark, html-escape and std:
  Verus takes their contracts on trust, and their doc comments say what is
  assumed of each. A few of them (the copies of scraper's and
  pulldown-cmark's values, and the gathering of a caller's selectors) state
  nothing at all.
- `src/text.rs`, `src/names.rs` and `src/escape.rs` hold the text, tag-name
  and escaping helpers the others share; `src/dom.rs` the plain copy of a
  parsed tree that `slim` and `pretty` walk.
- `tests/` runs the library on concrete inputs.
- `app/` holds a serde-ready copy of `Elem`.
