use vstd::prelude::*;

verus! {

/// How `html_escape::encode_text` writes one character.
pub open spec fn text_escape_char(c: char) -> Seq<char> {
    if c == '&' {
        "&amp;"@
    } else if c == '<' {
        "&lt;"@
    } else if c == '>' {
        "&gt;"@
    } else {
        seq![c]
    }
}

/// How `html_escape::encode_double_quoted_attribute` writes one character.
pub open spec fn attr_escape_char(c: char) -> Seq<char> {
    if c == '"' {
        "&quot;"@
    } else {
        text_escape_char(c)
    }
}

/// `s` with `&`, `<` and `>` written as entities.
pub open spec fn escape_text(s: Seq<char>) -> Seq<char>
    decreases s.len(),
{
    if s.len() == 0 {
        seq![]
    } else {
        text_escape_char(s[0]) + escape_text(s.drop_first())
    }
}

/// `s` with `&`, `<`, `>` and `"` written as entities.
pub open spec fn escape_attr(s: Seq<char>) -> Seq<char>
    decreases s.len(),
{
    if s.len() == 0 {
        seq![]
    } else {
        attr_escape_char(s[0]) + escape_attr(s.drop_first())
    }
}

/// `html_escape::encode_text`: the crate documents and implements it as
/// replacing every `&`, `<` and `>` by `&amp;`, `&lt;` and `&gt;`, and
/// copying every other character.
#[verifier::external_body]
pub(crate) fn encode_text(s: &[char]) -> (r: Vec<char>)
    ensures
        r@ == escape_text(s@),
{
    let text: String = s.iter().collect();
    html_escape::encode_text(&text).chars().collect()
}

/// `html_escape::encode_double_quoted_attribute`: as `encode_text`, and
/// `"` becomes `&quot;` as well.
#[verifier::external_body]
pub(crate) fn encode_double_quoted_attribute(s: &[char]) -> (r: Vec<char>)
    ensures
        r@ == escape_attr(s@),
{
    let text: String = s.iter().collect();
    html_escape::encode_double_quoted_attribute(&text).chars().collect()
}

/// What `html_escape::decode_html_entities` makes of a text.
pub uninterp spec fn decoded_entities(s: Seq<char>) -> Seq<char>;

/// `html_escape::decode_html_entities`: replaces the named and numeric
/// character references of `s` by the characters they stand for. Its table of
/// entities takes pages, so the result is named, not written out. The source
/// returns the text unchanged when it holds no `&` (it looks for the first
/// `&` and gives the input back when there is none); that is stated too.
#[verifier::external_body]
pub(crate) fn decode_entities(s: &str) -> (r: String)
    ensures
        r@ == decoded_entities(s@),
        !s@.contains('&') ==> r@ == s@,
{
    html_escape::decode_html_entities(s).to_string()
}

/// A text with its character references decoded: unchanged when it holds
/// no `&`, else what html-escape makes of it.
pub open spec fn decoded_text(s: Seq<char>) -> Seq<char> {
    if s.contains('&') {
        decoded_entities(s)
    } else {
        s
    }
}

/// Decodes the HTML character references of `content` (`&lt;` becomes `<`,
/// `&#39;` becomes `'`, and so on). A text without `&` comes back unchanged.
pub fn decode_html_entities(content: &str) -> (r: String)
    ensures
        r@ == decoded_text(content@),
        r@ == decoded_entities(content@),
{
    decode_entities(content)
}

/// What `str::to_lowercase` makes of a text (Unicode lower case mapping).
pub uninterp spec fn unicode_lowercase(s: Seq<char>) -> Seq<char>;

/// `str::to_lowercase`: maps every character to its Unicode lower case,
/// a function of the text alone, named here.
#[verifier::external_body]
pub(crate) fn to_lowercase(s: &[char]) -> (r: Vec<char>)
    ensures
        r@ == unicode_lowercase(s@),
{
    let text: String = s.iter().collect();
    text.to_lowercase().chars().collect()
}

/// Escaped text holds no `<` and no `>`: it cannot open or close a tag.
pub proof fn lemma_escaped_text_has_no_tag(s: Seq<char>)
    ensures
        !escape_text(s).contains('<'),
        !escape_text(s).contains('>'),
    decreases s.len(),
{
    reveal_strlit("&amp;");
    reveal_strlit("&lt;");
    reveal_strlit("&gt;");
    if s.len() > 0 {
        lemma_escaped_text_has_no_tag(s.drop_first());
        let head = text_escape_char(s[0]);
        let tail = escape_text(s.drop_first());
        assert(!head.contains('<') && !head.contains('>'));
        assert forall|c: char| (head + tail).contains(c) implies head.contains(c) || tail.contains(c) by {
            let k = choose|k: int| 0 <= k < (head + tail).len() && (head + tail)[k] == c;
            if k < head.len() {
                assert(head[k] == c);
            } else {
                assert(tail[k - head.len()] == c);
            }
        }
    }
}

} // verus!
