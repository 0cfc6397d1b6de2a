use vstd::prelude::*;

use crate::escape::{encode_text, escape_text, text_escape_char};
use crate::text::{char_is_whitespace, is_ws, push_all, take_chars};

verus! {

/// A piece of the inline content of an element, as text wrapping sees it.
#[derive(Debug)]
pub enum InlinePart {
    /// A start tag, written out.
    Open(Vec<char>),
    /// An end tag, written out.
    Close(Vec<char>),
    /// Other markup (comments, raw text, ...), written out.
    Markup(Vec<char>),
    /// A word of text, not yet escaped.
    Text(Vec<char>),
    /// A run of whitespace between words.
    Whitespace,
}

/// The mathematical value of an `InlinePart`.
pub enum Piece {
    Open(Seq<char>),
    Close(Seq<char>),
    Markup(Seq<char>),
    Text(Seq<char>),
    Space,
}

impl View for InlinePart {
    type V = Piece;

    open spec fn view(&self) -> Piece {
        match self {
            InlinePart::Open(v) => Piece::Open(v@),
            InlinePart::Close(v) => Piece::Close(v@),
            InlinePart::Markup(v) => Piece::Markup(v@),
            InlinePart::Text(v) => Piece::Text(v@),
            InlinePart::Whitespace => Piece::Space,
        }
    }
}

/// The values of a list of parts.
pub open spec fn pieces(parts: Seq<InlinePart>) -> Seq<Piece> {
    parts.map_values(|p: InlinePart| p@)
}

/// A word, when it is not empty.
pub open spec fn word_piece(word: Seq<char>) -> Seq<Piece> {
    if word.len() > 0 {
        seq![Piece::Text(word)]
    } else {
        seq![]
    }
}

/// The pieces of text `s`, given the word read so far and whether the
/// previous character was whitespace: words, and one `Space` for each run
/// of whitespace.
pub open spec fn text_pieces_from(s: Seq<char>, word: Seq<char>, in_ws: bool) -> Seq<Piece>
    decreases s.len(),
{
    if s.len() == 0 {
        word_piece(word)
    } else if is_ws(s[0]) {
        word_piece(word) + (if !in_ws {
            seq![Piece::Space]
        } else {
            seq![]
        }) + text_pieces_from(s.drop_first(), seq![], true)
    } else {
        text_pieces_from(s.drop_first(), word.push(s[0]), false)
    }
}

/// The pieces of a text: its words and the whitespace runs between them.
pub open spec fn text_pieces(s: Seq<char>) -> Seq<Piece> {
    text_pieces_from(s, seq![], false)
}

pub proof fn lemma_pieces_push(parts: Seq<InlinePart>, p: InlinePart)
    ensures
        pieces(parts.push(p)) == pieces(parts).push(p@),
{
    assert(pieces(parts.push(p)) =~= pieces(parts).push(p@));
}

/// Appends the pieces of `text` to `parts`.
pub fn push_text_parts(text: &[char], parts: &mut Vec<InlinePart>)
    ensures
        pieces(final(parts)@) == pieces(old(parts)@) + text_pieces(text@),
{
    let n: usize = text.len();
    let mut value: Vec<char> = Vec::new();
    let mut in_whitespace = false;
    let mut i: usize = 0;
    assert(text@.skip(0) =~= text@);
    while i < n
        invariant
            n == text@.len(),
            i <= n,
            pieces(old(parts)@) + text_pieces(text@) == pieces(parts@) + text_pieces_from(
                text@.skip(i as int),
                value@,
                in_whitespace,
            ),
        decreases n - i,
    {
        let c = text[i];
        assert(text@.skip(i as int)[0] == c);
        assert(text@.skip(i as int).drop_first() =~= text@.skip(i + 1));
        let ghost before = pieces(parts@);
        let ghost word = value@;
        let ghost was_ws = in_whitespace;
        if char_is_whitespace(c) {
            if value.len() > 0 {
                proof {
                    lemma_pieces_push(parts@, InlinePart::Text(value));
                }
                parts.push(InlinePart::Text(value));
                value = Vec::new();
            }
            assert(pieces(parts@) == before + word_piece(word));
            if !in_whitespace {
                proof {
                    lemma_pieces_push(parts@, InlinePart::Whitespace);
                }
                parts.push(InlinePart::Whitespace);
                in_whitespace = true;
            }
            assert(pieces(parts@) == before + word_piece(word) + (if !was_ws {
                seq![Piece::Space]
            } else {
                seq![]
            }));
            assert(value@ =~= Seq::<char>::empty());
            assert(text_pieces_from(text@.skip(i as int), word, was_ws) == word_piece(word) + (
            if !was_ws {
                seq![Piece::Space]
            } else {
                seq![]
            }) + text_pieces_from(text@.skip(i + 1), seq![], true));
            assert(before + text_pieces_from(text@.skip(i as int), word, was_ws) =~= pieces(parts@)
                + text_pieces_from(text@.skip(i + 1), value@, in_whitespace));
        } else {
            value.push(c);
            in_whitespace = false;
        }
        i = i + 1;
    }
    assert(text@.skip(n as int) =~= seq![]);
    if value.len() > 0 {
        proof {
            lemma_pieces_push(parts@, InlinePart::Text(value));
        }
        parts.push(InlinePart::Text(value));
    } else {
        assert(pieces(parts@) + word_piece(value@) =~= pieces(parts@));
    }
}


/// Reading pieces for their normalized text length: the length so far,
/// whether some text was read, and whether whitespace follows that text.
pub open spec fn norm_state(ps: Seq<Piece>) -> (nat, bool, bool)
    decreases ps.len(),
{
    if ps.len() == 0 {
        (0, false, false)
    } else {
        let prev = norm_state(ps.drop_last());
        let (len, has_text, pending) = (prev.0, prev.1, prev.2);
        match ps.last() {
            Piece::Text(v) => (
                (len + (if has_text && pending {
                    1nat
                } else {
                    0nat
                }) + v.len()) as nat,
                true,
                false,
            ),
            Piece::Space => (len, has_text, if has_text {
                true
            } else {
                pending
            }),
            _ => (len, has_text, pending),
        }
    }
}

/// The length of the text of the pieces once every whitespace run between
/// words counts as one space; markup counts nothing.
pub open spec fn normalized_len(ps: Seq<Piece>) -> nat {
    norm_state(ps).0
}

/// Some piece of `ps` is text.
pub open spec fn has_text(ps: Seq<Piece>) -> bool {
    exists|t: int| 0 <= t < ps.len() && #[trigger] ps[t] is Text
}

/// After the last text piece of `ps` comes whitespace.
pub open spec fn space_after_text(ps: Seq<Piece>) -> bool {
    exists|t: int, i: int|
        0 <= t < i < ps.len() && #[trigger] ps[t] is Text && #[trigger] ps[i] is Space && forall|
            k: int,
        |
            t < k < ps.len() ==> !(#[trigger] ps[k] is Text)
}

/// The characters of the text pieces among the first `n` pieces of `ps`.
pub open spec fn text_chars(ps: Seq<Piece>, n: int) -> nat
    decreases n,
{
    if n <= 0 {
        0
    } else {
        text_chars(ps, n - 1) + match ps[n - 1] {
            Piece::Text(v) => v.len(),
            _ => 0,
        }
    }
}

/// How many of the first `n` pieces of `ps` are text with whitespace
/// between them and the text before.
pub open spec fn spaced_texts(ps: Seq<Piece>, n: int) -> nat
    decreases n,
{
    if n <= 0 {
        0
    } else {
        spaced_texts(ps, n - 1) + if ps[n - 1] is Text && space_after_text(ps.take(n - 1)) {
            1nat
        } else {
            0nat
        }
    }
}

proof fn lemma_counts_prefix(ps: Seq<Piece>, n: int)
    requires
        0 <= n < ps.len(),
    ensures
        text_chars(ps, n) == text_chars(ps.drop_last(), n),
        spaced_texts(ps, n) == spaced_texts(ps.drop_last(), n),
    decreases n,
{
    if n > 0 {
        lemma_counts_prefix(ps, n - 1);
        assert(ps.take(n - 1) =~= ps.drop_last().take(n - 1));
        assert(ps[n - 1] == ps.drop_last()[n - 1]);
    }
}

proof fn lemma_norm_state_flags(ps: Seq<Piece>)
    ensures
        norm_state(ps).1 == has_text(ps),
        norm_state(ps).2 == space_after_text(ps),
    decreases ps.len(),
{
    if ps.len() > 0 {
        let prev = ps.drop_last();
        let n = ps.len() as int;
        lemma_norm_state_flags(prev);
        assert forall|t: int| 0 <= t < prev.len() implies prev[t] == ps[t] by {}
        if has_text(prev) {
            assert(has_text(ps)) by {
                let t = choose|t: int| 0 <= t < prev.len() && #[trigger] prev[t] is Text;
                assert(ps[t] is Text);
            }
        }
        if has_text(ps) && !(ps.last() is Text) {
            assert(has_text(prev)) by {
                let t = choose|t: int| 0 <= t < ps.len() && #[trigger] ps[t] is Text;
                assert(prev[t] is Text);
            }
        }
        match ps.last() {
            Piece::Text(v) => {
                assert(ps[n - 1] is Text);
                if space_after_text(ps) {
                    let (t, i) = choose|t: int, i: int|
                        0 <= t < i < ps.len() && #[trigger] ps[t] is Text && #[trigger] ps[i] is Space
                            && forall|k: int| t < k < ps.len() ==> !(#[trigger] ps[k] is Text);
                    assert(!(ps[n - 1] is Text));
                }
            },
            Piece::Space => {
                if has_text(prev) {
                    lemma_last_text(prev);
                    let t = last_text(prev);
                    assert(prev[t] == ps[t]);
                    assert(ps[t] is Text);
                    assert(ps[n - 1] is Space);
                    assert forall|k: int| t < k < ps.len() implies !(#[trigger] ps[k] is Text) by {
                        if k < n - 1 {
                            assert(prev[k] == ps[k]);
                        }
                    }
                    assert(space_after_text(ps));
                } else {
                    if space_after_text(ps) {
                        let (t, i) = choose|t: int, i: int|
                            0 <= t < i < ps.len() && #[trigger] ps[t] is Text && #[trigger] ps[i]
                                is Space && forall|k: int| t < k < ps.len() ==> !(#[trigger] ps[k] is Text);
                        assert(prev[t] is Text);
                    }
                    if space_after_text(prev) {
                        let (t, i) = choose|t: int, i: int|
                            0 <= t < i < prev.len() && #[trigger] prev[t] is Text && #[trigger] prev[i]
                                is Space && forall|k: int| t < k < prev.len() ==> !(#[trigger] prev[k] is Text);
                        assert(prev[t] is Text);
                    }
                }
            },
            _ => {
                if space_after_text(prev) {
                    let (t, i) = choose|t: int, i: int|
                        0 <= t < i < prev.len() && #[trigger] prev[t] is Text && #[trigger] prev[i] is Space
                            && forall|k: int| t < k < prev.len() ==> !(#[trigger] prev[k] is Text);
                    assert(ps[t] is Text && ps[i] is Space);
                    assert forall|k: int| t < k < ps.len() implies !(#[trigger] ps[k] is Text) by {
                        if k < n - 1 {
                            assert(prev[k] == ps[k]);
                        }
                    }
                    assert(space_after_text(ps));
                }
                if space_after_text(ps) {
                    let (t, i) = choose|t: int, i: int|
                        0 <= t < i < ps.len() && #[trigger] ps[t] is Text && #[trigger] ps[i] is Space
                            && forall|k: int| t < k < ps.len() ==> !(#[trigger] ps[k] is Text);
                    assert(i < n - 1);
                    assert(prev[t] is Text && prev[i] is Space);
                    assert forall|k: int| t < k < prev.len() implies !(#[trigger] prev[k] is Text) by {
                        assert(prev[k] == ps[k]);
                    }
                    assert(space_after_text(prev));
                }
            },
        }
    }
}

/// The position of the last text piece of `ps`.
spec fn last_text(ps: Seq<Piece>) -> int
    decreases ps.len(),
{
    if ps.len() == 0 {
        -1
    } else if ps.last() is Text {
        ps.len() - 1
    } else {
        last_text(ps.drop_last())
    }
}

proof fn lemma_last_text(ps: Seq<Piece>)
    requires
        has_text(ps),
    ensures
        0 <= last_text(ps) < ps.len(),
        ps[last_text(ps)] is Text,
        forall|k: int| last_text(ps) < k < ps.len() ==> !(#[trigger] ps[k] is Text),
    decreases ps.len(),
{
    if !(ps.last() is Text) {
        let prev = ps.drop_last();
        let t = choose|t: int| 0 <= t < ps.len() && #[trigger] ps[t] is Text;
        assert(t != ps.len() - 1);
        assert(prev[t] is Text);
        lemma_last_text(prev);
        assert forall|k: int| last_text(ps) < k < ps.len() implies !(#[trigger] ps[k] is Text) by {
            if k < ps.len() - 1 {
                assert(prev[k] == ps[k]);
            }
        }
    }
}

/// The normalized text length counts the characters of the text pieces,
/// plus one for each text piece with whitespace between it and the text
/// before it; markup counts nothing.
pub proof fn lemma_normalized_len_counts(ps: Seq<Piece>)
    ensures
        normalized_len(ps) == text_chars(ps, ps.len() as int) + spaced_texts(ps, ps.len() as int),
    decreases ps.len(),
{
    if ps.len() > 0 {
        let prev = ps.drop_last();
        let n = ps.len() as int;
        lemma_normalized_len_counts(prev);
        lemma_counts_prefix(ps, n - 1);
        lemma_norm_state_flags(prev);
        assert(ps.take(n - 1) =~= prev);
        assert(ps[n - 1] == ps.last());
    }
}

/// The normalized text length of `parts` (see `normalized_len`), capped at
/// `usize::MAX`.
pub fn normalized_text_len(parts: &Vec<InlinePart>) -> (r: usize)
    ensures
        r as nat == if normalized_len(pieces(parts@)) < usize::MAX {
            normalized_len(pieces(parts@))
        } else {
            usize::MAX as nat
        },
{
    let n: usize = parts.len();
    let mut length: usize = 0;
    let mut has_text = false;
    let mut pending_space = false;
    let mut i: usize = 0;
    assert(pieces(parts@).take(0) =~= seq![]);
    while i < n
        invariant
            n == parts@.len(),
            i <= n,
            ({
                let st = norm_state(pieces(parts@).take(i as int));
                &&& length as nat == if st.0 < usize::MAX {
                    st.0
                } else {
                    usize::MAX as nat
                }
                &&& has_text == st.1
                &&& pending_space == st.2
            }),
        decreases n - i,
    {
        assert(pieces(parts@).take(i + 1).drop_last() =~= pieces(parts@).take(i as int));
        assert(pieces(parts@).take(i + 1).last() == parts@[i as int]@);
        match &parts[i] {
            InlinePart::Text(value) => {
                if has_text && pending_space {
                    length = length.saturating_add(1);
                }
                length = length.saturating_add(value.len());
                has_text = true;
                pending_space = false;
            },
            InlinePart::Whitespace => {
                if has_text {
                    pending_space = true;
                }
            },
            _ => {},
        }
        i = i + 1;
    }
    assert(pieces(parts@).take(n as int) =~= pieces(parts@));
    length
}

/// The state of text wrapping: the finished lines with the text width of
/// each, the current line and its text width, whether a space is due
/// before the next word, and start tags held back until that word.
pub struct WrapState {
    pub lines: Seq<Seq<char>>,
    pub widths: Seq<nat>,
    pub line: Seq<char>,
    pub line_width: nat,
    pub pending_space: bool,
    pub pending_markup: Seq<char>,
}

/// Nothing read yet.
pub open spec fn wrap_start() -> WrapState {
    WrapState {
        lines: seq![],
        widths: seq![],
        line: seq![],
        line_width: 0,
        pending_space: false,
        pending_markup: seq![],
    }
}

/// The current line is finished and a new one begins.
pub open spec fn end_line(st: WrapState) -> WrapState {
    WrapState {
        lines: st.lines.push(st.line),
        widths: st.widths.push(st.line_width),
        line: seq![],
        line_width: 0,
        ..st
    }
}

/// Places the characters of a word, breaking the line when it is full.
pub open spec fn wrap_chars(st: WrapState, cs: Seq<char>, width: nat) -> WrapState
    decreases cs.len(),
{
    if cs.len() == 0 {
        st
    } else {
        let st1 = if st.line_width == width {
            end_line(st)
        } else {
            st
        };
        let st2 = WrapState {
            line: st1.line + text_escape_char(cs[0]),
            line_width: st1.line_width + 1,
            ..st1
        };
        wrap_chars(st2, cs.drop_first(), width)
    }
}

/// Reads one piece.
pub open spec fn wrap_step(st: WrapState, p: Piece, width: nat) -> WrapState {
    match p {
        Piece::Space => if st.line_width > 0 {
            WrapState { pending_space: true, ..st }
        } else {
            st
        },
        Piece::Open(v) => if st.pending_space {
            WrapState { pending_markup: st.pending_markup + v, ..st }
        } else {
            WrapState { line: st.line + st.pending_markup + v, pending_markup: seq![], ..st }
        },
        Piece::Close(v) => WrapState {
            line: st.line + st.pending_markup + v,
            pending_markup: seq![],
            ..st
        },
        Piece::Markup(v) => WrapState {
            line: st.line + st.pending_markup + v,
            pending_markup: seq![],
            ..st
        },
        Piece::Text(v) => {
            let st1 = if st.pending_space && st.line_width > 0 {
                if st.line_width + 1 + v.len() > width {
                    end_line(st)
                } else {
                    WrapState { line: st.line.push(' '), line_width: st.line_width + 1, ..st }
                }
            } else {
                st
            };
            let st2 = WrapState {
                pending_space: false,
                line: st1.line + st1.pending_markup,
                pending_markup: seq![],
                ..st1
            };
            wrap_chars(st2, v, width)
        },
    }
}

/// Reads the pieces in order.
pub open spec fn wrap_fold(st: WrapState, ps: Seq<Piece>, width: nat) -> WrapState
    decreases ps.len(),
{
    if ps.len() == 0 {
        st
    } else {
        wrap_fold(wrap_step(st, ps[0], width), ps.drop_first(), width)
    }
}

/// The last line, with the start tags still held back, ends the lines
/// when it is not empty.
pub open spec fn wrap_finish(st: WrapState) -> WrapState {
    let line = st.line + st.pending_markup;
    if line.len() > 0 {
        WrapState {
            lines: st.lines.push(line),
            widths: st.widths.push(st.line_width),
            line: seq![],
            pending_markup: seq![],
            ..st
        }
    } else {
        st
    }
}

/// The result of wrapping `ps` at `width`.
pub open spec fn wrap_result(ps: Seq<Piece>, width: nat) -> WrapState {
    wrap_finish(wrap_fold(wrap_start(), ps, width))
}

/// The lines that wrapping `ps` at `width` produces.
pub open spec fn wrapped_lines(ps: Seq<Piece>, width: nat) -> Seq<Seq<char>> {
    wrap_result(ps, width).lines
}


/// Every finished line, and the current one, holds at most `width`
/// characters of text, and each finished line has its width recorded.
pub open spec fn widths_bounded(st: WrapState, width: nat) -> bool {
    &&& st.line_width <= width
    &&& st.widths.len() == st.lines.len()
    &&& forall|i: int| 0 <= i < st.widths.len() ==> #[trigger] st.widths[i] <= width
}

proof fn lemma_wrap_chars_bounded(st: WrapState, cs: Seq<char>, width: nat)
    requires
        width >= 1,
        widths_bounded(st, width),
    ensures
        widths_bounded(wrap_chars(st, cs, width), width),
    decreases cs.len(),
{
    if cs.len() > 0 {
        let st1 = if st.line_width == width {
            end_line(st)
        } else {
            st
        };
        assert(widths_bounded(st1, width)) by {
            if st.line_width == width {
                assert forall|i: int| 0 <= i < st1.widths.len() implies #[trigger] st1.widths[i]
                    <= width by {
                    if i < st.widths.len() {
                        assert(st1.widths[i] == st.widths[i]);
                    }
                }
            }
        }
        let st2 = WrapState {
            line: st1.line + text_escape_char(cs[0]),
            line_width: st1.line_width + 1,
            ..st1
        };
        lemma_wrap_chars_bounded(st2, cs.drop_first(), width);
    }
}

proof fn lemma_wrap_step_bounded(st: WrapState, p: Piece, width: nat)
    requires
        width >= 1,
        widths_bounded(st, width),
    ensures
        widths_bounded(wrap_step(st, p, width), width),
{
    if let Piece::Text(v) = p {
        let st1 = if st.pending_space && st.line_width > 0 {
            if st.line_width + 1 + v.len() > width {
                end_line(st)
            } else {
                WrapState { line: st.line.push(' '), line_width: st.line_width + 1, ..st }
            }
        } else {
            st
        };
        assert(widths_bounded(st1, width)) by {
            if st.pending_space && st.line_width > 0 && st.line_width + 1 + v.len() > width {
                assert forall|i: int| 0 <= i < st1.widths.len() implies #[trigger] st1.widths[i]
                    <= width by {
                    if i < st.widths.len() {
                        assert(st1.widths[i] == st.widths[i]);
                    }
                }
            }
        }
        let st2 = WrapState {
            pending_space: false,
            line: st1.line + st1.pending_markup,
            pending_markup: seq![],
            ..st1
        };
        lemma_wrap_chars_bounded(st2, v, width);
    }
}

proof fn lemma_wrap_fold_bounded(st: WrapState, ps: Seq<Piece>, width: nat)
    requires
        width >= 1,
        widths_bounded(st, width),
    ensures
        widths_bounded(wrap_fold(st, ps, width), width),
    decreases ps.len(),
{
    if ps.len() > 0 {
        lemma_wrap_step_bounded(st, ps[0], width);
        lemma_wrap_fold_bounded(wrap_step(st, ps[0], width), ps.drop_first(), width);
    }
}

/// The lines put end to end.
pub open spec fn joined_lines(ls: Seq<Seq<char>>) -> Seq<char>
    decreases ls.len(),
{
    if ls.len() == 0 {
        seq![]
    } else {
        joined_lines(ls.drop_last()) + ls.last()
    }
}

/// What a piece puts in the output: text escaped, markup as it is,
/// whitespace nothing of its own.
pub open spec fn piece_content(p: Piece) -> Seq<char> {
    match p {
        Piece::Text(v) => escape_text(v),
        Piece::Open(v) => v,
        Piece::Close(v) => v,
        Piece::Markup(v) => v,
        Piece::Space => seq![],
    }
}

/// What the pieces put in the output, in order.
pub open spec fn inline_content(ps: Seq<Piece>) -> Seq<char>
    decreases ps.len(),
{
    if ps.len() == 0 {
        seq![]
    } else {
        piece_content(ps[0]) + inline_content(ps.drop_first())
    }
}

/// `out` is `src` with spaces put in here and there.
pub open spec fn spaced(out: Seq<char>, src: Seq<char>) -> bool
    decreases out.len(),
{
    if out.len() == 0 {
        src.len() == 0
    } else {
        ||| out[0] == ' ' && spaced(out.drop_first(), src)
        ||| src.len() > 0 && out[0] == src[0] && spaced(out.drop_first(), src.drop_first())
    }
}

proof fn lemma_spaced_refl(x: Seq<char>)
    ensures
        spaced(x, x),
    decreases x.len(),
{
    if x.len() > 0 {
        lemma_spaced_refl(x.drop_first());
    }
}

proof fn lemma_spaced_append(a: Seq<char>, b: Seq<char>, x: Seq<char>)
    requires
        spaced(a, b),
    ensures
        spaced(a + x, b + x),
    decreases a.len(),
{
    if a.len() == 0 {
        assert(a + x =~= x);
        assert(b + x =~= x);
        lemma_spaced_refl(x);
    } else {
        assert((a + x).drop_first() =~= a.drop_first() + x);
        assert((a + x)[0] == a[0]);
        if a[0] == ' ' && spaced(a.drop_first(), b) {
            lemma_spaced_append(a.drop_first(), b, x);
        } else {
            lemma_spaced_append(a.drop_first(), b.drop_first(), x);
            assert((b + x).drop_first() =~= b.drop_first() + x);
            assert((b + x)[0] == b[0]);
        }
    }
}

proof fn lemma_spaced_space(a: Seq<char>, b: Seq<char>)
    requires
        spaced(a, b),
    ensures
        spaced(a.push(' '), b),
    decreases a.len(),
{
    if a.len() == 0 {
        assert(a.push(' ').drop_first() =~= a);
    } else {
        assert(a.push(' ').drop_first() =~= a.drop_first().push(' '));
        assert(a.push(' ')[0] == a[0]);
        if a[0] == ' ' && spaced(a.drop_first(), b) {
            lemma_spaced_space(a.drop_first(), b);
        } else {
            lemma_spaced_space(a.drop_first(), b.drop_first());
        }
    }
}

/// The finished lines and the current one, end to end.
pub open spec fn flat(st: WrapState) -> Seq<char> {
    joined_lines(st.lines) + st.line
}

/// No finished line is empty, and the current line holds at least as many
/// characters as its text width.
pub open spec fn lines_filled(st: WrapState) -> bool {
    &&& forall|i: int| 0 <= i < st.lines.len() ==> #[trigger] st.lines[i].len() > 0
    &&& st.line.len() >= st.line_width
}

proof fn lemma_end_line(st: WrapState)
    requires
        lines_filled(st),
        st.line_width > 0,
    ensures
        flat(end_line(st)) == flat(st),
        lines_filled(end_line(st)),
{
    let e = end_line(st);
    assert(e.lines.drop_last() =~= st.lines);
    assert(flat(e) =~= flat(st));
    assert forall|i: int| 0 <= i < e.lines.len() implies #[trigger] e.lines[i].len() > 0 by {
        if i < st.lines.len() {
            assert(e.lines[i] == st.lines[i]);
        }
    }
}

proof fn lemma_escape_char_len(c: char)
    ensures
        text_escape_char(c).len() >= 1,
{
    reveal_strlit("&amp;");
    reveal_strlit("&lt;");
    reveal_strlit("&gt;");
}

proof fn lemma_wrap_chars_keeps(st: WrapState, cs: Seq<char>, width: nat)
    requires
        width >= 1,
        lines_filled(st),
    ensures
        flat(wrap_chars(st, cs, width)) == flat(st) + escape_text(cs),
        wrap_chars(st, cs, width).pending_markup == st.pending_markup,
        wrap_chars(st, cs, width).pending_space == st.pending_space,
        lines_filled(wrap_chars(st, cs, width)),
    decreases cs.len(),
{
    if cs.len() == 0 {
        assert(flat(st) + escape_text(cs) =~= flat(st));
    } else {
        let st1 = if st.line_width == width {
            end_line(st)
        } else {
            st
        };
        if st.line_width == width {
            lemma_end_line(st);
        }
        lemma_escape_char_len(cs[0]);
        let st2 = WrapState {
            line: st1.line + text_escape_char(cs[0]),
            line_width: st1.line_width + 1,
            ..st1
        };
        lemma_wrap_chars_keeps(st2, cs.drop_first(), width);
        assert(flat(st2) =~= flat(st1) + text_escape_char(cs[0]));
        assert(flat(st) + escape_text(cs) =~= flat(st) + text_escape_char(cs[0]) + escape_text(
            cs.drop_first(),
        ));
    }
}

proof fn lemma_wrap_step_keeps(st: WrapState, p: Piece, width: nat, c: Seq<char>) -> (c2: Seq<
    char,
>)
    requires
        width >= 1,
        lines_filled(st),
        spaced(flat(st), c),
    ensures
        lines_filled(wrap_step(st, p, width)),
        spaced(flat(wrap_step(st, p, width)), c2),
        c2 + wrap_step(st, p, width).pending_markup == c + st.pending_markup + piece_content(p),
{
    let st2 = wrap_step(st, p, width);
    match p {
        Piece::Space => {
            assert(c + st.pending_markup + piece_content(p) =~= c + st.pending_markup);
            c
        },
        Piece::Open(v) => {
            if st.pending_space {
                assert(c + st2.pending_markup =~= c + st.pending_markup + v);
                c
            } else {
                lemma_spaced_append(flat(st), c, st.pending_markup + v);
                assert(flat(st2) =~= flat(st) + (st.pending_markup + v));
                let c2 = c + (st.pending_markup + v);
                assert(c2 + st2.pending_markup =~= c + st.pending_markup + piece_content(p));
                c2
            }
        },
        Piece::Close(v) => {
            lemma_spaced_append(flat(st), c, st.pending_markup + v);
            assert(flat(st2) =~= flat(st) + (st.pending_markup + v));
            let c2 = c + (st.pending_markup + v);
            assert(c2 + st2.pending_markup =~= c + st.pending_markup + piece_content(p));
            c2
        },
        Piece::Markup(v) => {
            lemma_spaced_append(flat(st), c, st.pending_markup + v);
            assert(flat(st2) =~= flat(st) + (st.pending_markup + v));
            let c2 = c + (st.pending_markup + v);
            assert(c2 + st2.pending_markup =~= c + st.pending_markup + piece_content(p));
            c2
        },
        Piece::Text(v) => {
            let st1 = if st.pending_space && st.line_width > 0 {
                if st.line_width + 1 + v.len() > width {
                    end_line(st)
                } else {
                    WrapState { line: st.line.push(' '), line_width: st.line_width + 1, ..st }
                }
            } else {
                st
            };
            if st.pending_space && st.line_width > 0 {
                if st.line_width + 1 + v.len() > width {
                    lemma_end_line(st);
                } else {
                    lemma_spaced_space(flat(st), c);
                    assert(flat(st1) =~= flat(st).push(' '));
                }
            }
            assert(spaced(flat(st1), c));
            let st3 = WrapState {
                pending_space: false,
                line: st1.line + st1.pending_markup,
                pending_markup: seq![],
                ..st1
            };
            lemma_spaced_append(flat(st1), c, st.pending_markup);
            assert(flat(st3) =~= flat(st1) + st.pending_markup);
            lemma_wrap_chars_keeps(st3, v, width);
            lemma_spaced_append(flat(st3), c + st.pending_markup, escape_text(v));
            let c2 = c + st.pending_markup + escape_text(v);
            assert(c2 + st2.pending_markup =~= c + st.pending_markup + piece_content(p));
            c2
        },
    }
}

proof fn lemma_wrap_fold_keeps(st: WrapState, ps: Seq<Piece>, width: nat, c: Seq<char>) -> (c2: Seq<
    char,
>)
    requires
        width >= 1,
        lines_filled(st),
        spaced(flat(st), c),
    ensures
        lines_filled(wrap_fold(st, ps, width)),
        spaced(flat(wrap_fold(st, ps, width)), c2),
        c2 + wrap_fold(st, ps, width).pending_markup == c + st.pending_markup + inline_content(ps),
    decreases ps.len(),
{
    if ps.len() == 0 {
        assert(c + st.pending_markup + inline_content(ps) =~= c + st.pending_markup);
        c
    } else {
        let st1 = wrap_step(st, ps[0], width);
        let c1 = lemma_wrap_step_keeps(st, ps[0], width, c);
        let c2 = lemma_wrap_fold_keeps(st1, ps.drop_first(), width, c1);
        assert(c + st.pending_markup + inline_content(ps) =~= c + st.pending_markup + piece_content(
            ps[0],
        ) + inline_content(ps.drop_first()));
        c2
    }
}

/// Wrapping only breaks lines and puts in spaces: no line it produces is
/// empty, and the lines, end to end, are what the pieces put in the output
/// (text escaped, markup as it is), in their order, with spaces put in.
pub proof fn lemma_wrapped_lines_keep_pieces(ps: Seq<Piece>, width: nat)
    requires
        width >= 1,
    ensures
        forall|i: int|
            0 <= i < wrapped_lines(ps, width).len() ==> #[trigger] wrapped_lines(ps, width)[i].len()
                > 0,
        spaced(joined_lines(wrapped_lines(ps, width)), inline_content(ps)),
{
    let st0 = wrap_start();
    assert(flat(st0) =~= Seq::<char>::empty());
    let c2 = lemma_wrap_fold_keeps(st0, ps, width, seq![]);
    let st = wrap_fold(st0, ps, width);
    let fin = wrap_finish(st);
    assert(seq![] + st0.pending_markup + inline_content(ps) =~= inline_content(ps));
    let line = st.line + st.pending_markup;
    if line.len() > 0 {
        assert(fin.lines.drop_last() =~= st.lines);
        assert(joined_lines(fin.lines) =~= flat(st) + st.pending_markup);
        lemma_spaced_append(flat(st), c2, st.pending_markup);
        assert forall|i: int| 0 <= i < fin.lines.len() implies #[trigger] fin.lines[i].len() > 0 by {
            if i < st.lines.len() {
                assert(fin.lines[i] == st.lines[i]);
            }
        }
    } else {
        assert(flat(st) =~= joined_lines(st.lines));
        assert(c2 + st.pending_markup =~= c2);
    }
}

/// Text wrapping keeps its promise: each line it produces holds at most
/// `width` characters of text (markup takes no width), and it records the
/// width of every line it produces.
pub proof fn lemma_wrapped_lines_fit(ps: Seq<Piece>, width: nat)
    requires
        width >= 1,
    ensures
        wrap_result(ps, width).widths.len() == wrap_result(ps, width).lines.len(),
        forall|i: int|
            0 <= i < wrap_result(ps, width).widths.len() ==> #[trigger] wrap_result(
                ps,
                width,
            ).widths[i] <= width,
{
    lemma_wrap_fold_bounded(wrap_start(), ps, width);
    let st = wrap_fold(wrap_start(), ps, width);
    let fin = wrap_finish(st);
    assert forall|i: int| 0 <= i < fin.widths.len() implies #[trigger] fin.widths[i] <= width by {
        if i < st.widths.len() {
            assert(fin.widths[i] == st.widths[i]);
        }
    }
}

/// The working state of `wrap_inline_parts`.
struct Wrapper {
    lines: Vec<Vec<char>>,
    widths: Ghost<Seq<nat>>,
    line: Vec<char>,
    line_width: usize,
    pending_space: bool,
    pending_markup: Vec<char>,
}

impl Wrapper {
    spec fn state(&self) -> WrapState {
        WrapState {
            lines: self.lines@.map_values(|l: Vec<char>| l@),
            widths: self.widths@,
            line: self.line@,
            line_width: self.line_width as nat,
            pending_space: self.pending_space,
            pending_markup: self.pending_markup@,
        }
    }

    fn end_line(&mut self)
        ensures
            final(self).state() == end_line(old(self).state()),
    {
        let line = take_chars(&mut self.line);
        self.lines.push(line);
        self.line_width = 0;
        self.widths = Ghost(self.widths@.push(old(self).line_width as nat));
        assert(self.lines@.map_values(|l: Vec<char>| l@) =~= old(self).lines@.map_values(
            |l: Vec<char>| l@,
        ).push(old(self).line@));
    }

    fn place_chars(&mut self, cs: &[char], width: usize)
        requires
            width >= 1,
            old(self).line_width <= width,
        ensures
            final(self).state() == wrap_chars(old(self).state(), cs@, width as nat),
            final(self).line_width <= width,
    {
        let n: usize = cs.len();
        let mut j: usize = 0;
        assert(cs@.skip(0) =~= cs@);
        while j < n
            invariant
                n == cs@.len(),
                j <= n,
                width >= 1,
                self.line_width <= width,
                wrap_chars(old(self).state(), cs@, width as nat) == wrap_chars(
                    self.state(),
                    cs@.skip(j as int),
                    width as nat,
                ),
            decreases n - j,
        {
            assert(cs@.skip(j as int)[0] == cs@[j as int]);
            assert(cs@.skip(j as int).drop_first() =~= cs@.skip(j + 1));
            if self.line_width == width {
                self.end_line();
            }
            let one = [cs[j]];
            let esc = encode_text(&one);
            proof {
                reveal_with_fuel(crate::escape::escape_text, 2);
                assert(one@ =~= seq![cs@[j as int]]);
                assert(one@.drop_first() =~= Seq::<char>::empty());
            }
            push_all(&mut self.line, esc.as_slice());
            self.line_width = self.line_width + 1;
            j = j + 1;
        }
        assert(cs@.skip(n as int) =~= Seq::<char>::empty());
    }

    fn step(&mut self, part: &InlinePart, width: usize)
        requires
            width >= 1,
            old(self).line_width <= width,
        ensures
            final(self).state() == wrap_step(old(self).state(), part@, width as nat),
            final(self).line_width <= width,
    {
        match part {
            InlinePart::Whitespace => {
                if self.line_width > 0 {
                    self.pending_space = true;
                }
            },
            InlinePart::Open(value) => {
                if self.pending_space {
                    push_all(&mut self.pending_markup, value.as_slice());
                } else {
                    let held = take_chars(&mut self.pending_markup);
                    push_all(&mut self.line, held.as_slice());
                    push_all(&mut self.line, value.as_slice());
                }
            },
            InlinePart::Close(value) => {
                let held = take_chars(&mut self.pending_markup);
                push_all(&mut self.line, held.as_slice());
                push_all(&mut self.line, value.as_slice());
            },
            InlinePart::Markup(value) => {
                let held = take_chars(&mut self.pending_markup);
                push_all(&mut self.line, held.as_slice());
                push_all(&mut self.line, value.as_slice());
            },
            InlinePart::Text(value) => {
                let value_width: usize = value.len();
                if self.pending_space && self.line_width > 0 {
                    if self.line_width >= width || value_width > width - self.line_width - 1 {
                        self.end_line();
                    } else {
                        self.line.push(' ');
                        self.line_width = self.line_width + 1;
                    }
                }
                self.pending_space = false;
                let held = take_chars(&mut self.pending_markup);
                push_all(&mut self.line, held.as_slice());
                self.place_chars(value.as_slice(), width);
            },
        }
    }
}

/// Breaks inline content into lines holding at most `width` characters of
/// text each; markup takes no width and a start tag right before a word
/// moves with it to the next line.
pub fn wrap_inline_parts(parts: &Vec<InlinePart>, width: usize) -> (r: Vec<Vec<char>>)
    requires
        width >= 1,
    ensures
        r@.map_values(|l: Vec<char>| l@) == wrapped_lines(pieces(parts@), width as nat),
{
    let mut w = Wrapper {
        lines: Vec::new(),
        widths: Ghost(Seq::<nat>::empty()),
        line: Vec::new(),
        line_width: 0,
        pending_space: false,
        pending_markup: Vec::new(),
    };
    assert(w.state().lines =~= wrap_start().lines);
    assert(w.state() == wrap_start());
    let n: usize = parts.len();
    let mut i: usize = 0;
    assert(pieces(parts@).skip(0) =~= pieces(parts@));
    while i < n
        invariant
            n == parts@.len(),
            i <= n,
            width >= 1,
            w.line_width <= width,
            wrap_fold(wrap_start(), pieces(parts@), width as nat) == wrap_fold(
                w.state(),
                pieces(parts@).skip(i as int),
                width as nat,
            ),
        decreases n - i,
    {
        assert(pieces(parts@).skip(i as int)[0] == parts@[i as int]@);
        assert(pieces(parts@).skip(i as int).drop_first() =~= pieces(parts@).skip(i + 1));
        w.step(&parts[i], width);
        i = i + 1;
    }
    assert(pieces(parts@).skip(n as int) =~= Seq::<Piece>::empty());
    let ghost before = w.state();
    let held = take_chars(&mut w.pending_markup);
    push_all(&mut w.line, held.as_slice());
    if w.line.len() > 0 {
        let line = take_chars(&mut w.line);
        w.lines.push(line);
        assert(w.lines@.map_values(|l: Vec<char>| l@) =~= before.lines.push(
            before.line + before.pending_markup,
        ));
    }
    w.lines
}

} // verus!
