use vstd::prelude::*;

use crate::error::Result;

verus! {

broadcast use vstd::string::group_string_axioms;

/// The Unicode `White_Space` property, which `char::is_whitespace` tests.
pub open spec fn is_ws(c: char) -> bool {
    let n = c as u32;
    ||| 0x9 <= n <= 0xD
    ||| n == 0x20
    ||| n == 0x85
    ||| n == 0xA0
    ||| n == 0x1680
    ||| 0x2000 <= n <= 0x200A
    ||| n == 0x2028
    ||| n == 0x2029
    ||| n == 0x202F
    ||| n == 0x205F
    ||| n == 0x3000
}

/// Tests `is_ws`, the set that `char::is_whitespace` tests.
pub fn char_is_whitespace(c: char) -> (r: bool)
    ensures
        r == is_ws(c),
{
    let n: u32 = c as u32;
    (0x9 <= n && n <= 0xD) || n == 0x20 || n == 0x85 || n == 0xA0 || n == 0x1680 || (0x2000 <= n
        && n <= 0x200A) || n == 0x2028 || n == 0x2029 || n == 0x202F || n == 0x205F || n == 0x3000
}

/// A sequence made only of whitespace (the empty sequence included).
pub open spec fn is_blank(s: Seq<char>) -> bool {
    forall|i: int| 0 <= i < s.len() ==> is_ws(#[trigger] s[i])
}

/// `s` without its leading whitespace.
pub open spec fn trim_start(s: Seq<char>) -> Seq<char>
    decreases s.len(),
{
    if s.len() > 0 && is_ws(s[0]) {
        trim_start(s.drop_first())
    } else {
        s
    }
}

/// `s` without its trailing whitespace.
pub open spec fn trim_end(s: Seq<char>) -> Seq<char>
    decreases s.len(),
{
    if s.len() > 0 && is_ws(s.last()) {
        trim_end(s.drop_last())
    } else {
        s
    }
}

/// `s` without leading and trailing whitespace, as `str::trim` gives it.
pub open spec fn trim(s: Seq<char>) -> Seq<char> {
    trim_end(trim_start(s))
}

pub proof fn lemma_trim_start_blank(s: Seq<char>)
    ensures
        trim_start(s).len() == 0 <==> is_blank(s),
        trim_start(s).len() <= s.len(),
    decreases s.len(),
{
    if s.len() > 0 && is_ws(s[0]) {
        lemma_trim_start_blank(s.drop_first());
        if is_blank(s.drop_first()) {
            assert forall|i: int| 0 <= i < s.len() implies is_ws(#[trigger] s[i]) by {
                if i > 0 {
                    assert(s[i] == s.drop_first()[i - 1]);
                }
            }
        }
        if is_blank(s) {
            assert forall|i: int| 0 <= i < s.drop_first().len() implies is_ws(
                #[trigger] s.drop_first()[i],
            ) by {
                assert(s.drop_first()[i] == s[i + 1]);
            }
        }
    } else if s.len() > 0 {
        assert(!is_ws(s[0]));
    }
}

pub proof fn lemma_trim_end_nonempty(s: Seq<char>)
    ensures
        s.len() > 0 ==> trim_end(s).len() > 0 || is_blank(s),
        trim_end(s).len() == 0 ==> is_blank(s),
    decreases s.len(),
{
    if s.len() > 0 && is_ws(s.last()) {
        lemma_trim_end_nonempty(s.drop_last());
        if is_blank(s.drop_last()) {
            assert forall|i: int| 0 <= i < s.len() implies is_ws(#[trigger] s[i]) by {
                if i < s.len() - 1 {
                    assert(s[i] == s.drop_last()[i]);
                }
            }
        }
    }
}

/// Trimming leaves nothing exactly when the sequence is blank.
pub proof fn lemma_trim_empty_iff_blank(s: Seq<char>)
    ensures
        trim(s).len() == 0 <==> is_blank(s),
{
    lemma_trim_start_blank(s);
    lemma_trim_end_nonempty(trim_start(s));
    if trim(s).len() == 0 {
        assert(is_blank(trim_start(s)));
        lemma_trim_start_blank(s);
        lemma_trim_start_blank(trim_start(s));
        lemma_trim_start_idem(s);
    }
}

pub proof fn lemma_trim_start_idem(s: Seq<char>)
    ensures
        is_blank(trim_start(s)) ==> is_blank(s),
    decreases s.len(),
{
    if s.len() > 0 && is_ws(s[0]) {
        lemma_trim_start_idem(s.drop_first());
        if is_blank(s.drop_first()) {
            assert forall|i: int| 0 <= i < s.len() implies is_ws(#[trigger] s[i]) by {
                if i > 0 {
                    assert(s[i] == s.drop_first()[i - 1]);
                }
            }
        }
    }
}

proof fn lemma_trim_start_shape(s: Seq<char>)
    ensures
        trim_start(s).len() > 0 ==> !is_ws(trim_start(s)[0]),
    decreases s.len(),
{
    if s.len() > 0 && is_ws(s[0]) {
        lemma_trim_start_shape(s.drop_first());
    }
}

proof fn lemma_trim_end_shape(s: Seq<char>)
    ensures
        trim_end(s).len() <= s.len(),
        trim_end(s) == s.subrange(0, trim_end(s).len() as int),
        trim_end(s).len() > 0 ==> !is_ws(trim_end(s).last()),
    decreases s.len(),
{
    if s.len() > 0 && is_ws(s.last()) {
        lemma_trim_end_shape(s.drop_last());
        let k = trim_end(s.drop_last()).len() as int;
        assert(s.drop_last().subrange(0, k) =~= s.subrange(0, k));
    } else {
        assert(s.subrange(0, s.len() as int) =~= s);
    }
}

/// Trimming twice is trimming once.
pub proof fn lemma_trim_idem(s: Seq<char>)
    ensures
        trim(trim(s)) == trim(s),
{
    let z = trim_start(s);
    lemma_trim_start_shape(s);
    lemma_trim_end_shape(z);
    let w = trim_end(z);
    if w.len() > 0 {
        assert(w[0] == z[0]);
        assert(trim_start(w) == w);
    } else {
        assert(trim_start(w) == w);
    }
}

/// Tests whether `s` holds only whitespace.
pub fn is_blank_chars(s: &[char]) -> (r: bool)
    ensures
        r == is_blank(s@),
{
    let n: usize = s.len();
    let mut i: usize = 0;
    while i < n
        invariant
            n == s@.len(),
            i <= n,
            forall|j: int| 0 <= j < i ==> is_ws(#[trigger] s@[j]),
        decreases n - i,
    {
        if !char_is_whitespace(s[i]) {
            return false;
        }
        i = i + 1;
    }
    true
}


/// The characters of `s`, in order.
pub fn chars_of(s: &str) -> (r: Vec<char>)
    ensures
        r@ == s@,
{
    let mut r: Vec<char> = Vec::new();
    for c in it: s.chars()
        invariant
            it.seq() == s@,
            r@ == s@.take(it.index() as int),
    {
        r.push(c);
        assert(s@.take(it.index() as int + 1) =~= s@.take(it.index() as int).push(c));
    }
    assert(r@ =~= s@);
    r
}

/// `String::from_iter` over characters: the string made of `v`'s characters.
#[verifier::external_body]
pub(crate) fn string_of(v: &[char]) -> (r: String)
    ensures
        r@ == v@,
{
    v.iter().collect()
}

/// Tests whether `a` holds exactly the characters of `lit`.
pub fn eq_lit(a: &[char], lit: &str) -> (r: bool)
    ensures
        r == (a@ == lit@),
{
    let b = chars_of(lit);
    if a.len() != b.len() {
        return false;
    }
    let n: usize = a.len();
    let mut i: usize = 0;
    while i < n
        invariant
            n == a@.len(),
            n == b@.len(),
            b@ == lit@,
            i <= n,
            forall|j: int| 0 <= j < i ==> a@[j] == b@[j],
        decreases n - i,
    {
        if a[i] != b[i] {
            assert(a@[i as int] != b@[i as int]);
            assert(a@ != b@);
            return false;
        }
        i = i + 1;
    }
    assert(a@ =~= b@);
    true
}

/// Appends the characters of `s` to `out`.
pub fn push_all(out: &mut Vec<char>, s: &[char])
    ensures
        final(out)@ == old(out)@ + s@,
{
    let n: usize = s.len();
    let mut i: usize = 0;
    while i < n
        invariant
            n == s@.len(),
            i <= n,
            out@ == old(out)@ + s@.take(i as int),
        decreases n - i,
    {
        out.push(s[i]);
        i = i + 1;
        assert(s@.take(i as int) =~= s@.take(i - 1) + seq![s@[i - 1]]);
    }
    assert(s@.take(n as int) =~= s@);
}

/// Appends the characters of `lit` to `out`.
pub fn push_lit(out: &mut Vec<char>, lit: &str)
    ensures
        final(out)@ == old(out)@ + lit@,
{
    let v = chars_of(lit);
    push_all(out, v.as_slice());
}


/// A line as `str::lines` gives it: a `'\r'` just before the `'\n'` that ends
/// the line is dropped.
pub open spec fn strip_cr(line: Seq<char>) -> Seq<char> {
    if line.len() > 0 && line.last() == '\r' {
        line.drop_last()
    } else {
        line
    }
}

/// The lines of `s`, where `cur` is the part of the current line read so far;
/// a last line is yielded only when it is not empty.
pub open spec fn lines_from(s: Seq<char>, cur: Seq<char>) -> Seq<Seq<char>>
    decreases s.len(),
{
    if s.len() == 0 {
        if cur.len() == 0 {
            seq![]
        } else {
            seq![cur]
        }
    } else if s[0] == '\n' {
        seq![strip_cr(cur)] + lines_from(s.drop_first(), seq![])
    } else {
        lines_from(s.drop_first(), cur.push(s[0]))
    }
}

/// The lines of `s`, as `str::lines` yields them.
pub open spec fn lines(s: Seq<char>) -> Seq<Seq<char>> {
    lines_from(s, seq![])
}

/// The non-blank lines of `ls`, joined by `'\n'`.
pub open spec fn join_non_blank(ls: Seq<Seq<char>>) -> Seq<char>
    decreases ls.len(),
{
    if ls.len() == 0 {
        seq![]
    } else {
        let prev = join_non_blank(ls.drop_last());
        let line = ls.last();
        if is_blank(line) {
            prev
        } else if prev.len() == 0 {
            line
        } else {
            prev + seq!['\n'] + line
        }
    }
}

/// `s` with its blank lines removed and the others joined by `'\n'`.
pub open spec fn without_empty_lines(s: Seq<char>) -> Seq<char> {
    join_non_blank(lines(s))
}

/// Every line of `ls` is non-blank.
pub open spec fn all_non_blank(ls: Seq<Seq<char>>) -> bool {
    forall|i: int| 0 <= i < ls.len() ==> !is_blank(#[trigger] ls[i])
}

/// `s` holds no line feed.
pub open spec fn no_newline(s: Seq<char>) -> bool {
    !s.contains('\n')
}

proof fn lemma_lines_split(a: Seq<char>, b: Seq<char>, cur: Seq<char>)
    requires
        a.len() > 0,
        a.last() == '\n',
    ensures
        lines_from(a + b, cur) == lines_from(a, cur) + lines_from(b, seq![]),
    decreases a.len(),
{
    assert((a + b).drop_first() =~= a.drop_first() + b);
    if a.len() == 1 {
        assert(a.drop_first() + b =~= b);
        assert(lines_from(a.drop_first(), seq![]) =~= seq![]);
    } else {
        lemma_lines_split(a.drop_first(), b, if a[0] == '\n' { seq![] } else { cur.push(a[0]) });
        if a[0] == '\n' {
            assert(seq![strip_cr(cur)] + (lines_from(a.drop_first(), seq![]) + lines_from(b, seq![]))
                =~= (seq![strip_cr(cur)] + lines_from(a.drop_first(), seq![])) + lines_from(
                b,
                seq![],
            ));
        }
    }
}

proof fn lemma_lines_one(x: Seq<char>, cur: Seq<char>)
    requires
        no_newline(x),
    ensures
        lines_from(x, cur) == (if (cur + x).len() == 0 {
            Seq::<Seq<char>>::empty()
        } else {
            seq![cur + x]
        }),
        lines_from(x.push('\n'), cur) == seq![strip_cr(cur + x)],
    decreases x.len(),
{
    if x.len() == 0 {
        assert(cur + x =~= cur);
        assert(x.push('\n').drop_first() =~= Seq::<char>::empty());
        assert(x.push('\n')[0] == '\n');
        assert(lines_from(x.push('\n').drop_first(), seq![]) =~= Seq::<Seq<char>>::empty());
        assert(seq![strip_cr(cur)] + Seq::<Seq<char>>::empty() =~= seq![strip_cr(cur)]);
    } else {
        assert(x[0] != '\n') by {
            assert(x.contains(x[0]));
        }
        assert(no_newline(x.drop_first())) by {
            if x.drop_first().contains('\n') {
                let k = choose|k: int| 0 <= k < x.drop_first().len() && x.drop_first()[k] == '\n';
                assert(x[k + 1] == '\n');
            }
        }
        lemma_lines_one(x.drop_first(), cur.push(x[0]));
        assert(cur.push(x[0]) + x.drop_first() =~= cur + x);
        assert(x.push('\n').drop_first() =~= x.drop_first().push('\n'));
        assert(x.push('\n')[0] == x[0]);
    }
}

proof fn lemma_strip_cr_non_blank(l: Seq<char>)
    requires
        !is_blank(l),
    ensures
        !is_blank(strip_cr(l)),
{
    let k = choose|k: int| 0 <= k < l.len() && !is_ws(l[k]);
    if l.len() > 0 && l.last() == '\r' {
        assert(k != l.len() - 1);
        assert(strip_cr(l)[k] == l[k]);
    }
}

proof fn lemma_lines_no_newline(s: Seq<char>, cur: Seq<char>)
    requires
        no_newline(cur),
    ensures
        forall|i: int| 0 <= i < lines_from(s, cur).len() ==> no_newline(#[trigger] lines_from(s, cur)[i]),
    decreases s.len(),
{
    if s.len() == 0 {
        if cur.len() > 0 {
            assert(lines_from(s, cur) =~= seq![cur]);
        }
    } else {
        if s[0] == '\n' {
            lemma_lines_no_newline(s.drop_first(), seq![]);
            assert(no_newline(strip_cr(cur))) by {
                if strip_cr(cur).contains('\n') {
                    let k = choose|k: int| 0 <= k < strip_cr(cur).len() && strip_cr(cur)[k] == '\n';
                    assert(cur[k] == '\n');
                }
            }
            assert forall|i: int| 0 <= i < lines_from(s, cur).len() implies no_newline(
                #[trigger] lines_from(s, cur)[i],
            ) by {
                if i > 0 {
                    assert(lines_from(s, cur)[i] == lines_from(s.drop_first(), seq![])[i - 1]);
                }
            }
        } else {
            assert(no_newline(cur.push(s[0]))) by {
                if cur.push(s[0]).contains('\n') {
                    let k = choose|k: int| 0 <= k < cur.push(s[0]).len() && cur.push(s[0])[k] == '\n';
                    if k < cur.len() {
                        assert(cur[k] == '\n');
                    }
                }
            }
            lemma_lines_no_newline(s.drop_first(), cur.push(s[0]));
            assert(lines_from(s, cur) == lines_from(s.drop_first(), cur.push(s[0])));
        }
    }
}

proof fn lemma_join_lines(ls: Seq<Seq<char>>)
    requires
        forall|i: int| 0 <= i < ls.len() ==> no_newline(#[trigger] ls[i]),
    ensures
        all_non_blank(lines(join_non_blank(ls))),
        join_non_blank(ls).len() > 0 ==> all_non_blank(lines(join_non_blank(ls).push('\n'))),
    decreases ls.len(),
{
    if ls.len() > 0 {
        let prev = join_non_blank(ls.drop_last());
        let l = ls.last();
        assert(no_newline(l)) by {
            assert(l == ls[ls.len() - 1]);
        }
        assert forall|i: int| 0 <= i < ls.drop_last().len() implies no_newline(
            #[trigger] ls.drop_last()[i],
        ) by {
            assert(ls.drop_last()[i] == ls[i]);
        }
        lemma_join_lines(ls.drop_last());
        if !is_blank(l) {
            lemma_lines_one(l, seq![]);
            assert(seq![] + l =~= l);
            lemma_strip_cr_non_blank(l);
            assert(l.len() > 0);
            if prev.len() == 0 {
                assert(lines(l) =~= seq![l]);
                assert(lines(l.push('\n')) =~= seq![strip_cr(l)]);
            } else {
                let a = prev.push('\n');
                lemma_lines_split(a, l, seq![]);
                assert(prev + seq!['\n'] + l =~= a + l);
                lemma_lines_split(a, l.push('\n'), seq![]);
                assert((prev + seq!['\n'] + l).push('\n') =~= a + l.push('\n'));
                assert forall|i: int| 0 <= i < lines(a + l).len() implies !is_blank(
                    #[trigger] lines(a + l)[i],
                ) by {
                    if i >= lines(a).len() {
                        assert(lines(a + l)[i] == lines(l)[i - lines(a).len()]);
                    } else {
                        assert(lines(a + l)[i] == lines(a)[i]);
                    }
                }
                assert forall|i: int| 0 <= i < lines(a + l.push('\n')).len() implies !is_blank(
                    #[trigger] lines(a + l.push('\n'))[i],
                ) by {
                    if i >= lines(a).len() {
                        assert(lines(a + l.push('\n'))[i] == lines(l.push('\n'))[i - lines(a).len()]);
                    } else {
                        assert(lines(a + l.push('\n'))[i] == lines(a)[i]);
                    }
                }
            }
        }
    }
}

/// Removing the empty lines leaves none: every line of the result holds a
/// character that is not whitespace.
pub proof fn lemma_no_blank_line_left(s: Seq<char>)
    ensures
        all_non_blank(lines(without_empty_lines(s))),
{
    lemma_lines_no_newline(s, seq![]);
    lemma_join_lines(lines(s));
}

proof fn lemma_lines_from_step(s: Seq<char>, cur: Seq<char>, i: int)
    requires
        0 <= i < s.len(),
    ensures
        s[i] == '\n' ==> lines_from(s.skip(i), cur) == seq![strip_cr(cur)] + lines_from(
            s.skip(i + 1),
            seq![],
        ),
        s[i] != '\n' ==> lines_from(s.skip(i), cur) == lines_from(s.skip(i + 1), cur.push(s[i])),
{
    assert(s.skip(i).drop_first() =~= s.skip(i + 1));
}

proof fn lemma_join_push(ls: Seq<Seq<char>>, line: Seq<char>)
    ensures
        join_non_blank(ls.push(line)) == (if is_blank(line) {
            join_non_blank(ls)
        } else if join_non_blank(ls).len() == 0 {
            line
        } else {
            join_non_blank(ls) + seq!['\n'] + line
        }),
{
    assert(ls.push(line).drop_last() =~= ls);
}

/// Removes the blank lines of `s` and joins the others with `'\n'`.
pub fn remove_empty_lines_chars(s: &[char]) -> (r: Vec<char>)
    ensures
        r@ == without_empty_lines(s@),
{
    let n: usize = s.len();
    let mut out: Vec<char> = Vec::new();
    let mut cur: Vec<char> = Vec::new();
    let ghost mut done: Seq<Seq<char>> = seq![];
    let mut i: usize = 0;
    assert(s@.skip(0) =~= s@);
    while i < n
        invariant
            n == s@.len(),
            i <= n,
            lines(s@) == done + lines_from(s@.skip(i as int), cur@),
            out@ == join_non_blank(done),
        decreases n - i,
    {
        proof {
            lemma_lines_from_step(s@, cur@, i as int);
        }
        if s[i] == '\n' {
            if cur.len() > 0 && cur[cur.len() - 1] == '\r' {
                cur.pop();
            }
            let ghost line = cur@;
            let blank = is_blank_chars(cur.as_slice());
            proof {
                lemma_join_push(done, line);
                assert(done + (seq![line] + lines_from(s@.skip(i + 1), seq![])) =~= done.push(line)
                    + lines_from(s@.skip(i + 1), seq![]));
                done = done.push(line);
            }
            if !blank {
                if out.len() > 0 {
                    out.push('\n');
                }
                push_all(&mut out, cur.as_slice());
            }
            cur = Vec::new();
        } else {
            cur.push(s[i]);
        }
        i = i + 1;
    }
    assert(s@.skip(n as int) =~= seq![]);
    if cur.len() > 0 {
        let ghost line = cur@;
        proof {
            lemma_join_push(done, line);
            assert(done + seq![line] =~= done.push(line));
        }
        if !is_blank_chars(cur.as_slice()) {
            if out.len() > 0 {
                out.push('\n');
            }
            push_all(&mut out, cur.as_slice());
        }
    } else {
        assert(done + seq![] =~= done);
    }
    out
}

/// Removes the blank lines of `content` and joins the others with `'\n'`.
/// It never fails.
pub fn remove_empty_lines(content: String) -> (r: Result<String>)
    ensures
        r matches Ok(s) && s@ == without_empty_lines(content@),
{
    let cs = chars_of(content.as_str());
    let kept = remove_empty_lines_chars(cs.as_slice());
    Ok(string_of(kept.as_slice()))
}

/// True when `s` holds nothing but whitespace.
pub fn is_string_effectively_empty(s: &str) -> (r: bool)
    ensures
        r == is_blank(s@),
{
    let cs = chars_of(s);
    is_blank_chars(cs.as_slice())
}


/// `needle` occurs in `hay` at position `i`.
pub open spec fn occurs_at(hay: Seq<char>, needle: Seq<char>, i: int) -> bool {
    0 <= i && i + needle.len() <= hay.len() && hay.subrange(i, i + needle.len()) == needle
}

/// `needle` occurs somewhere in `hay`, as `str::contains` tests.
pub open spec fn contains_seq(hay: Seq<char>, needle: Seq<char>) -> bool {
    exists|i: int| occurs_at(hay, needle, i)
}

/// Tests whether `needle` occurs at position `i` of `hay`.
pub fn occurs_at_exec(hay: &[char], needle: &[char], i: usize) -> (r: bool)
    ensures
        r == occurs_at(hay@, needle@, i as int),
{
    if needle.len() > hay.len() || i > hay.len() - needle.len() {
        return false;
    }
    let m: usize = needle.len();
    let mut j: usize = 0;
    while j < m
        invariant
            m == needle@.len(),
            i + m <= hay@.len(),
            hay@.len() == hay.len(),
            j <= m,
            forall|k: int| 0 <= k < j ==> hay@[i + k] == needle@[k],
        decreases m - j,
    {
        if hay[i + j] != needle[j] {
            assert(hay@.subrange(i as int, i + m)[j as int] != needle@[j as int]);
            return false;
        }
        j = j + 1;
    }
    assert(hay@.subrange(i as int, i + m) =~= needle@);
    true
}

/// Tests whether `needle` occurs in `hay`.
pub fn contains_chars(hay: &[char], needle: &[char]) -> (r: bool)
    ensures
        r == contains_seq(hay@, needle@),
{
    if needle.len() > hay.len() {
        return false;
    }
    let last: usize = hay.len() - needle.len();
    let mut i: usize = 0;
    while i < last
        invariant
            last == hay@.len() - needle@.len(),
            i <= last,
            forall|k: int| 0 <= k < i ==> !occurs_at(hay@, needle@, k),
        decreases last - i,
    {
        if occurs_at_exec(hay, needle, i) {
            return true;
        }
        i = i + 1;
    }
    if occurs_at_exec(hay, needle, last) {
        return true;
    }
    assert forall|k: int| !occurs_at(hay@, needle@, k) by {
        if 0 <= k && k + needle@.len() <= hay@.len() {
            assert(k <= last);
        }
    }
    false
}

/// Tests whether `lit` occurs in `hay`.
pub fn contains_lit(hay: &[char], lit: &str) -> (r: bool)
    ensures
        r == contains_seq(hay@, lit@),
{
    let needle = chars_of(lit);
    contains_chars(hay, needle.as_slice())
}


/// `c` in ASCII lower case, as `char::to_ascii_lowercase` gives it.
pub open spec fn ascii_lower(c: char) -> char {
    if 'A' <= c && c <= 'Z' {
        ((c as u32) + 32) as char
    } else {
        c
    }
}

/// `s` in ASCII lower case.
pub open spec fn ascii_lower_seq(s: Seq<char>) -> Seq<char> {
    s.map_values(|c: char| ascii_lower(c))
}

/// `c` in ASCII lower case.
pub fn ascii_lower_char(c: char) -> (r: char)
    ensures
        r == ascii_lower(c),
{
    if 'A' <= c && c <= 'Z' {
        let b: u8 = (c as u32) as u8;
        let l: u8 = b + 32;
        l as char
    } else {
        c
    }
}

/// `s` in ASCII lower case.
pub fn ascii_lower_chars(s: &[char]) -> (r: Vec<char>)
    ensures
        r@ == ascii_lower_seq(s@),
{
    let n: usize = s.len();
    let mut r: Vec<char> = Vec::new();
    let mut i: usize = 0;
    while i < n
        invariant
            n == s@.len(),
            i <= n,
            r@ == ascii_lower_seq(s@.take(i as int)),
        decreases n - i,
    {
        r.push(ascii_lower_char(s[i]));
        i = i + 1;
        assert(ascii_lower_seq(s@.take(i as int)) =~= ascii_lower_seq(s@.take(i - 1)).push(
            ascii_lower(s@[i - 1]),
        ));
    }
    assert(s@.take(n as int) =~= s@);
    r
}

/// `a` equals `lit` when both are taken in ASCII lower case, as
/// `str::eq_ignore_ascii_case` tests.
pub open spec fn eq_ignore_ascii_case(a: Seq<char>, lit: Seq<char>) -> bool {
    ascii_lower_seq(a) == ascii_lower_seq(lit)
}

/// Tests `eq_ignore_ascii_case`.
pub fn eq_ignore_ascii_case_lit(a: &[char], lit: &str) -> (r: bool)
    ensures
        r == eq_ignore_ascii_case(a@, lit@),
{
    let la = ascii_lower_chars(a);
    let b = chars_of(lit);
    let lb = ascii_lower_chars(b.as_slice());
    let r = eq_chars(la.as_slice(), lb.as_slice());
    r
}

/// Tests whether `a` and `b` hold the same characters.
pub fn eq_chars(a: &[char], b: &[char]) -> (r: bool)
    ensures
        r == (a@ == b@),
{
    if a.len() != b.len() {
        return false;
    }
    let n: usize = a.len();
    let mut i: usize = 0;
    while i < n
        invariant
            n == a@.len(),
            n == b@.len(),
            i <= n,
            forall|j: int| 0 <= j < i ==> a@[j] == b@[j],
        decreases n - i,
    {
        if a[i] != b[i] {
            assert(a@[i as int] != b@[i as int]);
            return false;
        }
        i = i + 1;
    }
    assert(a@ =~= b@);
    true
}


/// Moves the characters out of `v`, leaving it empty.
pub fn take_chars(v: &mut Vec<char>) -> (r: Vec<char>)
    ensures
        r@ == old(v)@,
        final(v)@ == Seq::<char>::empty(),
{
    let mut r: Vec<char> = Vec::new();
    std::mem::swap(&mut r, v);
    r
}


/// The position of the first character of `s` that is not whitespace
/// (`s.len()` when there is none); `s` from there on is `trim_start(s)`.
pub fn trim_start_index(s: &[char]) -> (r: usize)
    ensures
        r <= s@.len(),
        trim_start(s@) == s@.skip(r as int),
{
    let n: usize = s.len();
    let mut i: usize = 0;
    assert(s@.skip(0) =~= s@);
    while i < n
        invariant
            n == s@.len(),
            i <= n,
            trim_start(s@) == trim_start(s@.skip(i as int)),
        decreases n - i,
    {
        assert(s@.skip(i as int)[0] == s@[i as int]);
        if !char_is_whitespace(s[i]) {
            return i;
        }
        assert(s@.skip(i as int).drop_first() =~= s@.skip(i + 1));
        i = i + 1;
    }
    assert(s@.skip(n as int) =~= Seq::<char>::empty());
    n
}

/// Tests whether `lit` is a prefix of `s`.
pub fn starts_with_lit(s: &[char], lit: &str) -> (r: bool)
    ensures
        r == lit@.is_prefix_of(s@),
{
    let p = chars_of(lit);
    if p.len() > s.len() {
        return false;
    }
    let m: usize = p.len();
    let mut j: usize = 0;
    while j < m
        invariant
            m == p@.len(),
            m <= s@.len(),
            p@ == lit@,
            j <= m,
            forall|k: int| 0 <= k < j ==> s@[k] == p@[k],
        decreases m - j,
    {
        if s[j] != p[j] {
            assert(s@.subrange(0, m as int)[j as int] != p@[j as int]);
            return false;
        }
        j = j + 1;
    }
    assert(p@ =~= s@.subrange(0, m as int));
    true
}


/// `s` without leading and trailing whitespace, as `str::trim` gives it.
pub fn trim_chars(s: &[char]) -> (r: Vec<char>)
    ensures
        r@ == trim(s@),
{
    let a: usize = trim_start_index(s);
    let n: usize = s.len();
    let mut e: usize = n;
    assert(s@.skip(a as int) =~= s@.subrange(a as int, n as int));
    let mut done = false;
    while e > a && !done
        invariant
            a <= e <= n,
            n == s@.len(),
            trim(s@) == trim_end(s@.subrange(a as int, e as int)),
            done ==> e > a && !is_ws(s@[e - 1]),
        decreases e, if done { 0int } else { 1int },
    {
        assert(s@.subrange(a as int, e as int).last() == s@[e - 1]);
        if !char_is_whitespace(s[e - 1]) {
            done = true;
        } else {
            assert(s@.subrange(a as int, e as int).drop_last() =~= s@.subrange(a as int, e - 1));
            e = e - 1;
        }
    }
    assert(trim(s@) == s@.subrange(a as int, e as int)) by {
        if e > a {
            assert(s@.subrange(a as int, e as int).last() == s@[e - 1]);
        }
    }
    let mut r: Vec<char> = Vec::new();
    let mut i: usize = a;
    while i < e
        invariant
            a <= i <= e <= n,
            n == s@.len(),
            r@ == s@.subrange(a as int, i as int),
            trim(s@) == s@.subrange(a as int, e as int),
        decreases e - i,
    {
        r.push(s[i]);
        i = i + 1;
        assert(s@.subrange(a as int, i as int) =~= s@.subrange(a as int, i - 1).push(s@[i - 1]));
    }
    r
}

} // verus!
