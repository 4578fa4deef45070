//! Character-level text handling: trimming, splitting on a separator,
//! splitting on whitespace runs, and breaking text into lines.
//!
//! Every operation works on the text as a sequence of `char`s and is
//! specified by a spec function over `Seq<char>`.
use vstd::prelude::*;

verus! {

/// `String::push` appends one character to the end of the string.
pub assume_specification[ String::push ](s: &mut String, ch: char)
    ensures
        final(s)@ == old(s)@.push(ch),
;

/// The characters with the Unicode `White_Space` property.
pub open spec fn is_white_space(c: char) -> bool {
    let u = c as u32;
    ||| (0x9 <= u && u <= 0xd)
    ||| u == 0x20
    ||| u == 0x85
    ||| u == 0xa0
    ||| u == 0x1680
    ||| (0x2000 <= u && u <= 0x200a)
    ||| u == 0x2028
    ||| u == 0x2029
    ||| u == 0x202f
    ||| u == 0x205f
    ||| u == 0x3000
}

/// Calls `char::is_whitespace`, which std documents as "the character has
/// the Unicode `White_Space` property"; the contract lists those characters.
#[verifier::external_body]
pub(crate) fn char_is_whitespace(c: char) -> (r: bool)
    ensures
        r == is_white_space(c),
{
    c.is_whitespace()
}

/// The views of a sequence of character vectors.
pub open spec fn views(v: Seq<Vec<char>>) -> Seq<Seq<char>> {
    v.map_values(|x: Vec<char>| x@)
}

/// The views of a sequence of strings.
pub open spec fn string_views(v: Seq<String>) -> Seq<Seq<char>> {
    v.map_values(|x: String| x@)
}

/// The characters of a string slice.
pub fn chars_of(s: &str) -> (v: Vec<char>)
    ensures
        v@ == s@,
{
    let mut v: Vec<char> = Vec::new();
    for c in it: s.chars()
        invariant
            v@ == it.seq().take(it.index()),
    {
        v.push(c);
    }
    v
}

/// A string made of the characters `cs[from..to]`.
pub fn string_of_range(cs: &Vec<char>, from: usize, to: usize) -> (s: String)
    requires
        from <= to <= cs@.len(),
    ensures
        s@ == cs@.subrange(from as int, to as int),
{
    let mut s = String::new();
    let mut i = from;
    while i < to
        invariant
            from <= i <= to <= cs@.len(),
            s@ == cs@.subrange(from as int, i as int),
        decreases to - i,
    {
        s.push(cs[i]);
        i += 1;
        assert(s@ =~= cs@.subrange(from as int, i as int));
    }
    s
}

/// A string made of the characters `cs`.
pub fn string_of(cs: &Vec<char>) -> (s: String)
    ensures
        s@ == cs@,
{
    let s = string_of_range(cs, 0, cs.len());
    assert(cs@.subrange(0, cs@.len() as int) =~= cs@);
    s
}

/// Whether two texts are equal, character by character.
pub fn same_text(a: &str, b: &str) -> (r: bool)
    ensures
        r == (a@ == b@),
{
    let x = String::from_str(a);
    let y = String::from_str(b);
    x == y
}

/// Appends `t` to `s`.
pub fn push_text(s: &mut String, t: &str)
    ensures
        final(s)@ == old(s)@ + t@,
{
    s.append(t);
}

// ---------------------------------------------------------------- prefixes

/// `p` is a prefix of `s`.
pub open spec fn starts_with_spec(s: Seq<char>, p: Seq<char>) -> bool {
    p.len() <= s.len() && s.take(p.len() as int) == p
}

/// Whether `s` starts with `p`.
pub fn starts_with(s: &str, p: &str) -> (r: bool)
    ensures
        r == starts_with_spec(s@, p@),
{
    let cs = chars_of(s);
    let ps = chars_of(p);
    if ps.len() > cs.len() {
        return false;
    }
    let mut i: usize = 0;
    while i < ps.len()
        invariant
            i <= ps@.len() <= cs@.len(),
            cs@ == s@,
            ps@ == p@,
            cs@.take(i as int) == ps@.take(i as int),
        decreases ps.len() - i,
    {
        if cs[i] != ps[i] {
            assert(cs@.take(ps@.len() as int)[i as int] != ps@[i as int]);
            return false;
        }
        i += 1;
        assert(cs@.take(i as int) =~= ps@.take(i as int));
    }
    assert(ps@.take(ps@.len() as int) =~= ps@);
    true
}

/// `p` occurs somewhere in `s`.
pub open spec fn contains_spec(s: Seq<char>, p: Seq<char>) -> bool {
    exists|i: int| 0 <= i && i + p.len() <= s.len() && #[trigger] s.subrange(i, i + p.len()) == p
}

/// Whether `p` occurs somewhere in `s`.
pub fn contains(s: &str, p: &str) -> (r: bool)
    ensures
        r == contains_spec(s@, p@),
{
    let cs = chars_of(s);
    let ps = chars_of(p);
    let n = cs.len();
    let m = ps.len();
    if m > n {
        assert forall|i: int| 0 <= i && i + p@.len() <= s@.len() implies #[trigger] s@.subrange(
            i,
            i + p@.len(),
        ) != p@ by {}
        return false;
    }
    let mut i: usize = 0;
    while i <= n - m
        invariant
            m <= n,
            cs@ == s@,
            ps@ == p@,
            n == cs@.len(),
            m == ps@.len(),
            i <= n - m + 1,
            forall|k: int| 0 <= k < i ==> #[trigger] cs@.subrange(k, k + m) != ps@,
        decreases n - m + 1 - i,
    {
        let mut j: usize = 0;
        let mut same = true;
        assert(cs@.subrange(i as int, i as int) =~= ps@.take(0));
        while j < m
            invariant
                i + m <= n,
                n == cs@.len(),
                m == ps@.len(),
                j <= m,
                same == (cs@.subrange(i as int, i + j) == ps@.take(j as int)),
            decreases m - j,
        {
            if same && cs[i + j] != ps[j] {
                same = false;
                assert(cs@.subrange(i as int, i + j + 1)[j as int] != ps@.take(j + 1)[j as int]);
            } else if same {
                assert(cs@.subrange(i as int, i + j + 1) =~= ps@.take(j + 1));
            } else {
                assert(cs@.subrange(i as int, i + j) =~= cs@.subrange(i as int, i + j + 1).take(
                    j as int,
                ));
                assert(ps@.take(j as int) =~= ps@.take(j + 1).take(j as int));
            }
            j += 1;
        }
        assert(ps@.take(m as int) =~= ps@);
        if same {
            assert(cs@.subrange(i as int, i + m) == ps@);
            return true;
        }
        i += 1;
    }
    assert forall|k: int| 0 <= k && k + p@.len() <= s@.len() implies #[trigger] s@.subrange(
        k,
        k + p@.len(),
    ) != p@ by {
        assert(cs@.subrange(k, k + m) != ps@);
    }
    false
}

// ---------------------------------------------------------------- trimming

/// The text without its leading white space.
pub open spec fn trim_start_spec(s: Seq<char>) -> Seq<char>
    decreases s.len(),
{
    if s.len() > 0 && is_white_space(s[0]) {
        trim_start_spec(s.drop_first())
    } else {
        s
    }
}

/// The text without its trailing white space.
pub open spec fn trim_end_spec(s: Seq<char>) -> Seq<char>
    decreases s.len(),
{
    if s.len() > 0 && is_white_space(s.last()) {
        trim_end_spec(s.drop_last())
    } else {
        s
    }
}

/// The text without leading and trailing white space (as `str::trim`).
pub open spec fn trim_spec(s: Seq<char>) -> Seq<char> {
    trim_end_spec(trim_start_spec(s))
}

proof fn lemma_trim_start(s: Seq<char>, i: int)
    requires
        0 <= i <= s.len(),
        forall|j: int| 0 <= j < i ==> is_white_space(#[trigger] s[j]),
        i == s.len() || !is_white_space(s[i]),
    ensures
        trim_start_spec(s) == s.skip(i),
    decreases i,
{
    if i == 0 {
        assert(s.skip(0) =~= s);
    } else {
        let t = s.drop_first();
        assert forall|j: int| 0 <= j < i - 1 implies is_white_space(#[trigger] t[j]) by {
            assert(t[j] == s[j + 1]);
        }
        lemma_trim_start(t, i - 1);
        assert(t.skip(i - 1) =~= s.skip(i));
    }
}

proof fn lemma_trim_end(s: Seq<char>, j: int)
    requires
        0 <= j <= s.len(),
        forall|k: int| j <= k < s.len() ==> is_white_space(#[trigger] s[k]),
        j == 0 || !is_white_space(s[j - 1]),
    ensures
        trim_end_spec(s) == s.take(j),
    decreases s.len() - j,
{
    if j == s.len() {
        assert(s.take(j) =~= s);
    } else {
        let t = s.drop_last();
        assert forall|k: int| j <= k < t.len() implies is_white_space(#[trigger] t[k]) by {
            assert(t[k] == s[k]);
        }
        lemma_trim_end(t, j);
        assert(t.take(j) =~= s.take(j));
    }
}

/// The bounds `[i, j)` of the trimmed part of `cs`.
fn trim_bounds(cs: &Vec<char>) -> (r: (usize, usize))
    ensures
        r.0 <= r.1 <= cs@.len(),
        trim_spec(cs@) == cs@.subrange(r.0 as int, r.1 as int),
{
    let n = cs.len();
    let mut i: usize = 0;
    while i < n && char_is_whitespace(cs[i])
        invariant
            i <= n == cs@.len(),
            forall|k: int| 0 <= k < i ==> is_white_space(#[trigger] cs@[k]),
        decreases n - i,
    {
        i += 1;
    }
    let mut j: usize = n;
    while j > i && char_is_whitespace(cs[j - 1])
        invariant
            i <= j <= n == cs@.len(),
            forall|k: int| j <= k < n ==> is_white_space(#[trigger] cs@[k]),
        decreases j - i,
    {
        j -= 1;
    }
    proof {
        lemma_trim_start(cs@, i as int);
        let t = cs@.skip(i as int);
        assert forall|k: int| j - i <= k < t.len() implies is_white_space(#[trigger] t[k]) by {
            assert(t[k] == cs@[k + i]);
        }
        if j > i {
            assert(t[j - i - 1] == cs@[j - 1]);
        }
        lemma_trim_end(t, j - i);
        assert(t.take(j - i) =~= cs@.subrange(i as int, j as int));
    }
    (i, j)
}

/// The characters of `cs` without leading and trailing white space.
pub fn trim_chars(cs: &Vec<char>) -> (r: Vec<char>)
    ensures
        r@ == trim_spec(cs@),
{
    let (i, j) = trim_bounds(cs);
    let mut r: Vec<char> = Vec::new();
    let mut k = i;
    while k < j
        invariant
            i <= k <= j <= cs@.len(),
            r@ == cs@.subrange(i as int, k as int),
        decreases j - k,
    {
        r.push(cs[k]);
        k += 1;
        assert(r@ =~= cs@.subrange(i as int, k as int));
    }
    r
}

/// The text without leading and trailing white space, as `str::trim`.
pub fn trim(s: &str) -> (r: String)
    ensures
        r@ == trim_spec(s@),
{
    let cs = chars_of(s);
    let (i, j) = trim_bounds(&cs);
    string_of_range(&cs, i, j)
}

// ---------------------------------------------------------------- splitting

/// The pieces of `s` between occurrences of `sep`, as `str::split` with a
/// character pattern: there is always at least one piece, and an empty text
/// gives one empty piece.
pub open spec fn split_spec(s: Seq<char>, sep: char) -> Seq<Seq<char>>
    decreases s.len(),
{
    if s.len() == 0 {
        seq![Seq::<char>::empty()]
    } else {
        let prev = split_spec(s.drop_last(), sep);
        if s.last() == sep {
            prev.push(Seq::<char>::empty())
        } else {
            prev.update(prev.len() - 1, prev.last().push(s.last()))
        }
    }
}

pub proof fn lemma_split_len(s: Seq<char>, sep: char)
    ensures
        split_spec(s, sep).len() >= 1,
    decreases s.len(),
{
    if s.len() > 0 {
        lemma_split_len(s.drop_last(), sep);
    }
}

/// Splitting `x + y`, where `y` holds no separator, extends the last piece of `x` by `y`.
pub proof fn lemma_split_append_plain(x: Seq<char>, y: Seq<char>, sep: char)
    requires
        !y.contains(sep),
    ensures
        split_spec(x + y, sep) == split_spec(x, sep).update(
            split_spec(x, sep).len() - 1,
            split_spec(x, sep).last() + y,
        ),
    decreases y.len(),
{
    lemma_split_len(x, sep);
    if y.len() == 0 {
        assert(x + y =~= x);
        assert(split_spec(x, sep).last() + y =~= split_spec(x, sep).last());
        assert(split_spec(x, sep).update(split_spec(x, sep).len() - 1, split_spec(x, sep).last())
            =~= split_spec(x, sep));
    } else {
        let y0 = y.drop_last();
        assert(!y0.contains(sep)) by {
            if y0.contains(sep) {
                let k = choose|k: int| 0 <= k < y0.len() && y0[k] == sep;
                assert(y[k] == sep);
            }
        }
        lemma_split_append_plain(x, y0, sep);
        assert((x + y).drop_last() =~= x + y0);
        assert(y.last() != sep) by {
            assert(y[y.len() - 1] == y.last());
        }
        lemma_split_len(x + y0, sep);
        let sx = split_spec(x, sep);
        let prev = split_spec(x + y0, sep);
        assert(prev.len() == sx.len());
        assert(prev.last() == sx.last() + y0);
        assert(prev.last().push(y.last()) =~= sx.last() + y);
        assert((x + y).last() == y.last());
        assert(split_spec(x + y, sep) =~= split_spec(x, sep).update(
            split_spec(x, sep).len() - 1,
            split_spec(x, sep).last() + y,
        ));
    }
}

/// Splitting a text that ends in the separator adds an empty piece.
pub proof fn lemma_split_push_sep(x: Seq<char>, sep: char)
    ensures
        split_spec(x.push(sep), sep) == split_spec(x, sep).push(Seq::<char>::empty()),
{
    assert(x.push(sep).drop_last() =~= x);
}

/// The pieces of `cs` between occurrences of `sep`.
pub fn split_chars(cs: &Vec<char>, sep: char) -> (r: Vec<Vec<char>>)
    ensures
        views(r@) == split_spec(cs@, sep),
{
    let mut parts: Vec<Vec<char>> = Vec::new();
    let mut cur: Vec<char> = Vec::new();
    let n = cs.len();
    let mut i: usize = 0;
    while i < n
        invariant
            i <= n == cs@.len(),
            views(parts@).push(cur@) == split_spec(cs@.take(i as int), sep),
        decreases n - i,
    {
        let c = cs[i];
        proof {
            assert(cs@.take(i + 1).drop_last() =~= cs@.take(i as int));
            lemma_split_len(cs@.take(i as int), sep);
        }
        if c == sep {
            let ghost old_parts = parts@;
            parts.push(cur);
            cur = Vec::new();
            assert(views(parts@) =~= views(old_parts).push(views(parts@).last()));
            assert(views(parts@).push(cur@) =~= split_spec(cs@.take(i + 1), sep));
        } else {
            cur.push(c);
            assert(views(parts@).push(cur@) =~= split_spec(cs@.take(i + 1), sep));
        }
        i += 1;
    }
    let ghost old_parts = parts@;
    parts.push(cur);
    assert(cs@.take(n as int) =~= cs@);
    assert(views(parts@) =~= views(old_parts).push(views(parts@).last()));
    parts
}

// ---------------------------------------------------------------- whitespace tokens

/// The maximal runs of non-white-space characters of `s`, as
/// `str::split_whitespace`.
pub open spec fn tokens_spec(s: Seq<char>) -> Seq<Seq<char>>
    decreases s.len(),
{
    if s.len() == 0 {
        Seq::<Seq<char>>::empty()
    } else {
        let prev = tokens_spec(s.drop_last());
        let c = s.last();
        if is_white_space(c) {
            prev
        } else if s.len() >= 2 && !is_white_space(s[s.len() - 2]) {
            prev.update(prev.len() - 1, prev.last().push(c))
        } else {
            prev.push(seq![c])
        }
    }
}

proof fn lemma_tokens_nonempty(s: Seq<char>)
    requires
        s.len() >= 1,
        !is_white_space(s.last()),
    ensures
        tokens_spec(s).len() >= 1,
    decreases s.len(),
{
    let t = s.drop_last();
    if s.len() >= 2 && !is_white_space(s[s.len() - 2]) {
        assert(t.last() == s[s.len() - 2]);
        lemma_tokens_nonempty(t);
    }
}

/// Law: every piece of a white-space split is a non-empty run of
/// characters none of which is white space.
pub proof fn law_tokens_are_nonempty_runs(s: Seq<char>)
    ensures
        forall|i: int|
            0 <= i < tokens_spec(s).len() ==> #[trigger] tokens_spec(s)[i].len() > 0 && forall|
                k: int,
            |
                0 <= k < tokens_spec(s)[i].len() ==> !is_white_space(
                    #[trigger] tokens_spec(s)[i][k],
                ),
    decreases s.len(),
{
    if s.len() > 0 {
        let t = s.drop_last();
        law_tokens_are_nonempty_runs(t);
        let c = s.last();
        if !is_white_space(c) && s.len() >= 2 && !is_white_space(s[s.len() - 2]) {
            assert(t.last() == s[s.len() - 2]);
            lemma_tokens_nonempty(t);
            let prev = tokens_spec(t);
            let last = prev.last().push(c);
            assert forall|k: int| 0 <= k < last.len() implies !is_white_space(#[trigger] last[k]) by {
                if k < last.len() - 1 {
                    assert(last[k] == prev[prev.len() - 1][k]);
                }
            }
        }
    }
}

/// Law: no piece of a split holds the separator.
pub proof fn law_split_pieces_lack_separator(s: Seq<char>, sep: char)
    ensures
        forall|i: int| 0 <= i < split_spec(s, sep).len() ==> !(#[trigger] split_spec(s, sep)[i]).contains(sep),
    decreases s.len(),
{
    if s.len() > 0 {
        let t = s.drop_last();
        law_split_pieces_lack_separator(t, sep);
        lemma_split_len(t, sep);
        let prev = split_spec(t, sep);
        let c = s.last();
        if c != sep {
            let last = prev.last().push(c);
            assert(!prev[prev.len() - 1].contains(sep));
            assert(!last.contains(sep)) by {
                if last.contains(sep) {
                    let k = choose|k: int| 0 <= k < last.len() && last[k] == sep;
                    assert(prev[prev.len() - 1][k] == sep);
                }
            }
        } else {
            assert(!Seq::<char>::empty().contains(sep));
        }
    }
}

/// Law: no line holds a line feed.
pub proof fn law_lines_lack_newline(s: Seq<char>)
    ensures
        forall|i: int| 0 <= i < lines_spec(s).len() ==> !(#[trigger] lines_spec(s)[i]).contains('\n'),
{
    let parts = split_spec(s, '\n');
    law_split_pieces_lack_separator(s, '\n');
    lemma_split_len(s, '\n');
    assert forall|i: int| 0 <= i < lines_spec(s).len() implies !(#[trigger] lines_spec(s)[i]).contains(
        '\n',
    ) by {
        let l = lines_spec(s)[i];
        assert(!parts[i].contains('\n'));
        if l.contains('\n') {
            let k = choose|k: int| 0 <= k < l.len() && l[k] == '\n';
            assert(parts[i][k] == '\n');
        }
    }
}

/// The maximal runs of non-white-space characters of `cs`.
pub fn tokens_of(cs: &Vec<char>) -> (r: Vec<Vec<char>>)
    ensures
        views(r@) == tokens_spec(cs@),
{
    let mut toks: Vec<Vec<char>> = Vec::new();
    let mut cur: Vec<char> = Vec::new();
    let mut in_token = false;
    let n = cs.len();
    let mut i: usize = 0;
    while i < n
        invariant
            i <= n == cs@.len(),
            in_token == (i > 0 && !is_white_space(cs@[i - 1])),
            in_token ==> views(toks@).push(cur@) == tokens_spec(cs@.take(i as int)),
            !in_token ==> views(toks@) == tokens_spec(cs@.take(i as int)),
        decreases n - i,
    {
        let c = cs[i];
        let ws = char_is_whitespace(c);
        let ghost pre = cs@.take(i as int);
        proof {
            assert(cs@.take(i + 1).drop_last() =~= pre);
            assert(cs@.take(i + 1).last() == c);
            if i > 0 {
                assert(cs@.take(i + 1)[i - 1] == cs@[i - 1]);
            }
        }
        if ws {
            if in_token {
                let ghost old_toks = toks@;
                toks.push(cur);
                cur = Vec::new();
                assert(views(toks@) =~= views(old_toks).push(views(toks@).last()));
            }
            in_token = false;
        } else {
            if in_token {
                cur.push(c);
                proof {
                    lemma_tokens_nonempty(pre);
                }
                assert(views(toks@).push(cur@) =~= tokens_spec(cs@.take(i + 1)));
            } else {
                cur = Vec::new();
                cur.push(c);
                assert(views(toks@).push(cur@) =~= tokens_spec(cs@.take(i + 1)));
            }
            in_token = true;
        }
        i += 1;
    }
    assert(cs@.take(n as int) =~= cs@);
    if in_token {
        let ghost old_toks = toks@;
        toks.push(cur);
        assert(views(toks@) =~= views(old_toks).push(views(toks@).last()));
    }
    toks
}

// ---------------------------------------------------------------- lines

/// A line without the one carriage return that may end it.
pub open spec fn strip_cr(s: Seq<char>) -> Seq<char> {
    if s.len() > 0 && s.last() == '\r' {
        s.drop_last()
    } else {
        s
    }
}

/// The lines of `s`, as `str::lines`: split at `\n`; a final empty piece
/// (after a closing `\n`, or of an empty text) is not a line; a line ended
/// by `\n` loses one `\r` before it.
pub open spec fn lines_spec(s: Seq<char>) -> Seq<Seq<char>> {
    let parts = split_spec(s, '\n');
    let n = if parts.last().len() == 0 {
        parts.len() - 1
    } else {
        parts.len() as int
    };
    Seq::new(
        n as nat,
        |i: int|
            if i < parts.len() - 1 {
                strip_cr(parts[i])
            } else {
                parts[i]
            },
    )
}

/// The lines of `cs`, as `str::lines`.
pub fn lines_of(cs: &Vec<char>) -> (r: Vec<Vec<char>>)
    ensures
        views(r@) == lines_spec(cs@),
{
    let parts = split_chars(cs, '\n');
    proof {
        lemma_split_len(cs@, '\n');
    }
    let total = parts.len();
    let n = if parts[total - 1].len() == 0 {
        total - 1
    } else {
        total
    };
    let ghost spec_lines = lines_spec(cs@);
    let mut r: Vec<Vec<char>> = Vec::new();
    let mut i: usize = 0;
    while i < n
        invariant
            n <= total == parts@.len(),
            views(parts@) == split_spec(cs@, '\n'),
            spec_lines == lines_spec(cs@),
            spec_lines.len() == n,
            i <= n,
            views(r@) == spec_lines.take(i as int),
        decreases n - i,
    {
        let p = &parts[i];
        let plen = p.len();
        let mut line: Vec<char> = Vec::new();
        let keep = if i + 1 < total && plen > 0 && p[plen - 1] == '\r' {
            plen - 1
        } else {
            plen
        };
        let mut k: usize = 0;
        while k < keep
            invariant
                keep <= plen == p@.len(),
                k <= keep,
                line@ == p@.take(k as int),
            decreases keep - k,
        {
            line.push(p[k]);
            k += 1;
            assert(line@ =~= p@.take(k as int));
        }
        proof {
            assert(views(parts@)[i as int] == p@);
            if i + 1 < total {
                if plen > 0 && p@[plen - 1] == '\r' {
                    assert(line@ =~= strip_cr(p@));
                } else {
                    assert(line@ =~= strip_cr(p@));
                }
            } else {
                assert(line@ =~= p@);
            }
            assert(line@ == spec_lines[i as int]);
        }
        let ghost old_r = r@;
        r.push(line);
        i += 1;
        assert(views(r@) =~= views(old_r).push(line@));
        assert(views(r@) =~= spec_lines.take(i as int));
    }
    assert(spec_lines.take(n as int) =~= spec_lines);
    r
}

} // verus!
