//! Character sequences: searching, splitting, lines and trimming.
//!
//! Text is handled as a sequence of characters. Every executable function here
//! works on a slice of characters and is specified by a function on `Seq<char>`.

use vstd::prelude::*;
use vstd::slice::slice_subrange;

verus! {

/// The characters of `s`, in order.
pub fn chars_of(s: &str) -> (out: Vec<char>)
    ensures
        out@ == s@,
{
    let mut out: Vec<char> = Vec::new();
    for c in it: s.chars()
        invariant
            out@ == it.seq().take(it.index() as int),
            it.seq() == s@,
    {
        out.push(c);
    }
    out
}

/// Index of the first occurrence of `c` in `s`; `s.len()` where `c` does not occur.
pub open spec fn first_index(s: Seq<char>, c: char) -> nat
    decreases s.len(),
{
    if s.len() == 0 || s[0] == c {
        0
    } else {
        1 + first_index(s.drop_first(), c)
    }
}

/// `first_index` stays within the sequence, points at `c`, and nothing before it is `c`.
pub proof fn lemma_first_index(s: Seq<char>, c: char)
    ensures
        first_index(s, c) <= s.len(),
        first_index(s, c) < s.len() ==> s[first_index(s, c) as int] == c,
        forall|j: int| 0 <= j < first_index(s, c) ==> s[j] != c,
    decreases s.len(),
{
    if s.len() == 0 || s[0] == c {
    } else {
        lemma_first_index(s.drop_first(), c);
        assert forall|j: int| 0 <= j < first_index(s, c) implies s[j] != c by {
            if j > 0 {
                assert(s[j] == s.drop_first()[j - 1]);
            }
        }
    }
}

/// An index that points at `c` (or at the end) with no `c` before it is the first index.
pub proof fn lemma_first_index_is(s: Seq<char>, c: char, i: int)
    requires
        0 <= i <= s.len(),
        i < s.len() ==> s[i] == c,
        forall|j: int| 0 <= j < i ==> s[j] != c,
    ensures
        first_index(s, c) == i,
{
    lemma_first_index(s, c);
}

/// Finds the first `c` in `s`.
pub fn find(s: &[char], c: char) -> (i: usize)
    ensures
        i == first_index(s@, c),
{
    let mut i: usize = 0;
    while i < s.len() && s[i] != c
        invariant
            i <= s.len(),
            forall|j: int| 0 <= j < i ==> s@[j] != c,
        decreases s.len() - i,
    {
        i += 1;
    }
    proof {
        lemma_first_index_is(s@, c, i as int);
    }
    i
}

/// What stands before the first `sep`; all of `s` where there is none.
pub open spec fn before(s: Seq<char>, sep: char) -> Seq<char> {
    s.take(first_index(s, sep) as int)
}

/// What stands after the first `sep`; `None` where there is none.
pub open spec fn after(s: Seq<char>, sep: char) -> Option<Seq<char>> {
    if first_index(s, sep) < s.len() {
        Some(s.skip(first_index(s, sep) as int + 1))
    } else {
        None
    }
}

/// Cuts `s` at the first `sep`.
pub fn split_once<'a>(s: &'a [char], sep: char) -> (r: (&'a [char], Option<&'a [char]>))
    ensures
        r.0@ == before(s@, sep),
        match r.1 {
            Some(rest) => after(s@, sep) == Some(rest@),
            None => after(s@, sep) is None,
        },
{
    let i = find(s, sep);
    proof {
        lemma_first_index(s@, sep);
    }
    let head = slice_subrange(s, 0, i);
    if i < s.len() {
        (head, Some(slice_subrange(s, i + 1, s.len())))
    } else {
        (head, None)
    }
}

/// The pieces of `s` between occurrences of `sep`: one more than there are occurrences.
pub open spec fn pieces(s: Seq<char>, sep: char) -> Seq<Seq<char>>
    decreases s.len(),
{
    match after(s, sep) {
        Some(rest) => seq![before(s, sep)] + pieces(rest, sep),
        None => seq![s],
    }
}

/// There is always a first piece: what stands before the first `sep`. The other
/// pieces are those of what stands after it.
pub proof fn lemma_pieces_first(s: Seq<char>, sep: char)
    ensures
        pieces(s, sep).len() >= 1,
        pieces(s, sep)[0] == before(s, sep),
        pieces(s, sep).len() == 1 <==> after(s, sep) is None,
        after(s, sep) matches Some(rest) ==> pieces(s, sep).drop_first() == pieces(rest, sep),
{
    lemma_first_index(s, sep);
    match after(s, sep) {
        Some(rest) => {
            assert(pieces(rest, sep).len() >= 1);
            assert(pieces(s, sep).drop_first() =~= pieces(rest, sep));
        },
        None => {
            assert(before(s, sep) =~= s);
        },
    }
}

/// A sequence in which `sep` does not occur is its own and only piece.
pub proof fn lemma_pieces_single(s: Seq<char>, sep: char)
    requires
        first_index(s, sep) == s.len(),
    ensures
        pieces(s, sep) == seq![s],
{
}

/// The pieces of `a`, `sep` and `b` in a row are those of `a` and then those of `b`.
pub proof fn lemma_pieces_joined(a: Seq<char>, b: Seq<char>, sep: char)
    ensures
        pieces(a + seq![sep] + b, sep) == pieces(a, sep) + pieces(b, sep),
    decreases a.len(),
{
    let s = a + seq![sep] + b;
    let i = first_index(a, sep) as int;
    lemma_first_index(a, sep);
    assert forall|j: int| 0 <= j < i implies s[j] != sep by {
        assert(s[j] == a[j]);
    }
    lemma_first_index_is(s, sep, i);
    assert(before(s, sep) =~= before(a, sep));
    if i < a.len() {
        let rest = a.skip(i + 1);
        assert(s.skip(i + 1) =~= rest + seq![sep] + b);
        lemma_pieces_joined(rest, b, sep);
        assert(pieces(s, sep) =~= pieces(a, sep) + pieces(b, sep));
    } else {
        assert(s.skip(i + 1) =~= b);
        assert(before(a, sep) =~= a);
    }
}

/// The views of a list of slices.
pub open spec fn views(parts: Seq<&[char]>) -> Seq<Seq<char>> {
    parts.map_values(|p: &[char]| p@)
}

/// Splits `s` at every `sep`.
pub fn split<'a>(s: &'a [char], sep: char) -> (parts: Vec<&'a [char]>)
    ensures
        views(parts@) == pieces(s@, sep),
{
    let mut parts: Vec<&'a [char]> = Vec::new();
    let mut rest: &'a [char] = s;
    loop
        invariant_except_break
            pieces(s@, sep) == views(parts@) + pieces(rest@, sep),
        ensures
            views(parts@) == pieces(s@, sep),
        decreases rest@.len(),
    {
        let (head, tail) = split_once(rest, sep);
        let ghost done = parts@;
        parts.push(head);
        proof {
            assert(views(parts@) =~= views(done).push(head@));
            lemma_first_index(rest@, sep);
        }
        match tail {
            Some(next) => {
                proof {
                    assert(views(done) + (seq![head@] + pieces(next@, sep)) =~= views(parts@)
                        + pieces(next@, sep));
                }
                rest = next;
            },
            None => {
                proof {
                    assert(head@ =~= rest@);
                    assert(views(done) + seq![rest@] =~= views(parts@));
                }
                break ;
            },
        }
    }
    parts
}

/// `s` without one carriage return at its end.
pub open spec fn without_cr(s: Seq<char>) -> Seq<char> {
    if s.len() > 0 && s.last() == '\r' {
        s.drop_last()
    } else {
        s
    }
}

/// The lines of `s`. A line ends with a line feed, or with a carriage return and a
/// line feed, neither of which belongs to it; the last line need not be ended.
pub open spec fn lines(s: Seq<char>) -> Seq<Seq<char>> {
    let parts = pieces(s, '\n');
    let ended = parts.drop_last().map_values(|p: Seq<char>| without_cr(p));
    if parts.last().len() == 0 {
        ended
    } else {
        ended.push(parts.last())
    }
}

/// The last sequence in `ls` that has a character; empty if there is none.
pub open spec fn last_nonempty(ls: Seq<Seq<char>>) -> Seq<char>
    decreases ls.len(),
{
    if ls.len() == 0 {
        Seq::empty()
    } else if ls.last().len() > 0 {
        ls.last()
    } else {
        last_nonempty(ls.drop_last())
    }
}

/// The last non-empty line of `s`; empty if `s` has none.
pub open spec fn final_line(s: Seq<char>) -> Seq<char> {
    last_nonempty(lines(s))
}

/// A line with a character in it and no line feed is the last non-empty line of
/// itself, and of every text that ends with a line feed and this line.
pub proof fn lemma_final_line(earlier: Seq<char>, line: Seq<char>)
    requires
        line.len() > 0,
        first_index(line, '\n') == line.len(),
    ensures
        final_line(line) == line,
        final_line(earlier + seq!['\n'] + line) == line,
{
    lemma_pieces_single(line, '\n');
    lemma_pieces_joined(earlier, line, '\n');
    assert(seq![line].last() == line);
    assert((pieces(earlier, '\n') + seq![line]).last() == line);
}

/// Removes one carriage return from the end of `s`, if there is one.
pub fn strip_cr<'a>(s: &'a [char]) -> (out: &'a [char])
    ensures
        out@ == without_cr(s@),
{
    let n = s.len();
    if n > 0 && s[n - 1] == '\r' {
        slice_subrange(s, 0, n - 1)
    } else {
        s
    }
}

/// Picks the last non-empty line of `s`.
pub fn last_line<'a>(s: &'a [char]) -> (line: &'a [char])
    ensures
        line@ == final_line(s@),
{
    let parts = split(s, '\n');
    proof {
        lemma_pieces_first(s@, '\n');
    }
    let n = parts.len();
    let ghost all = pieces(s@, '\n');
    let ghost ended = all.drop_last().map_values(|p: Seq<char>| without_cr(p));
    let last = parts[n - 1];
    assert(last@ == all.last());
    if last.len() > 0 {
        proof {
            assert(ended.push(last@).drop_last() =~= ended);
        }
        return last;
    }
    let mut k: usize = n - 1;
    proof {
        assert(ended.take(k as int) =~= ended);
    }
    while k > 0
        invariant
            k <= n - 1,
            n == parts.len(),
            views(parts@) == all,
            ended == all.drop_last().map_values(|p: Seq<char>| without_cr(p)),
            final_line(s@) == last_nonempty(ended.take(k as int)),
        decreases k,
    {
        k -= 1;
        let line = strip_cr(parts[k]);
        proof {
            let upto = ended.take(k + 1);
            assert(upto.last() == line@);
            assert(upto.drop_last() =~= ended.take(k as int));
        }
        if line.len() > 0 {
            return line;
        }
    }
    slice_subrange(s, 0, 0)
}

/// Whether `c` is white space: a character with the Unicode property `White_Space`.
pub open spec fn white_space(c: char) -> bool {
    ||| c == ' '
    ||| '\u{9}' <= c <= '\u{d}'
    ||| c == '\u{85}'
    ||| c == '\u{a0}'
    ||| c == '\u{1680}'
    ||| '\u{2000}' <= c <= '\u{200a}'
    ||| c == '\u{2028}'
    ||| c == '\u{2029}'
    ||| c == '\u{202f}'
    ||| c == '\u{205f}'
    ||| c == '\u{3000}'
}

/// Tests whether `c` is white space.
pub fn is_whitespace(c: char) -> (b: bool)
    ensures
        b == white_space(c),
{
    c == ' ' || ('\u{9}' <= c && c <= '\u{d}') || c == '\u{85}' || c == '\u{a0}' || c
        == '\u{1680}' || ('\u{2000}' <= c && c <= '\u{200a}') || c == '\u{2028}' || c
        == '\u{2029}' || c == '\u{202f}' || c == '\u{205f}' || c == '\u{3000}'
}

/// `s` without the white space at its start.
pub open spec fn trimmed_start(s: Seq<char>) -> Seq<char>
    decreases s.len(),
{
    if s.len() > 0 && white_space(s[0]) {
        trimmed_start(s.drop_first())
    } else {
        s
    }
}

/// `s` without the white space at its end.
pub open spec fn trimmed_end(s: Seq<char>) -> Seq<char>
    decreases s.len(),
{
    if s.len() > 0 && white_space(s.last()) {
        trimmed_end(s.drop_last())
    } else {
        s
    }
}

/// `s` without the white space at its start and at its end.
pub open spec fn trimmed(s: Seq<char>) -> Seq<char> {
    trimmed_end(trimmed_start(s))
}

/// Removes the white space at both ends of `s`.
pub fn trim<'a>(s: &'a [char]) -> (out: &'a [char])
    ensures
        out@ == trimmed(s@),
{
    let n = s.len();
    let mut i: usize = 0;
    assert(s@.skip(0) =~= s@);
    while i < n && is_whitespace(s[i])
        invariant
            i <= n,
            n == s@.len(),
            trimmed_start(s@) == trimmed_start(s@.skip(i as int)),
        decreases n - i,
    {
        proof {
            assert(s@.skip(i as int).drop_first() =~= s@.skip(i + 1));
        }
        i += 1;
    }
    assert(s@.skip(i as int) =~= s@.subrange(i as int, n as int));
    let mut j: usize = n;
    while j > i && is_whitespace(s[j - 1])
        invariant
            i <= j <= n,
            n == s@.len(),
            trimmed(s@) == trimmed_end(s@.subrange(i as int, j as int)),
        decreases j,
    {
        proof {
            assert(s@.subrange(i as int, j as int).drop_last() =~= s@.subrange(
                i as int,
                j - 1,
            ));
        }
        j -= 1;
    }
    slice_subrange(s, i, j)
}

/// Whether `s` begins with `prefix`.
pub open spec fn has_prefix(s: Seq<char>, prefix: Seq<char>) -> bool {
    prefix.len() <= s.len() && s.take(prefix.len() as int) == prefix
}

/// Tests whether `s` begins with the characters of `prefix`.
pub fn starts_with(s: &[char], prefix: &str) -> (b: bool)
    ensures
        b == has_prefix(s@, prefix@),
{
    let p = chars_of(prefix);
    if p.len() > s.len() {
        return false;
    }
    let mut i: usize = 0;
    while i < p.len()
        invariant
            i <= p.len() <= s.len(),
            p@ == prefix@,
            forall|j: int| 0 <= j < i ==> s@[j] == p@[j],
        decreases p.len() - i,
    {
        if s[i] != p[i] {
            assert(s@.take(p.len() as int)[i as int] != p@[i as int]);
            return false;
        }
        i += 1;
    }
    assert(s@.take(p.len() as int) =~= p@);
    true
}

/// Tests whether `s` holds exactly the characters of `word`.
pub fn equals(s: &[char], word: &str) -> (b: bool)
    ensures
        b == (s@ == word@),
{
    let b = starts_with(s, word);
    proof {
        if s@.len() == word@.len() {
            assert(s@.take(word@.len() as int) =~= s@);
        }
    }
    b && s.len() == word.unicode_len()
}

} // verus!
