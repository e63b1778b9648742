//! Character-level operations on text: search, trimming, splitting and joining.
//!
//! Every text is modelled by its view, the sequence of its characters. A list
//! of texts (`Vec<String>`) is modelled by its deep view, a sequence of such
//! sequences.

use vstd::prelude::*;

verus! {

/// `c` is white space: one of the twenty-five characters that have the Unicode
/// property White_Space.
pub open spec fn white_space(c: char) -> bool {
    let code = c as u32;
    ||| 0x0009 <= code <= 0x000D
    ||| code == 0x0020
    ||| code == 0x0085
    ||| code == 0x00A0
    ||| code == 0x1680
    ||| 0x2000 <= code <= 0x200A
    ||| code == 0x2028
    ||| code == 0x2029
    ||| code == 0x202F
    ||| code == 0x205F
    ||| code == 0x3000
}

/// The lowercase form of `s` under the Unicode case mapping: the text that
/// `str::to_lowercase` returns.
pub uninterp spec fn lowercased(s: Seq<char>) -> Seq<char>;

/// `needle` stands in `hay` at position `at`.
pub open spec fn occurs_at(hay: Seq<char>, needle: Seq<char>, at: int) -> bool {
    &&& 0 <= at
    &&& at + needle.len() <= hay.len()
    &&& hay.subrange(at, at + needle.len()) == needle
}

/// `needle` stands somewhere in `hay`.
pub open spec fn contains_text(hay: Seq<char>, needle: Seq<char>) -> bool {
    exists|at: int| occurs_at(hay, needle, at)
}

/// `s` without its leading white space.
pub open spec fn trim_start_of(s: Seq<char>) -> Seq<char>
    decreases s.len(),
{
    if s.len() > 0 && white_space(s.first()) {
        trim_start_of(s.drop_first())
    } else {
        s
    }
}

/// `s` without its trailing white space.
pub open spec fn trim_end_of(s: Seq<char>) -> Seq<char>
    decreases s.len(),
{
    if s.len() > 0 && white_space(s.last()) {
        trim_end_of(s.drop_last())
    } else {
        s
    }
}

/// `s` without leading and trailing white space.
pub open spec fn trim_of(s: Seq<char>) -> Seq<char> {
    trim_end_of(trim_start_of(s))
}

/// The pieces of `s` between occurrences of `sep`. There is always one piece
/// more than there are separators, so the result is never empty, and pieces
/// may be empty.
pub open spec fn split_on(s: Seq<char>, sep: char) -> Seq<Seq<char>>
    decreases s.len(),
{
    if s.len() == 0 {
        seq![Seq::empty()]
    } else {
        let before = split_on(s.drop_last(), sep);
        if s.last() == sep {
            before.push(Seq::empty())
        } else {
            before.drop_last().push(before.last().push(s.last()))
        }
    }
}

/// The lines of `s`: its pieces between line feeds, where a line feed at the
/// very end opens no further line.
pub open spec fn lines_of(s: Seq<char>) -> Seq<Seq<char>> {
    let pieces = split_on(s, '\n');
    if pieces.last().len() == 0 {
        pieces.drop_last()
    } else {
        pieces
    }
}

/// The words of `s`: its non-empty pieces between single spaces.
pub open spec fn words_of(s: Seq<char>) -> Seq<Seq<char>> {
    split_on(s, ' ').filter(|piece: Seq<char>| piece.len() > 0)
}

/// Every one of `words` stands somewhere in `text`.
pub open spec fn all_occur_in(words: Seq<Seq<char>>, text: Seq<char>) -> bool {
    forall|i: int| 0 <= i < words.len() ==> contains_text(text, #[trigger] words[i])
}

/// `words` written one after the other with a single space between neighbours.
pub open spec fn join_words(words: Seq<Seq<char>>) -> Seq<char>
    decreases words.len(),
{
    if words.len() == 0 {
        Seq::empty()
    } else if words.len() == 1 {
        words[0]
    } else {
        join_words(words.drop_last()) + seq![' '] + words.last()
    }
}

/// Trimming leading white space leaves the tail of `s` that begins at the
/// first character which is not white space.
proof fn lemma_trim_start_skips(s: Seq<char>, n: int)
    requires
        0 <= n <= s.len(),
        forall|k: int| 0 <= k < n ==> white_space(s[k]),
        n < s.len() ==> !white_space(s[n]),
    ensures
        trim_start_of(s) == s.subrange(n, s.len() as int),
    decreases n,
{
    if n == 0 {
        assert(s.subrange(0, s.len() as int) =~= s);
    } else {
        let rest = s.drop_first();
        assert forall|k: int| 0 <= k < n - 1 implies white_space(rest[k]) by {
            assert(rest[k] == s[k + 1]);
        }
        lemma_trim_start_skips(rest, n - 1);
        assert(rest.subrange(n - 1, rest.len() as int) =~= s.subrange(n, s.len() as int));
    }
}

/// Trimming trailing white space leaves the head of `s` that ends with the
/// last character which is not white space.
proof fn lemma_trim_end_keeps(s: Seq<char>, n: int)
    requires
        0 <= n <= s.len(),
        forall|k: int| n <= k < s.len() ==> white_space(s[k]),
        n > 0 ==> !white_space(s[n - 1]),
    ensures
        trim_end_of(s) == s.subrange(0, n),
    decreases s.len() - n,
{
    if n == s.len() {
        assert(s.subrange(0, n) =~= s);
    } else {
        let rest = s.drop_last();
        lemma_trim_end_keeps(rest, n);
        assert(rest.subrange(0, n) =~= s.subrange(0, n));
    }
}

/// What stands in a part of a text stands in the text.
pub proof fn lemma_contains_text_is_transitive(
    text: Seq<char>,
    part: Seq<char>,
    inner: Seq<char>,
)
    requires
        contains_text(text, part),
        contains_text(part, inner),
    ensures
        contains_text(text, inner),
{
    let i = choose|at: int| occurs_at(text, part, at);
    let j = choose|at: int| occurs_at(part, inner, at);
    assert(text.subrange(i + j, i + j + inner.len()) =~= part.subrange(j, j + inner.len()));
    assert(occurs_at(text, inner, i + j));
}

/// Every piece of a split stands in the text that was split, and the last
/// piece stands at its end.
pub proof fn lemma_pieces_occur(s: Seq<char>, sep: char)
    ensures
        split_on(s, sep).len() >= 1,
        all_occur_in(split_on(s, sep), s),
        occurs_at(s, split_on(s, sep).last(), s.len() - split_on(s, sep).last().len()),
    decreases s.len(),
{
    let pieces = split_on(s, sep);
    if s.len() == 0 {
        assert(s.subrange(0, 0) =~= Seq::<char>::empty());
        assert(occurs_at(s, pieces[0], 0));
    } else {
        let shorter = s.drop_last();
        let before = split_on(shorter, sep);
        lemma_pieces_occur(shorter, sep);
        let n = before.len() - 1;
        let at_last = shorter.len() - before.last().len();
        assert forall|i: int| 0 <= i < n implies contains_text(s, #[trigger] pieces[i]) by {
            assert(pieces[i] == before[i]);
            let at = choose|at: int| occurs_at(shorter, before[i], at);
            assert(s.subrange(at, at + before[i].len()) =~= shorter.subrange(
                at,
                at + before[i].len(),
            ));
            assert(occurs_at(s, pieces[i], at));
        }
        if s.last() == sep {
            assert(s.subrange(at_last, at_last + before.last().len()) =~= shorter.subrange(
                at_last,
                at_last + before.last().len(),
            ));
            assert(occurs_at(s, pieces[n], at_last));
            assert(s.subrange(s.len() as int, s.len() as int) =~= Seq::<char>::empty());
            assert(occurs_at(s, pieces.last(), s.len() as int));
        } else {
            assert(s.subrange(at_last, s.len() as int) =~= before.last().push(s.last()));
            assert(occurs_at(s, pieces.last(), at_last));
        }
    }
}

/// What a filter keeps of pieces that stand in a text stands in that text.
proof fn lemma_kept_pieces_occur(
    pieces: Seq<Seq<char>>,
    keep: spec_fn(Seq<char>) -> bool,
    text: Seq<char>,
)
    requires
        all_occur_in(pieces, text),
    ensures
        all_occur_in(pieces.filter(keep), text),
    decreases pieces.len(),
{
    if pieces.len() == 0 {
        assert(pieces.filter(keep) =~= pieces) by {
            reveal(Seq::filter);
        }
    } else {
        let shorter = pieces.drop_last();
        assert(pieces =~= shorter.push(pieces.last()));
        lemma_kept_pieces_occur(shorter, keep, text);
        shorter.lemma_filter_push(pieces.last(), keep);
    }
}

/// Every word of a text stands in that text.
pub proof fn lemma_words_occur(s: Seq<char>)
    ensures
        all_occur_in(words_of(s), s),
{
    lemma_pieces_occur(s, ' ');
    lemma_kept_pieces_occur(split_on(s, ' '), |piece: Seq<char>| piece.len() > 0, s);
}

/// Whether `c` is white space, as `char::is_whitespace` tells it.
pub fn is_whitespace(c: char) -> (b: bool)
    ensures
        b == white_space(c),
{
    let code: u32 = c as u32;
    (0x0009 <= code && code <= 0x000D) || code == 0x0020 || code == 0x0085 || code == 0x00A0
        || code == 0x1680 || (0x2000 <= code && code <= 0x200A) || code == 0x2028 || code
        == 0x2029 || code == 0x202F || code == 0x205F || code == 0x3000
}

/// Calls `str::to_lowercase`, whose result is what `lowercased` names.
#[verifier::external_body]
pub(crate) fn to_lowercase(s: &str) -> (lower: String)
    ensures
        lower@ == lowercased(s@),
{
    s.to_lowercase()
}

/// `String::push` appends one character at the end of the string.
pub assume_specification[ String::push ](s: &mut String, ch: char)
    ensures
        final(s)@ == old(s)@.push(ch),
;

/// The characters of `s`, in order.
pub fn chars_of(s: &str) -> (out: Vec<char>)
    ensures
        out@ == s@,
{
    let mut out: Vec<char> = Vec::new();
    for c in it: s.chars()
        invariant
            it.seq() == s@,
            out@ == it.seq().take(it.index() as int),
    {
        out.push(c);
    }
    out
}

/// Whether `needle` begins at index `at` of `hay`.
fn matches_at(hay: &Vec<char>, needle: &Vec<char>, at: usize) -> (hit: bool)
    requires
        at + needle.len() <= hay.len(),
    ensures
        hit == occurs_at(hay@, needle@, at as int),
{
    let mut j: usize = 0;
    while j < needle.len()
        invariant
            at + needle.len() <= hay.len(),
            j <= needle.len(),
            forall|k: int| 0 <= k < j ==> hay@[at + k] == needle@[k],
        decreases needle.len() - j,
    {
        if hay[at + j] != needle[j] {
            assert(hay@.subrange(at as int, at + needle.len())[j as int] != needle@[j as int]);
            return false;
        }
        j += 1;
    }
    assert(hay@.subrange(at as int, at + needle.len()) =~= needle@);
    true
}

/// Whether `needle` stands somewhere in `hay`. The empty text stands in every
/// text.
pub fn contains(hay: &str, needle: &str) -> (found: bool)
    ensures
        found == contains_text(hay@, needle@),
{
    let h = chars_of(hay);
    let n = chars_of(needle);
    if n.len() > h.len() {
        return false;
    }
    let last: usize = h.len() - n.len();
    let mut at: usize = 0;
    loop
        invariant
            h@ == hay@,
            n@ == needle@,
            last == h.len() - n.len(),
            at <= last,
            forall|k: int| 0 <= k < at ==> !occurs_at(hay@, needle@, k),
        decreases last - at,
    {
        if matches_at(&h, &n, at) {
            return true;
        }
        if at == last {
            return false;
        }
        at += 1;
    }
}

/// `s` without leading and trailing white space.
pub fn trim<'a>(s: &'a str) -> (trimmed: &'a str)
    ensures
        trimmed@ == trim_of(s@),
{
    let cs = chars_of(s);
    let mut start: usize = 0;
    while start < cs.len() && is_whitespace(cs[start])
        invariant
            start <= cs.len(),
            forall|k: int| 0 <= k < start ==> white_space(cs@[k]),
        decreases cs.len() - start,
    {
        start += 1;
    }
    let mut end: usize = cs.len();
    while end > start && is_whitespace(cs[end - 1])
        invariant
            start <= end <= cs.len(),
            forall|k: int| end <= k < cs.len() ==> white_space(cs@[k]),
        decreases end,
    {
        end -= 1;
    }
    proof {
        let tail = cs@.subrange(start as int, cs.len() as int);
        lemma_trim_start_skips(cs@, start as int);
        lemma_trim_end_keeps(tail, end - start);
        assert(tail.subrange(0, end - start) =~= cs@.subrange(start as int, end as int));
    }
    s.substring_char(start, end)
}

/// The pieces of `s` between occurrences of `sep`, as `str::split` yields them.
pub fn split(s: &str, sep: char) -> (pieces: Vec<String>)
    ensures
        pieces.deep_view() == split_on(s@, sep),
{
    let mut pieces: Vec<String> = Vec::new();
    let mut current = String::new();
    for c in it: s.chars()
        invariant
            it.seq() == s@,
            split_on(it.seq().take(it.index() as int), sep) == pieces.deep_view().push(current@),
    {
        let ghost seen = it.seq().take(it.index() as int);
        let ghost next = it.seq().take(it.index() + 1);
        let ghost done = pieces.deep_view();
        assert(next.drop_last() =~= seen);
        if c == sep {
            pieces.push(current);
            current = String::new();
            assert(pieces.deep_view() =~= done.push(split_on(seen, sep).last()));
        } else {
            current.push(c);
            assert(done.push(split_on(seen, sep).last()).drop_last() =~= done);
        }
    }
    assert(s@.take(s@.len() as int) =~= s@);
    let ghost done = pieces.deep_view();
    pieces.push(current);
    assert(pieces.deep_view() =~= done.push(current@));
    pieces
}

/// The lines of `s`, without their line feeds.
pub fn split_lines(s: &str) -> (lines: Vec<String>)
    ensures
        lines.deep_view() == lines_of(s@),
{
    let mut lines = split(s, '\n');
    proof {
        lemma_pieces_occur(s@, '\n');
    }
    let ghost pieces = lines.deep_view();
    let n = lines.len();
    if lines[n - 1].as_str().is_empty() {
        lines.pop();
        assert(lines.deep_view() =~= pieces.drop_last());
    }
    lines
}

/// The words of `s`: what is left of `str::split` on a single space once the
/// empty pieces are discarded.
pub fn split_words(s: &str) -> (words: Vec<String>)
    ensures
        words.deep_view() == words_of(s@),
{
    let ghost nonempty = |piece: Seq<char>| piece.len() > 0;
    let mut words: Vec<String> = Vec::new();
    let mut current = String::new();
    for c in it: s.chars()
        invariant
            it.seq() == s@,
            nonempty == (|piece: Seq<char>| piece.len() > 0),
            split_on(it.seq().take(it.index() as int), ' ').len() >= 1,
            split_on(it.seq().take(it.index() as int), ' ').last() == current@,
            split_on(it.seq().take(it.index() as int), ' ').drop_last().filter(nonempty)
                == words.deep_view(),
    {
        let ghost seen = it.seq().take(it.index() as int);
        let ghost next = it.seq().take(it.index() + 1);
        let ghost before = split_on(seen, ' ');
        let ghost kept = words.deep_view();
        assert(next.drop_last() =~= seen);
        if c == ' ' {
            proof {
                assert(before.push(Seq::empty()).drop_last() =~= before);
                assert(before =~= before.drop_last().push(current@));
                before.drop_last().lemma_filter_push(current@, nonempty);
            }
            if !current.as_str().is_empty() {
                words.push(current);
                assert(words.deep_view() =~= kept.push(before.last()));
            }
            current = String::new();
        } else {
            current.push(c);
            assert(before.drop_last().push(before.last().push(c)).drop_last()
                =~= before.drop_last());
        }
    }
    proof {
        assert(s@.take(s@.len() as int) =~= s@);
        let all = split_on(s@, ' ');
        assert(all =~= all.drop_last().push(current@));
        all.drop_last().lemma_filter_push(current@, nonempty);
    }
    let ghost kept = words.deep_view();
    if !current.as_str().is_empty() {
        words.push(current);
        assert(words.deep_view() =~= kept.push(current@));
    }
    words
}

/// `words` written one after the other with a single space between neighbours,
/// as `join(" ")` writes them.
pub fn join(words: &Vec<String>) -> (joined: String)
    ensures
        joined@ == join_words(words.deep_view()),
{
    let mut joined = String::new();
    let mut i: usize = 0;
    while i < words.len()
        invariant
            i <= words.len(),
            joined@ == join_words(words.deep_view().take(i as int)),
        decreases words.len() - i,
    {
        let ghost upto = words.deep_view().take(i + 1);
        assert(upto.drop_last() =~= words.deep_view().take(i as int));
        assert(upto.last() == words[i as int]@);
        if i > 0 {
            joined.push(' ');
            assert(joined@ =~= join_words(upto.drop_last()) + seq![' ']);
        }
        joined.append(words[i].as_str());
        assert(joined@ =~= join_words(upto));
        i += 1;
    }
    assert(words.deep_view().take(words.len() as int) =~= words.deep_view());
    joined
}

/// Whether `a` and `b` are the same text, character for character.
pub fn same_text(a: &str, b: &str) -> (same: bool)
    ensures
        same == (a@ == b@),
{
    let x = chars_of(a);
    let y = chars_of(b);
    if x.len() != y.len() {
        return false;
    }
    let mut i: usize = 0;
    while i < x.len()
        invariant
            x@ == a@,
            y@ == b@,
            x.len() == y.len(),
            i <= x.len(),
            forall|k: int| 0 <= k < i ==> x@[k] == y@[k],
        decreases x.len() - i,
    {
        if x[i] != y[i] {
            return false;
        }
        i += 1;
    }
    assert(x@ =~= y@);
    true
}

} // verus!
