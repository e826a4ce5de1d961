//! Splitting and joining of text, stated over sequences of characters.

use vstd::prelude::*;
use vstd::string::*;

verus! {

broadcast use vstd::string::group_string_axioms;

/// `String::pop` takes the last character off the string and returns it, or
/// returns `None` and leaves the string alone where it is empty.
pub assume_specification[ String::pop ](s: &mut String) -> (last: Option<char>)
    ensures
        old(s)@.len() == 0 ==> last is None && final(s)@ == old(s)@,
        old(s)@.len() > 0 ==> last == Some(old(s)@.last()) && final(s)@ == old(s)@.drop_last(),
;

/// `String::push` appends one character to the end of the string.
pub assume_specification[ String::push ](s: &mut String, ch: char)
    ensures
        final(s)@ == old(s)@.push(ch),
;

/// The pieces of `s` that lie between the occurrences of `sep`.
///
/// There is always at least one piece, and a separator at either end of `s`,
/// or two in a row, give an empty piece.
pub open spec fn split_on(s: Seq<char>, sep: char) -> Seq<Seq<char>>
    decreases s.len(),
{
    if s.len() == 0 {
        seq![Seq::<char>::empty()]
    } else {
        let before = split_on(s.drop_last(), sep);
        if s.last() == sep {
            before.push(Seq::<char>::empty())
        } else {
            before.update(before.len() - 1, before.last().push(s.last()))
        }
    }
}

/// The pieces of `parts` written one after the other with `sep` between them.
pub open spec fn join_with(parts: Seq<Seq<char>>, sep: char) -> Seq<char>
    decreases parts.len(),
{
    if parts.len() == 0 {
        Seq::<char>::empty()
    } else if parts.len() == 1 {
        parts[0]
    } else {
        join_with(parts.drop_last(), sep).push(sep) + parts.last()
    }
}

/// The pieces from position `from` on; none where `from` lies past the end.
pub open spec fn rest_from(parts: Seq<Seq<char>>, from: int) -> Seq<Seq<char>> {
    if 0 <= from <= parts.len() {
        parts.skip(from)
    } else {
        Seq::empty()
    }
}

/// Whether `sep` occurs nowhere in `s`.
pub open spec fn free_of(s: Seq<char>, sep: char) -> bool {
    forall|i: int| 0 <= i < s.len() ==> s[i] != sep
}

/// A split has at least one piece.
pub proof fn lemma_split_nonempty(s: Seq<char>, sep: char)
    ensures
        split_on(s, sep).len() >= 1,
    decreases s.len(),
{
    if s.len() > 0 {
        lemma_split_nonempty(s.drop_last(), sep);
    }
}

/// No piece of a split holds the separator.
pub proof fn lemma_split_pieces_free(s: Seq<char>, sep: char)
    ensures
        forall|k: int| 0 <= k < split_on(s, sep).len() ==> free_of(#[trigger] split_on(s, sep)[k], sep),
    decreases s.len(),
{
    if s.len() > 0 {
        lemma_split_nonempty(s.drop_last(), sep);
        lemma_split_pieces_free(s.drop_last(), sep);
    }
}

/// Joining the pieces of a split with the same separator gives the text back.
pub proof fn lemma_join_split(s: Seq<char>, sep: char)
    ensures
        join_with(split_on(s, sep), sep) == s,
    decreases s.len(),
{
    if s.len() > 0 {
        let init = s.drop_last();
        let before = split_on(init, sep);
        lemma_split_nonempty(init, sep);
        lemma_join_split(init, sep);
        if s.last() == sep {
            let all = before.push(Seq::<char>::empty());
            assert(all.drop_last() =~= before);
        } else {
            let grown = before.last().push(s.last());
            let all = before.update(before.len() - 1, grown);
            if before.len() > 1 {
                assert(all.drop_last() =~= before.drop_last());
                assert(join_with(all, sep) =~= join_with(before, sep).push(s.last()));
            }
        }
    }
}

/// Text without the separator is its own single piece.
pub proof fn lemma_split_single(s: Seq<char>, sep: char)
    requires
        free_of(s, sep),
    ensures
        split_on(s, sep) == seq![s],
    decreases s.len(),
{
    if s.len() == 0 {
        assert(s =~= Seq::<char>::empty());
    } else {
        lemma_split_single(s.drop_last(), sep);
        assert(s.drop_last().push(s.last()) =~= s);
    }
}

/// Splitting `a`, a separator and `b` gives the pieces of `a` and then those of `b`.
pub proof fn lemma_split_around(a: Seq<char>, b: Seq<char>, sep: char)
    ensures
        split_on(a.push(sep) + b, sep) == split_on(a, sep) + split_on(b, sep),
    decreases b.len(),
{
    let whole = a.push(sep) + b;
    if b.len() == 0 {
        assert(whole.drop_last() =~= a);
    } else {
        lemma_split_around(a, b.drop_last(), sep);
        lemma_split_nonempty(b.drop_last(), sep);
        assert(whole.drop_last() =~= a.push(sep) + b.drop_last());
    }
}

/// Joining is unchanged when the last two pieces are first joined to one.
pub proof fn lemma_join_merge_last(parts: Seq<Seq<char>>, sep: char)
    requires
        parts.len() >= 2,
    ensures
        join_with(parts, sep) == join_with(
            parts.drop_last().drop_last().push(
                parts[parts.len() - 2].push(sep) + parts.last(),
            ),
            sep,
        ),
{
    let init = parts.drop_last();
    let merged = init.last().push(sep) + parts.last();
    let shorter = init.drop_last().push(merged);
    assert(shorter.drop_last() =~= init.drop_last());
    if parts.len() == 2 {
        assert(join_with(init, sep) == init[0]);
    } else {
        let front = join_with(init.drop_last(), sep);
        assert(join_with(init, sep) == front.push(sep) + init.last());
    }
}

/// Splits `s` at every occurrence of `sep`.
pub fn split(s: &str, sep: char) -> (parts: Vec<String>)
    ensures
        parts.deep_view() == split_on(s@, sep),
{
    let mut parts: Vec<String> = Vec::new();
    let mut piece = String::new();
    for c in it: s.chars()
        invariant
            it.seq() == s@,
            parts.deep_view().push(piece@) == split_on(s@.take(it.index()), sep),
    {
        assert(s@.take(it.index() + 1).drop_last() =~= s@.take(it.index()));
        if c == sep {
            parts.push(piece);
            piece = String::new();
        } else {
            piece.push(c);
        }
    }
    parts.push(piece);
    assert(s@.take(s@.len() as int) =~= s@);
    parts
}

/// Joins the pieces of `parts` from position `from` on, with `sep` between
/// them. Past the end there is nothing to join, and the result is empty.
pub fn join_from(parts: &Vec<String>, from: usize, sep: char) -> (joined: String)
    ensures
        joined@ == join_with(rest_from(parts.deep_view(), from as int), sep),
{
    let mut joined = String::new();
    if from > parts.len() {
        return joined;
    }
    let mut k: usize = from;
    while k < parts.len()
        invariant
            from <= k <= parts.len(),
            joined@ == join_with(parts.deep_view().subrange(from as int, k as int), sep),
        decreases parts.len() - k,
    {
        assert(parts.deep_view().subrange(from as int, k + 1).drop_last() =~= parts.deep_view().subrange(
            from as int,
            k as int,
        ));
        if k > from {
            joined.push(sep);
        }
        joined.append(parts[k].as_str());
        k += 1;
    }
    assert(parts.deep_view().subrange(from as int, parts.len() as int) =~= parts.deep_view().skip(
        from as int,
    ));
    joined
}

/// Whether `c` is white space: one of the characters with the Unicode
/// property `White_Space`, which `char::is_whitespace` tells apart too.
pub open spec fn is_blank(c: char) -> bool {
    ||| '\u{9}' <= c <= '\u{d}'
    ||| c == ' '
    ||| c == '\u{85}'
    ||| c == '\u{a0}'
    ||| c == '\u{1680}'
    ||| '\u{2000}' <= c <= '\u{200a}'
    ||| c == '\u{2028}'
    ||| c == '\u{2029}'
    ||| c == '\u{202f}'
    ||| c == '\u{205f}'
    ||| c == '\u{3000}'
}

/// Whether `s` is a word: not empty, and without white space.
pub open spec fn is_word(s: Seq<char>) -> bool {
    s.len() > 0 && forall|i: int| 0 <= i < s.len() ==> !is_blank(#[trigger] s[i])
}

/// Whether `s` is a gap between words: not empty, and white space only.
pub open spec fn is_gap(s: Seq<char>) -> bool {
    s.len() > 0 && forall|i: int| 0 <= i < s.len() ==> is_blank(#[trigger] s[i])
}

/// The words of `s`: its longest runs of characters that are no white
/// space, first run first. White space at either end of `s`, and a run of it
/// between two words, gives no empty word.
pub open spec fn words_of(s: Seq<char>) -> Seq<Seq<char>>
    decreases s.len(),
{
    if s.len() == 0 {
        Seq::<Seq<char>>::empty()
    } else {
        let before = words_of(s.drop_last());
        if is_blank(s.last()) {
            before
        } else if s.len() >= 2 && !is_blank(s[s.len() - 2]) {
            before.update(before.len() - 1, before.last().push(s.last()))
        } else {
            before.push(seq![s.last()])
        }
    }
}

/// The text in which the words `columns` stand in order, with `gaps[k]`
/// between `columns[k]` and the word after it.
pub open spec fn spaced(columns: Seq<Seq<char>>, gaps: Seq<Seq<char>>) -> Seq<char>
    decreases columns.len(),
{
    if columns.len() == 0 {
        Seq::<char>::empty()
    } else if columns.len() == 1 {
        columns[0]
    } else {
        spaced(columns.drop_last(), gaps) + gaps[columns.len() - 2] + columns.last()
    }
}

/// Text that ends in a character that is no white space has a last word,
/// and that word ends in the same character.
pub proof fn lemma_words_last(s: Seq<char>)
    requires
        s.len() > 0,
        !is_blank(s.last()),
    ensures
        words_of(s).len() > 0,
        words_of(s).last().len() > 0,
        words_of(s).last().last() == s.last(),
    decreases s.len(),
{
    if s.len() >= 2 && !is_blank(s[s.len() - 2]) {
        lemma_words_last(s.drop_last());
    }
}

/// Every word of a text is a word: not empty, and without white space.
pub proof fn lemma_words_are_words(s: Seq<char>)
    ensures
        forall|k: int| 0 <= k < words_of(s).len() ==> is_word(#[trigger] words_of(s)[k]),
    decreases s.len(),
{
    if s.len() > 0 {
        lemma_words_are_words(s.drop_last());
        if !is_blank(s.last()) && s.len() >= 2 && !is_blank(s[s.len() - 2]) {
            lemma_words_last(s.drop_last());
        }
    }
}

/// A word is the one word of itself.
pub proof fn lemma_words_single(word: Seq<char>)
    requires
        is_word(word),
    ensures
        words_of(word) == seq![word],
    decreases word.len(),
{
    if word.len() == 1 {
        assert(words_of(word.drop_last()).len() == 0);
        assert(seq![word.last()] =~= word);
    } else {
        lemma_words_single(word.drop_last());
        assert(word.drop_last().push(word.last()) =~= word);
    }
}

/// White space at the end of a text adds no word.
pub proof fn lemma_words_before_gap(a: Seq<char>, gap: Seq<char>)
    requires
        forall|i: int| 0 <= i < gap.len() ==> is_blank(#[trigger] gap[i]),
    ensures
        words_of(a + gap) == words_of(a),
    decreases gap.len(),
{
    if gap.len() > 0 {
        lemma_words_before_gap(a, gap.drop_last());
        assert((a + gap).drop_last() =~= a + gap.drop_last());
    }
}

/// The words of two texts with one character of white space between them
/// are the words of the first and then those of the second.
pub proof fn lemma_words_around_blank(a: Seq<char>, blank: char, b: Seq<char>)
    requires
        is_blank(blank),
    ensures
        words_of(a.push(blank) + b) == words_of(a) + words_of(b),
    decreases b.len(),
{
    let whole = a.push(blank) + b;
    if b.len() == 0 {
        assert(whole.drop_last() =~= a);
    } else {
        lemma_words_around_blank(a, blank, b.drop_last());
        assert(whole.drop_last() =~= a.push(blank) + b.drop_last());
        if !is_blank(b.last()) && b.len() >= 2 && !is_blank(b[b.len() - 2]) {
            lemma_words_last(b.drop_last());
        }
    }
}

/// The words of two texts with a gap between them are the words of the
/// first and then those of the second, however long the gap is.
pub proof fn lemma_words_around_gap(a: Seq<char>, gap: Seq<char>, b: Seq<char>)
    requires
        is_gap(gap),
    ensures
        words_of(a + gap + b) == words_of(a) + words_of(b),
{
    let front = a + gap.drop_last();
    lemma_words_before_gap(a, gap.drop_last());
    lemma_words_around_blank(front, gap.last(), b);
    assert(a + gap + b =~= front.push(gap.last()) + b);
}

/// Words that are written with gaps between them are read back as the same
/// words, whatever white space stands before the first and after the last.
pub proof fn lemma_words_of_spaced(
    lead: Seq<char>,
    columns: Seq<Seq<char>>,
    gaps: Seq<Seq<char>>,
    trail: Seq<char>,
)
    requires
        forall|i: int| 0 <= i < lead.len() ==> is_blank(#[trigger] lead[i]),
        forall|i: int| 0 <= i < trail.len() ==> is_blank(#[trigger] trail[i]),
        forall|k: int| 0 <= k < columns.len() ==> is_word(#[trigger] columns[k]),
        forall|k: int| 0 <= k < columns.len() - 1 ==> is_gap(#[trigger] gaps[k]),
    ensures
        words_of(lead + spaced(columns, gaps) + trail) == columns,
    decreases columns.len(),
{
    let empty = Seq::<char>::empty();
    let body = spaced(columns, gaps);
    lemma_words_before_gap(lead + body, trail);
    lemma_words_before_gap(empty, lead);
    if columns.len() == 1 {
        lemma_words_single(columns[0]);
        if lead.len() > 0 {
            lemma_words_around_gap(empty, lead, body);
        }
    } else if columns.len() > 1 {
        let gap = gaps[columns.len() - 2];
        let front = lead + spaced(columns.drop_last(), gaps);
        lemma_words_of_spaced(lead, columns.drop_last(), gaps, empty);
        lemma_words_single(columns.last());
        lemma_words_around_gap(front, gap, columns.last());
        assert(lead + body =~= front + gap + columns.last());
    }
}

/// Words that are joined with single spaces are read back as the same words.
pub proof fn lemma_words_of_joined(columns: Seq<Seq<char>>)
    requires
        forall|k: int| 0 <= k < columns.len() ==> is_word(#[trigger] columns[k]),
    ensures
        words_of(join_with(columns, ' ')) == columns,
    decreases columns.len(),
{
    if columns.len() == 1 {
        lemma_words_single(columns[0]);
    } else if columns.len() > 1 {
        lemma_words_of_joined(columns.drop_last());
        lemma_words_single(columns.last());
        lemma_words_around_blank(join_with(columns.drop_last(), ' '), ' ', columns.last());
    }
}

/// Tells white space from other characters, as `char::is_whitespace` does.
pub fn is_whitespace(c: char) -> (blank: bool)
    ensures
        blank == is_blank(c),
{
    (c >= '\u{9}' && c <= '\u{d}') || c == ' ' || c == '\u{85}' || c == '\u{a0}' || c == '\u{1680}' || (c
        >= '\u{2000}' && c <= '\u{200a}') || c == '\u{2028}' || c == '\u{2029}' || c == '\u{202f}' || c
        == '\u{205f}' || c == '\u{3000}'
}

/// Splits `s` into its words, as `str::split_whitespace` does.
pub fn words(s: &str) -> (found: Vec<String>)
    ensures
        found.deep_view() == words_of(s@),
{
    let mut found: Vec<String> = Vec::new();
    let mut word = String::new();
    let mut inside: bool = false;
    for c in it: s.chars()
        invariant
            it.seq() == s@,
            inside == (it.index() > 0 && !is_blank(s@[it.index() - 1])),
            inside ==> found.deep_view().push(word@) == words_of(s@.take(it.index())),
            !inside ==> found.deep_view() == words_of(s@.take(it.index())) && word@.len() == 0,
    {
        assert(s@.take(it.index() + 1).drop_last() =~= s@.take(it.index()));
        if is_whitespace(c) {
            if inside {
                found.push(word);
                word = String::new();
            }
            inside = false;
        } else {
            word.push(c);
            assert(!inside ==> word@ =~= seq![c]);
            inside = true;
        }
    }
    proof {
        assert(s@.take(s@.len() as int) =~= s@);
    }
    if inside {
        found.push(word);
    }
    found
}

/// The text that the characters of `chars` spell.
pub fn text_of(chars: &Vec<char>) -> (text: String)
    ensures
        text@ == chars@,
{
    let mut text = String::new();
    let mut k: usize = 0;
    while k < chars.len()
        invariant
            k <= chars.len(),
            text@ == chars@.take(k as int),
        decreases chars.len() - k,
    {
        text.push(chars[k]);
        k += 1;
    }
    text
}

/// `s` without its last character where that is a carriage return.
pub open spec fn without_cr(s: Seq<char>) -> Seq<char> {
    if s.len() > 0 && s.last() == '\r' {
        s.drop_last()
    } else {
        s
    }
}

/// The lines of `text`: what stands between its line feeds, each piece that a
/// line feed ended without the carriage return before it. What follows the
/// last line feed is a line of its own unless it is empty.
pub open spec fn lines_of(text: Seq<char>) -> Seq<Seq<char>> {
    let pieces = split_on(text, '\n');
    let ended = Seq::new((pieces.len() - 1) as nat, |k: int| without_cr(pieces[k]));
    if pieces.last().len() == 0 {
        ended
    } else {
        ended.push(pieces.last())
    }
}

/// Splits `text` into its lines, as `str::lines` does.
pub fn lines(text: &str) -> (found: Vec<String>)
    ensures
        found.deep_view() == lines_of(text@),
{
    let pieces = split(text, '\n');
    proof {
        lemma_split_nonempty(text@, '\n');
    }
    let ghost ended = Seq::new((pieces.len() - 1) as nat, |k: int| without_cr(pieces.deep_view()[k]));
    let mut found: Vec<String> = Vec::new();
    let mut k: usize = 0;
    while k + 1 < pieces.len()
        invariant
            pieces.len() >= 1,
            k + 1 <= pieces.len(),
            found.deep_view() == ended.take(k as int),
            ended == Seq::new((pieces.len() - 1) as nat, |k: int| without_cr(pieces.deep_view()[k])),
        decreases pieces.len() - k,
    {
        let mut line = pieces[k].clone();
        let last = line.pop();
        if let Some(c) = last {
            if c != '\r' {
                line.push(c);
            }
        }
        assert(line@ == without_cr(pieces[k as int]@));
        found.push(line);
        assert(ended.take(k + 1) =~= ended.take(k as int).push(ended[k as int]));
        k += 1;
    }
    let tail = pieces[k].clone();
    if !tail.as_str().is_empty() {
        let ghost before = found.deep_view();
        found.push(tail);
        assert(found.deep_view() =~= before.push(pieces[k as int]@));
    }
    found
}

} // verus!
