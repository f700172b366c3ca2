//! What the orders, cuts and joins of texts promise.
use crate::text::{
    is_space, joined, last_position, lemma_last_position_is, lemma_position,
    lemma_position_is, lemma_space_from, position, space_from, split_at_most, split_first,
    split_last, split_on, text_lt, trimmed, trimmed_end, trimmed_start, without_trailing, words,
    words_from,
};
use vstd::prelude::*;

verus! {

// ── Order ────────────────────────────────────────────────────────────────

/// Texts stand in the order of the first character in which they differ, by code point, and
/// a text stands before any longer one that it begins.
pub proof fn lemma_first_difference_decides(
    common: Seq<char>,
    a: char,
    b: char,
    rest: Seq<char>,
    other: Seq<char>,
)
    ensures
        (a as u32) < (b as u32) ==> text_lt(common + seq![a] + rest, common + seq![b] + other),
        (a as u32) > (b as u32) ==> !text_lt(common + seq![a] + rest, common + seq![b] + other),
        text_lt(common, common + seq![a] + rest),
        !text_lt(common + seq![a] + rest, common),
    decreases common.len(),
{
    let x = common + seq![a] + rest;
    let y = common + seq![b] + other;
    if common.len() > 0 {
        let c = common.drop_first();
        lemma_first_difference_decides(c, a, b, rest, other);
        assert(x.drop_first() =~= c + seq![a] + rest);
        assert(y.drop_first() =~= c + seq![b] + other);
        assert(x[0] == common[0] && y[0] == common[0]);
    } else {
        assert(x[0] == a && y[0] == b);
    }
}

// ── Cuts ─────────────────────────────────────────────────────────────────

/// A part between separators holds none.
pub proof fn lemma_parts_hold_no_separator(s: Seq<char>, c: char, i: int)
    requires
        0 <= i < split_on(s, c).len(),
    ensures
        !split_on(s, c)[i].contains(c),
    decreases s.len(),
{
    lemma_position(s, c);
    let p = position(s, c);
    if p < s.len() {
        let rest = s.skip(p + 1);
        let parts = split_on(s, c);
        assert(parts =~= seq![s.take(p)] + split_on(rest, c));
        if i > 0 {
            lemma_parts_hold_no_separator(rest, c, i - 1);
            assert(parts[i] == split_on(rest, c)[i - 1]);
        } else if parts[0].contains(c) {
            let k = choose|k: int| 0 <= k < p && s.take(p)[k] == c;
            assert(s[k] == c);
        }
    } else if s.contains(c) {
        let k = choose|k: int| 0 <= k < s.len() && s[k] == c;
        assert(s[k] == c);
    }
}

/// A text is cut at the first occurrence of a character, or at the last.
pub proof fn lemma_first_and_last_cut(before: Seq<char>, c: char, after: Seq<char>)
    ensures
        !before.contains(c) ==> split_first(before + seq![c] + after, c) == Some((before, after)),
        !after.contains(c) ==> split_last(before + seq![c] + after, c) == Some((before, after)),
        !before.contains(c) ==> split_first(before, c) is None && split_last(before, c) is None,
{
    let s = before + seq![c] + after;
    let p = before.len() as int;
    if !before.contains(c) {
        assert forall|i: int| 0 <= i < p implies #[trigger] s[i] != c by {
            assert(before.contains(before[i]));
        }
        lemma_position_is(s, c, p);
        assert(s.take(p) =~= before);
        assert(s.skip(p + 1) =~= after);
        lemma_position(before, c);
        lemma_no_last_position(before, c);
    }
    if !after.contains(c) {
        assert forall|i: int| p < i < s.len() implies #[trigger] s[i] != c by {
            assert(after.contains(after[i - p - 1]));
        }
        lemma_last_position_is(s, c, p);
        assert(s.take(p) =~= before);
        assert(s.skip(p + 1) =~= after);
    }
}

proof fn lemma_no_last_position(s: Seq<char>, c: char)
    requires
        !s.contains(c),
    ensures
        last_position(s, c) < 0,
    decreases s.len(),
{
    if s.len() > 0 {
        assert(s.contains(s.last()));
        let t = s.drop_last();
        assert(!t.contains(c)) by {
            if t.contains(c) {
                let k = choose|k: int| 0 <= k < t.len() && t[k] == c;
                assert(s[k] == c);
            }
        }
        lemma_no_last_position(t, c);
    }
}

/// Parts with a separator between them, and one more, are joined by one more separator.
pub proof fn lemma_one_more_is_joined(parts: Seq<Seq<char>>, part: Seq<char>, sep: Seq<char>)
    ensures
        joined(Seq::empty(), sep).len() == 0,
        joined(seq![part], sep) == part,
        parts.len() > 0 ==> joined(parts.push(part), sep) == joined(parts, sep) + sep + part,
{
    assert(parts.push(part).drop_last() =~= parts);
}

/// Cutting into at most so many parts leaves the rest whole.
pub proof fn lemma_few_parts(before: Seq<char>, c: char, after: Seq<char>, n: nat)
    requires
        !before.contains(c),
    ensures
        n > 1 ==> split_at_most(before + seq![c] + after, c, n) == seq![before] + split_at_most(
            after,
            c,
            (n - 1) as nat,
        ),
        n <= 1 ==> split_at_most(before + seq![c] + after, c, n) == seq![
            before + seq![c] + after,
        ],
        split_at_most(before, c, n) == seq![before],
{
    lemma_first_and_last_cut(before, c, after);
}

// ── White space ──────────────────────────────────────────────────────────

/// Blanks, tabs and line ends are white space; what is printed otherwise among the first
/// hundred and twenty-eight characters is not.
pub proof fn lemma_white_space(c: char)
    ensures
        c == ' ' || c == '\t' || c == '\n' || c == '\r' ==> is_space(c),
        '!' <= c && c <= '~' ==> !is_space(c),
{
}

/// A text loses the white space around it, and nothing else.
pub proof fn lemma_only_the_ends_are_trimmed(front: Seq<char>, s: Seq<char>, back: Seq<char>)
    requires
        forall|i: int| 0 <= i < front.len() ==> is_space(#[trigger] front[i]),
        forall|i: int| 0 <= i < back.len() ==> is_space(#[trigger] back[i]),
        s.len() > 0 ==> !is_space(s[0]) && !is_space(s.last()),
    ensures
        trimmed(front + s + back) == s,
    decreases front.len() + back.len(),
{
    let t = front + s + back;
    lemma_front_is_trimmed(front, s + back);
    assert(t =~= front + (s + back));
    if s.len() > 0 {
        assert((s + back)[0] == s[0]);
        assert(trimmed_start(s + back) == s + back);
        lemma_back_is_trimmed(s, back);
    } else {
        assert(s + back =~= back + Seq::<char>::empty());
        lemma_front_is_trimmed(back, Seq::empty());
    }
}

proof fn lemma_front_is_trimmed(front: Seq<char>, s: Seq<char>)
    requires
        forall|i: int| 0 <= i < front.len() ==> is_space(#[trigger] front[i]),
    ensures
        trimmed_start(front + s) == trimmed_start(s),
    decreases front.len(),
{
    if front.len() > 0 {
        let f = front.drop_first();
        assert((front + s)[0] == front[0]);
        assert((front + s).drop_first() =~= f + s);
        assert forall|i: int| 0 <= i < f.len() implies is_space(#[trigger] f[i]) by {
            assert(f[i] == front[i + 1]);
        }
        lemma_front_is_trimmed(f, s);
    } else {
        assert(front + s =~= s);
    }
}

proof fn lemma_back_is_trimmed(s: Seq<char>, back: Seq<char>)
    requires
        forall|i: int| 0 <= i < back.len() ==> is_space(#[trigger] back[i]),
        s.len() > 0 ==> !is_space(s.last()),
    ensures
        trimmed_end(s + back) == s,
    decreases back.len(),
{
    if back.len() > 0 {
        let b = back.drop_last();
        assert((s + back).last() == back.last());
        assert((s + back).drop_last() =~= s + b);
        assert forall|i: int| 0 <= i < b.len() implies is_space(#[trigger] b[i]) by {
            assert(b[i] == back[i]);
        }
        lemma_back_is_trimmed(s, b);
    } else {
        assert(s + back =~= s);
    }
}

proof fn lemma_space_from_is(s: Seq<char>, from: int, space: bool, end: int)
    requires
        0 <= from <= end <= s.len(),
        forall|i: int| from <= i < end ==> is_space(#[trigger] s[i]) != space,
        end < s.len() ==> is_space(s[end]) == space,
    ensures
        space_from(s, from, space) == end,
    decreases end - from,
{
    if from < end {
        assert(is_space(s[from]) != space);
        lemma_space_from_is(s, from + 1, space, end);
    }
}

proof fn lemma_words_shift(front: Seq<char>, s: Seq<char>, from: int)
    requires
        0 <= from <= s.len(),
    ensures
        words_from(front + s, front.len() + from) == words_from(s, from),
    decreases s.len() - from,
{
    let t = front + s;
    let n = front.len() as int;
    lemma_space_shift(front, s, from, false);
    lemma_space_from(s, from, false);
    let start = space_from(s, from, false);
    lemma_space_shift(front, s, start, true);
    lemma_space_from(s, start, true);
    let end = space_from(s, start, true);
    if start < s.len() {
        assert(!is_space(s[start]));
        assert(end == space_from(s, start + 1, true));
        lemma_space_from(s, start + 1, true);
        lemma_words_shift(front, s, end);
        assert(t.subrange(n + start, n + end) =~= s.subrange(start, end));
    }
}

proof fn lemma_space_shift(front: Seq<char>, s: Seq<char>, from: int, space: bool)
    requires
        0 <= from <= s.len(),
    ensures
        space_from(front + s, front.len() + from, space) == front.len() + space_from(
            s,
            from,
            space,
        ),
    decreases s.len() - from,
{
    if from < s.len() {
        assert((front + s)[front.len() + from] == s[from]);
        if is_space(s[from]) != space {
            lemma_space_shift(front, s, from + 1, space);
        }
    }
}

/// The words of a text are what stands between white space: a word, white space and a
/// further text have that word and the words of the further text.
pub proof fn lemma_words_of_a_text(word: Seq<char>, gap: char, rest: Seq<char>)
    requires
        word.len() > 0,
        forall|i: int| 0 <= i < word.len() ==> !is_space(#[trigger] word[i]),
        is_space(gap),
    ensures
        words(Seq::empty()).len() == 0,
        words(word) == seq![word],
        words(word + seq![gap] + rest) == seq![word] + words(rest),
        words(seq![gap] + rest) == words(rest),
{
    let n = word.len() as int;
    lemma_space_from_is(word, 0, false, 0);
    lemma_space_from_is(word, 0, true, n);
    assert(word.subrange(0, n) =~= word);
    assert(space_from(word, n, false) == n);
    assert(words_from(word, n) =~= Seq::empty());
    assert(words(word) =~= seq![word]);
    let s = word + seq![gap] + rest;
    assert(s[0] == word[0]);
    assert(s[n] == gap);
    lemma_space_from_is(s, 0, false, 0);
    assert forall|i: int| 0 <= i < n implies is_space(#[trigger] s[i]) != true by {
        assert(s[i] == word[i]);
    }
    lemma_space_from_is(s, 0, true, n);
    assert(s.subrange(0, n) =~= word);
    lemma_gap_has_no_word(seq![gap], rest, word);
    lemma_gap_has_no_word(seq![gap], rest, Seq::empty());
    assert(Seq::<char>::empty() + seq![gap] + rest =~= seq![gap] + rest);
}

proof fn lemma_gap_has_no_word(gap: Seq<char>, rest: Seq<char>, front: Seq<char>)
    requires
        gap.len() == 1,
        is_space(gap[0]),
    ensures
        words_from(front + gap + rest, front.len() as int) == words(rest),
{
    let s = front + gap + rest;
    let n = front.len() as int;
    assert(s[n] == gap[0]);
    assert(space_from(s, n, false) == space_from(s, n + 1, false));
    lemma_space_from(s, n + 1, false);
    let a = words_from(s, n);
    let b = words_from(s, n + 1);
    assert(a == b);
    lemma_words_shift(front + gap, rest, 0);
    assert((front + gap).len() == n + 1);
}

/// What is cut from the end of a text is a run of one character, and all of it.
pub proof fn lemma_trailing_run(s: Seq<char>, c: char)
    ensures
        s.len() == 0 || s.last() != c ==> without_trailing(s, c) == s,
        without_trailing(s.push(c), c) == without_trailing(s, c),
{
    assert(s.push(c).drop_last() =~= s);
}

} // verus!
