//! Patterns in which `*` stands for any text.
use crate::text::chars_of;
use vstd::prelude::*;

verus! {

/// Whether a text fits a pattern in which `*` stands for any text and every
/// other character for itself.
pub open spec fn fits(pattern: Seq<char>, value: Seq<char>) -> bool
    decreases pattern.len(), value.len(),
{
    if pattern.len() == 0 {
        value.len() == 0
    } else if pattern[0] == '*' {
        fits(pattern.skip(1), value) || (value.len() > 0 && fits(pattern, value.skip(1)))
    } else {
        value.len() > 0 && value[0] == pattern[0] && fits(pattern.skip(1), value.skip(1))
    }
}

/// Which ends of a text fit a pattern, from which ends fit the pattern without
/// its first character.
fn extend(next: &Vec<bool>, p: char, value: &Vec<char>, Ghost(pattern): Ghost<Seq<char>>) -> (r: Vec<
    bool,
>)
    requires
        pattern.len() > 0,
        pattern[0] == p,
        next@.len() == value@.len() + 1,
        forall|j: int|
            0 <= j <= value@.len() ==> #[trigger] next@[j] == fits(pattern.skip(1), value@.skip(j)),
    ensures
        r@.len() == value@.len() + 1,
        forall|j: int|
            0 <= j <= value@.len() ==> #[trigger] r@[j] == fits(pattern, value@.skip(j)),
{
    let n: usize = value.len();
    let mut back: Vec<bool> = Vec::new();
    let mut j: usize = n;
    let mut last: bool = p == '*' && next[n];
    assert(last == fits(pattern, value@.skip(n as int))) by {
        assert(value@.skip(n as int).len() == 0);
    }
    back.push(last);
    while j > 0
        invariant
            pattern.len() > 0,
            pattern[0] == p,
            n == value@.len(),
            next@.len() == n + 1,
            forall|k: int|
                0 <= k <= n ==> #[trigger] next@[k] == fits(pattern.skip(1), value@.skip(k)),
            j <= n,
            back@.len() == n + 1 - j,
            last == fits(pattern, value@.skip(j as int)),
            forall|k: int|
                j <= k <= n ==> back@[n - k] == fits(pattern, #[trigger] value@.skip(k)),
        decreases j,
    {
        let ghost here = value@.skip(j - 1);
        assert(here[0] == value@[j - 1]);
        assert(here.skip(1) =~= value@.skip(j as int));
        last = if p == '*' {
            next[j - 1] || last
        } else {
            value[j - 1] == p && next[j]
        };
        back.push(last);
        j = j - 1;
        assert forall|k: int| j <= k <= n implies back@[n - k] == fits(
            pattern,
            #[trigger] value@.skip(k),
        ) by {
            if k == j {
                assert(back@[n - k] == last);
            }
        }
    }
    let mut r: Vec<bool> = Vec::new();
    let mut i: usize = 0;
    while i <= n
        invariant
            n == value@.len(),
            back@.len() == n + 1,
            i <= n + 1,
            r@.len() == i,
            forall|k: int|
                0 <= k <= n ==> back@[n - k] == fits(pattern, #[trigger] value@.skip(k)),
            forall|k: int| 0 <= k < i ==> #[trigger] r@[k] == fits(pattern, value@.skip(k)),
        decreases n + 1 - i,
    {
        assert(back@[n - i] == fits(pattern, value@.skip(i as int)));
        r.push(back[n - i]);
        if i == n {
            return r;
        }
        i = i + 1;
    }
    r
}

/// Whether a text fits a pattern in which `*` stands for any text.
pub fn glob_matches(pattern: &str, value: &str) -> (r: bool)
    ensures
        r == fits(pattern@, value@),
{
    let wanted = chars_of(pattern);
    let text = chars_of(value);
    let n: usize = text.len();
    let mut row: Vec<bool> = Vec::new();
    let mut j: usize = 0;
    while j < n
        invariant
            n == text@.len(),
            j <= n,
            row@.len() == j,
            forall|k: int| 0 <= k < j ==> !#[trigger] row@[k],
        decreases n - j,
    {
        row.push(false);
        j = j + 1;
    }
    row.push(true);
    let mut i: usize = wanted.len();
    assert forall|k: int| 0 <= k <= n implies #[trigger] row@[k] == fits(
        pattern@.skip(i as int),
        text@.skip(k),
    ) by {
        assert(pattern@.skip(i as int).len() == 0);
        assert(text@.skip(k).len() == n - k);
    }
    while i > 0
        invariant
            wanted@ == pattern@,
            text@ == value@,
            n == text@.len(),
            i <= wanted@.len(),
            row@.len() == n + 1,
            forall|k: int|
                0 <= k <= n ==> #[trigger] row@[k] == fits(pattern@.skip(i as int), text@.skip(k)),
        decreases i,
    {
        let ghost rest = pattern@.skip(i - 1);
        assert(rest.skip(1) =~= pattern@.skip(i as int));
        assert(rest[0] == wanted@[i - 1]);
        row = extend(&row, wanted[i - 1], &text, Ghost(rest));
        i = i - 1;
    }
    assert(pattern@.skip(0) =~= pattern@);
    assert(text@.skip(0) =~= value@);
    row[0]
}

/// A pattern without `*` fits itself only.
pub proof fn lemma_plain_pattern(pattern: Seq<char>, value: Seq<char>)
    requires
        !pattern.contains('*'),
    ensures
        fits(pattern, value) <==> pattern == value,
    decreases pattern.len(),
{
    if pattern.len() > 0 {
        assert(pattern.contains(pattern[0]));
        let rest = pattern.skip(1);
        assert(!rest.contains('*')) by {
            if rest.contains('*') {
                let i = choose|i: int| 0 <= i < rest.len() && rest[i] == '*';
                assert(pattern[i + 1] == '*');
            }
        }
        if value.len() > 0 {
            lemma_plain_pattern(rest, value.skip(1));
            if rest == value.skip(1) && pattern[0] == value[0] {
                assert(pattern =~= seq![pattern[0]] + rest);
                assert(value =~= seq![value[0]] + value.skip(1));
            }
        }
    } else if value.len() == 0 {
        assert(pattern =~= value);
    }
}

/// A pattern that ends with its only `*` fits all texts that start with what
/// stands before it.
pub proof fn lemma_prefix_pattern(prefix: Seq<char>, value: Seq<char>)
    requires
        !prefix.contains('*'),
    ensures
        fits(prefix.push('*'), value) <==> prefix.is_prefix_of(value),
    decreases prefix.len(),
{
    let pattern = prefix.push('*');
    if prefix.len() == 0 {
        lemma_star_fits_all(value);
        assert(pattern =~= seq!['*']);
        assert(value.take(0) =~= prefix);
    } else {
        assert(prefix.contains(prefix[0]));
        let rest = prefix.skip(1);
        assert(!rest.contains('*')) by {
            if rest.contains('*') {
                let i = choose|i: int| 0 <= i < rest.len() && rest[i] == '*';
                assert(prefix[i + 1] == '*');
            }
        }
        assert(pattern.skip(1) =~= rest.push('*'));
        if value.len() > 0 {
            lemma_prefix_pattern(rest, value.skip(1));
            if prefix.is_prefix_of(value) {
                assert(value.skip(1).take(rest.len() as int) =~= rest);
                assert(value[0] == prefix[0]);
            }
            if rest.is_prefix_of(value.skip(1)) && value[0] == prefix[0] {
                assert(value.take(prefix.len() as int) =~= prefix) by {
                    assert forall|i: int| 0 <= i < prefix.len() implies value[i] == prefix[i] by {
                        if i > 0 {
                            assert(value.skip(1)[i - 1] == rest[i - 1]);
                        }
                    }
                }
            }
        }
    }
}

/// A single `*` fits every text.
pub proof fn lemma_star_fits_all(value: Seq<char>)
    ensures
        fits(seq!['*'], value),
    decreases value.len(),
{
    let pattern = seq!['*'];
    assert(pattern.skip(1) =~= Seq::empty());
    if value.len() > 0 {
        lemma_star_fits_all(value.skip(1));
    } else {
        assert(fits(pattern.skip(1), value));
    }
}

} // verus!
