//! The grammar of repository names.
use crate::error::{ErrorView, LayerhouseError};
use crate::text::{chars_of, concat2, split, split_on};
use vstd::prelude::*;
use vstd::utf8::encode_utf8;

verus! {

/// Whether a character can start and end a component.
pub open spec fn is_alnum(c: char) -> bool {
    let u = c as int;
    97 <= u <= 122 || 48 <= u <= 57
}

/// The first position from `from` on that holds no letter or digit, or the end.
pub open spec fn alnum_end(s: Seq<char>, from: int) -> int
    decreases s.len() - from,
{
    if 0 <= from < s.len() && is_alnum(s[from]) {
        alnum_end(s, from + 1)
    } else {
        from
    }
}

/// The first position from `from` on that holds a letter or digit, or the end.
pub open spec fn gap_end(s: Seq<char>, from: int) -> int
    decreases s.len() - from,
{
    if 0 <= from < s.len() && !is_alnum(s[from]) {
        gap_end(s, from + 1)
    } else {
        from
    }
}

/// Where the two ends lie.
pub proof fn lemma_ends(s: Seq<char>, from: int)
    requires
        0 <= from <= s.len(),
    ensures
        from <= alnum_end(s, from) <= s.len(),
        from <= gap_end(s, from) <= s.len(),
    decreases s.len() - from,
{
    if from < s.len() {
        lemma_ends(s, from + 1);
    }
}

/// Whether a text can stand between letters and digits: `.`, `_`, `__` or any
/// number of dashes.
pub open spec fn is_separator(run: Seq<char>) -> bool {
    ||| run == seq!['.']
    ||| run == seq!['_']
    ||| run == seq!['_', '_']
    ||| forall|i: int| 0 <= i < run.len() ==> #[trigger] run[i] == '-'
}

/// Whether the rest of a text is `[a-z0-9]+((.|_|__|-*)[a-z0-9]+)*`.
pub open spec fn component_from(s: Seq<char>, from: int) -> bool
    decreases s.len() - from,
{
    if 0 <= from <= s.len() {
        let a = alnum_end(s, from);
        let b = gap_end(s, a);
        proof {
            lemma_ends(s, from);
            lemma_ends(s, a);
        }
        a > from && (a == s.len() || (b < s.len() && is_separator(s.subrange(a, b))
            && component_from(s, b)))
    } else {
        false
    }
}

/// Whether a text is a component of a repository name.
pub open spec fn is_component(s: Seq<char>) -> bool {
    component_from(s, 0)
}

/// Whether a character can start and end a component.
fn char_is_alnum(c: char) -> (r: bool)
    ensures
        r == is_alnum(c),
{
    (c >= 'a' && c <= 'z') || (c >= '0' && c <= '9')
}

/// Whether a stretch of a text can stand between letters and digits.
fn separates(chars: &Vec<char>, from: usize, to: usize) -> (r: bool)
    requires
        from <= to <= chars@.len(),
    ensures
        r == is_separator(chars@.subrange(from as int, to as int)),
{
    let ghost run = chars@.subrange(from as int, to as int);
    let n: usize = to - from;
    if n == 1 && (chars[from] == '.' || chars[from] == '_') {
        assert(run =~= seq!['.'] || run =~= seq!['_']);
        return true;
    }
    if n == 2 && chars[from] == '_' && chars[from + 1] == '_' {
        assert(run =~= seq!['_', '_']);
        return true;
    }
    let mut i: usize = from;
    while i < to
        invariant
            from <= i <= to <= chars@.len(),
            run == chars@.subrange(from as int, to as int),
            forall|j: int| 0 <= j < i - from ==> #[trigger] run[j] == '-',
            n == to - from,
            n == 1 ==> run[0] != '.' && run[0] != '_',
            n == 2 ==> !(run[0] == '_' && run[1] == '_'),
        decreases to - i,
    {
        if chars[i] != '-' {
            proof {
                assert(run[i - from] != '-');
                assert(run.len() == n);
                if run == seq!['.'] || run == seq!['_'] {
                    assert(run[0] == '.' || run[0] == '_');
                }
                if run == seq!['_', '_'] {
                    assert(run[0] == '_' && run[1] == '_');
                }
            }
            return false;
        }
        i = i + 1;
    }
    true
}

/// Whether a text is a component of a repository name.
pub fn is_valid_name_component(component: &str) -> (r: bool)
    ensures
        r == is_component(component@),
{
    let chars = chars_of(component);
    let n: usize = chars.len();
    let mut from: usize = 0;
    loop
        invariant
            chars@ == component@,
            n == chars@.len(),
            from <= n,
            is_component(component@) == component_from(component@, from as int),
        decreases n - from,
    {
        let mut a: usize = from;
        while a < n && char_is_alnum(chars[a])
            invariant
                chars@ == component@,
                n == chars@.len(),
                from <= a <= n,
                alnum_end(component@, from as int) == alnum_end(component@, a as int),
            decreases n - a,
        {
            a = a + 1;
        }
        if a == from {
            return false;
        }
        if a == n {
            return true;
        }
        let mut b: usize = a;
        while b < n && !char_is_alnum(chars[b])
            invariant
                chars@ == component@,
                n == chars@.len(),
                a <= b <= n,
                gap_end(component@, a as int) == gap_end(component@, b as int),
            decreases n - b,
        {
            b = b + 1;
        }
        if b == n || !separates(&chars, a, b) {
            return false;
        }
        from = b;
    }
}

/// The first position from `from` on whose part is no component, or the end.
pub open spec fn first_bad(parts: Seq<Seq<char>>, from: int) -> int
    decreases parts.len() - from,
{
    if from < parts.len() && is_component(parts[from]) {
        first_bad(parts, from + 1)
    } else {
        from
    }
}

/// How many bytes a repository name may have.
pub const MAX_NAME_BYTES: usize = 255;

/// Why a text is no repository name.
pub open spec fn name_error(name: Seq<char>) -> Option<ErrorView> {
    if name.len() == 0 {
        Some(ErrorView::NameInvalid("repository name is required"@))
    } else if encode_utf8(name).len() > MAX_NAME_BYTES {
        Some(ErrorView::NameInvalid("repository name exceeds 255 characters"@))
    } else {
        let parts = split_on(name, '/');
        let p = first_bad(parts, 0);
        if p < parts.len() {
            Some(ErrorView::NameInvalid("invalid repository name component: "@ + parts[p]))
        } else {
            None
        }
    }
}

/// Whether a text is a repository name: components separated by `/`.
pub fn validate_repository_name(name: &str) -> (r: Result<(), LayerhouseError>)
    ensures
        match r {
            Ok(_) => name_error(name@) is None,
            Err(e) => name_error(name@) == Some(e@),
        },
{
    if name.unicode_len() == 0 {
        return Err(LayerhouseError::NameInvalid("repository name is required".to_string()));
    }
    if name.as_bytes().len() > MAX_NAME_BYTES {
        return Err(
            LayerhouseError::NameInvalid("repository name exceeds 255 characters".to_string()),
        );
    }
    let parts = split(name, '/');
    let ghost all = parts.deep_view();
    let mut i: usize = 0;
    while i < parts.len()
        invariant
            all == parts.deep_view(),
            all == split_on(name@, '/'),
            name@.len() > 0,
            encode_utf8(name@).len() <= MAX_NAME_BYTES,
            i <= parts@.len(),
            first_bad(all, 0) == first_bad(all, i as int),
        decreases parts@.len() - i,
    {
        assert(all[i as int] == parts@[i as int]@);
        if !is_valid_name_component(&parts[i]) {
            return Err(
                LayerhouseError::NameInvalid(
                    concat2("invalid repository name component: ", &parts[i]),
                ),
            );
        }
        i = i + 1;
    }
    Ok(())
}

/// A repository name holds neither capitals nor white space, nor anything else
/// outside of `a-z`, `0-9`, `.`, `_` and `-` in its components.
pub proof fn lemma_component_characters(s: Seq<char>, from: int)
    requires
        component_from(s, from),
    ensures
        forall|i: int|
            from <= i < s.len() ==> is_alnum(#[trigger] s[i]) || s[i] == '.' || s[i] == '_' || s[i]
                == '-',
    decreases s.len() - from,
{
    let a = alnum_end(s, from);
    let b = gap_end(s, a);
    lemma_ends(s, from);
    lemma_ends(s, a);
    lemma_alnum_run(s, from);
    if a < s.len() {
        lemma_component_characters(s, b);
        let run = s.subrange(a, b);
        assert forall|i: int| from <= i < s.len() implies is_alnum(#[trigger] s[i]) || s[i] == '.'
            || s[i] == '_' || s[i] == '-' by {
            if i < a {
                assert(is_alnum(s[i]));
            } else if i < b {
                let c = run[i - a];
                assert(c == s[i]);
                assert(run.len() == b - a);
                assert(seq!['.'].len() == 1 && seq!['_'].len() == 1 && seq!['_', '_'].len() == 2);
                if run == seq!['.'] || run == seq!['_'] {
                    assert(i - a == 0);
                } else if run == seq!['_', '_'] {
                    assert(i - a == 0 || i - a == 1);
                }
            }
        }
    }
}

/// Up to its end a run holds letters and digits only.
proof fn lemma_alnum_run(s: Seq<char>, from: int)
    requires
        0 <= from <= s.len(),
    ensures
        forall|i: int| from <= i < alnum_end(s, from) ==> is_alnum(#[trigger] s[i]),
    decreases s.len() - from,
{
    if from < s.len() && is_alnum(s[from]) {
        lemma_alnum_run(s, from + 1);
    }
}

} // verus!
