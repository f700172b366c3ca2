//! Character-level text primitives shared by every parser and validator of the
//! library. Strings are modelled as sequences of characters.
use vstd::prelude::*;
use vstd::utf8::{encode_utf8, valid_utf8};

verus! {

// ── Names and wrappers for the standard library's string functions ──────

/// What `str::to_lowercase` returns: the Unicode lowercase mapping of a text.
pub uninterp spec fn lowercase(s: Seq<char>) -> Seq<char>;

/// What the `Debug` formatting of a string slice prints: the text in double
/// quotes, with escapes.
pub uninterp spec fn debug_quoted(s: Seq<char>) -> Seq<char>;

/// `str::to_lowercase`. Claims the named text, which is empty for an empty text.
#[verifier::external_body]
pub(crate) fn to_lowercase(s: &str) -> (r: String)
    ensures
        r@ == lowercase(s@),
        s@.len() == 0 ==> r@.len() == 0,
{
    s.to_lowercase()
}

/// The `Debug` formatting of `str`. Claims the named text.
#[verifier::external_body]
pub(crate) fn quoted(s: &str) -> (r: String)
    ensures
        r@ == debug_quoted(s@),
{
    format!("{:?}", s)
}

/// What the `Debug` formatting of a character prints: the character in single
/// quotes, with escapes.
pub uninterp spec fn debug_char(c: char) -> Seq<char>;

/// The `Debug` formatting of `char`. Claims the named text.
#[verifier::external_body]
pub(crate) fn char_quoted(c: char) -> (r: String)
    ensures
        r@ == debug_char(c),
{
    format!("{:?}", c)
}

/// `String::push`. Claims that the character is appended.
#[verifier::external_body]
pub(crate) fn push_char(s: &mut String, c: char)
    ensures
        final(s)@ == old(s)@.push(c),
{
    s.push(c)
}

/// `String::from_utf8`. Claims that it succeeds exactly on valid UTF-8 and
/// then returns the text that the bytes encode.
#[verifier::external_body]
pub(crate) fn string_from_utf8(bytes: Vec<u8>) -> (r: Option<String>)
    ensures
        r is Some <==> valid_utf8(bytes@),
        r matches Some(s) ==> encode_utf8(s@) == bytes@,
{
    String::from_utf8(bytes).ok()
}

// ── Order ────────────────────────────────────────────────────────────────

/// Lexicographic order of texts by code point.
pub open spec fn text_lt(a: Seq<char>, b: Seq<char>) -> bool
    decreases a.len(),
{
    if b.len() == 0 {
        false
    } else if a.len() == 0 {
        true
    } else if a[0] != b[0] {
        (a[0] as int) < (b[0] as int)
    } else {
        text_lt(a.drop_first(), b.drop_first())
    }
}

pub proof fn lemma_text_lt_irreflexive(a: Seq<char>)
    ensures
        !text_lt(a, a),
    decreases a.len(),
{
    if a.len() > 0 {
        lemma_text_lt_irreflexive(a.drop_first());
    }
}

pub proof fn lemma_text_lt_transitive(a: Seq<char>, b: Seq<char>, c: Seq<char>)
    requires
        text_lt(a, b),
        text_lt(b, c),
    ensures
        text_lt(a, c),
    decreases a.len(),
{
    if a.len() > 0 && b.len() > 0 && c.len() > 0 {
        if a[0] == b[0] && b[0] == c[0] {
            lemma_text_lt_transitive(a.drop_first(), b.drop_first(), c.drop_first());
        }
    }
}

pub proof fn lemma_text_lt_total(a: Seq<char>, b: Seq<char>)
    ensures
        a == b || text_lt(a, b) || text_lt(b, a),
    decreases a.len(),
{
    if a.len() == 0 || b.len() == 0 {
        assert(a.len() == 0 && b.len() == 0 ==> a =~= b);
    } else if a[0] == b[0] {
        lemma_text_lt_total(a.drop_first(), b.drop_first());
        if a.drop_first() == b.drop_first() {
            assert(a =~= seq![a[0]] + a.drop_first());
            assert(b =~= seq![b[0]] + b.drop_first());
        }
    }
}

// ── Building and taking texts apart ──────────────────────────────────────

/// The characters of a text.
pub(crate) fn chars_of(s: &str) -> (r: Vec<char>)
    ensures
        r@ == s@,
{
    let mut r: Vec<char> = Vec::new();
    for c in it: s.chars()
        invariant
            it.seq() == s@,
            r@ == s@.take(it.index() as int),
    {
        assert(s@.take(it.index() + 1) =~= s@.take(it.index() as int).push(c));
        r.push(c);
    }
    assert(s@.take(s@.len() as int) =~= s@);
    r
}

/// Whether a text comes before another in the lexicographic order of the code points.
pub(crate) fn str_less(a: &str, b: &str) -> (r: bool)
    ensures
        r == text_lt(a@, b@),
{
    let x = chars_of(a);
    let y = chars_of(b);
    let mut i: usize = 0;
    assert(a@.skip(0) =~= a@);
    assert(b@.skip(0) =~= b@);
    while i < x.len() && i < y.len()
        invariant
            x@ == a@,
            y@ == b@,
            i <= x@.len(),
            i <= y@.len(),
            text_lt(a@, b@) == text_lt(a@.skip(i as int), b@.skip(i as int)),
        decreases x@.len() - i,
    {
        assert(a@.skip(i as int).drop_first() =~= a@.skip(i + 1));
        assert(b@.skip(i as int).drop_first() =~= b@.skip(i + 1));
        if x[i] != y[i] {
            return x[i] < y[i];
        }
        i = i + 1;
    }
    i < y.len()
}

/// Whether two texts are the same.
pub(crate) fn str_equal(a: &str, b: &str) -> (r: bool)
    ensures
        r == (a@ == b@),
{
    let x = chars_of(a);
    let y = chars_of(b);
    if x.len() != y.len() {
        return false;
    }
    let mut i: usize = 0;
    while i < x.len()
        invariant
            x@ == a@,
            y@ == b@,
            x@.len() == y@.len(),
            i <= x@.len(),
            forall|k: int| 0 <= k < i ==> x@[k] == y@[k],
        decreases x@.len() - i,
    {
        if x[i] != y[i] {
            return false;
        }
        i = i + 1;
    }
    assert(a@ =~= b@);
    true
}

/// The text made of the characters from one position up to another.
pub(crate) fn text_of(chars: &Vec<char>, from: usize, to: usize) -> (r: String)
    requires
        from <= to <= chars@.len(),
    ensures
        r@ == chars@.subrange(from as int, to as int),
{
    let mut r = String::new();
    let mut i: usize = from;
    while i < to
        invariant
            from <= i <= to <= chars@.len(),
            r@ == chars@.subrange(from as int, i as int),
        decreases to - i,
    {
        assert(chars@.subrange(from as int, i + 1) =~= chars@.subrange(from as int, i as int).push(
            chars@[i as int],
        ));
        push_char(&mut r, chars[i]);
        i = i + 1;
    }
    r
}

/// Two texts one after the other.
pub(crate) fn concat2(a: &str, b: &str) -> (r: String)
    ensures
        r@ == a@ + b@,
{
    let mut r = a.to_owned();
    r.append(b);
    r
}

/// Three texts one after the other.
pub(crate) fn concat3(a: &str, b: &str, c: &str) -> (r: String)
    ensures
        r@ == a@ + b@ + c@,
{
    let mut r = a.to_owned();
    r.append(b);
    r.append(c);
    r
}

/// Four texts one after the other.
pub(crate) fn concat4(a: &str, b: &str, c: &str, d: &str) -> (r: String)
    ensures
        r@ == a@ + b@ + c@ + d@,
{
    let mut r = a.to_owned();
    r.append(b);
    r.append(c);
    r.append(d);
    r
}

/// Five texts one after the other.
pub(crate) fn concat5(a: &str, b: &str, c: &str, d: &str, e: &str) -> (r: String)
    ensures
        r@ == a@ + b@ + c@ + d@ + e@,
{
    let mut r = a.to_owned();
    r.append(b);
    r.append(c);
    r.append(d);
    r.append(e);
    r
}

// ── Decimal numbers ──────────────────────────────────────────────────────

/// The character of a decimal digit.
pub open spec fn digit_char(d: nat) -> char {
    (48 + d) as char
}

/// The decimal notation of a number.
pub open spec fn decimal_text(n: nat) -> Seq<char>
    decreases n,
{
    if n < 10 {
        seq![digit_char(n)]
    } else {
        decimal_text(n / 10).push(digit_char(n % 10))
    }
}

/// The decimal notation of a number.
pub(crate) fn decimal(n: u64) -> (r: String)
    ensures
        r@ == decimal_text(n as nat),
    decreases n,
{
    let d: u8 = (n % 10) as u8;
    let c: char = (48 + d) as char;
    if n < 10 {
        let mut r = String::new();
        push_char(&mut r, c);
        r
    } else {
        let mut r = decimal(n / 10);
        push_char(&mut r, c);
        r
    }
}

/// Whether a character is a decimal digit.
pub open spec fn is_digit(c: char) -> bool {
    48 <= c as int <= 57
}

/// The value of a sequence of decimal digits.
pub open spec fn digits_value(s: Seq<char>) -> nat
    decreases s.len(),
{
    if s.len() == 0 {
        0
    } else {
        digits_value(s.drop_last()) * 10 + (s.last() as int - 48) as nat
    }
}

/// A text without one leading plus sign.
pub open spec fn without_plus(s: Seq<char>) -> Seq<char> {
    if s.len() > 0 && s[0] == '+' {
        s.drop_first()
    } else {
        s
    }
}

/// The number that an unsigned 64-bit integer is read as: an optional plus
/// sign and at least one decimal digit, within range.
pub open spec fn parsed_u64(s: Seq<char>) -> Option<u64> {
    let d = without_plus(s);
    if d.len() > 0 && (forall|i: int| 0 <= i < d.len() ==> is_digit(#[trigger] d[i]))
        && digits_value(d) <= u64::MAX {
        Some(digits_value(d) as u64)
    } else {
        None
    }
}

proof fn lemma_digits_grow(s: Seq<char>, i: int)
    requires
        0 <= i <= s.len(),
        forall|j: int| 0 <= j < s.len() ==> is_digit(#[trigger] s[j]),
    ensures
        digits_value(s.take(i)) <= digits_value(s),
    decreases s.len() - i,
{
    if i < s.len() {
        lemma_digits_grow(s, i + 1);
        assert(s.take(i + 1).drop_last() =~= s.take(i));
    } else {
        assert(s.take(i) =~= s);
    }
}

/// Reads an unsigned 64-bit integer from a stretch of characters.
pub(crate) fn parse_u64(chars: &Vec<char>, from: usize, to: usize) -> (r: Option<u64>)
    requires
        from <= to <= chars@.len(),
    ensures
        r == parsed_u64(chars@.subrange(from as int, to as int)),
{
    let ghost s = chars@.subrange(from as int, to as int);
    let mut start: usize = from;
    if from < to && chars[from] == '+' {
        start = from + 1;
    }
    let ghost d = without_plus(s);
    assert(d =~= chars@.subrange(start as int, to as int));
    if start == to {
        return None;
    }
    let mut value: u64 = 0;
    let mut i: usize = start;
    while i < to
        invariant
            from <= start <= i <= to <= chars@.len(),
            start < to,
            s == chars@.subrange(from as int, to as int),
            d == chars@.subrange(start as int, to as int),
            d == without_plus(s),
            forall|j: int| 0 <= j < i - start ==> is_digit(#[trigger] d[j]),
            value == digits_value(d.take(i - start)),
        decreases to - i,
    {
        let c = chars[i];
        assert(d[i - start] == c);
        if c < '0' || c > '9' {
            return None;
        }
        let v: u64 = (c as u32 - 48) as u64;
        assert(d.take(i - start + 1).drop_last() =~= d.take(i - start));
        if value > (u64::MAX - v) / 10 {
            proof {
                if forall|j: int| 0 <= j < d.len() ==> is_digit(#[trigger] d[j]) {
                    lemma_digits_grow(d, i - start + 1);
                }
            }
            return None;
        }
        value = value * 10 + v;
        i = i + 1;
    }
    assert(d.take(d.len() as int) =~= d);
    Some(value)
}

/// The decimal notation of a number is made of digits, and their value is the number.
proof fn lemma_decimal_digits(n: nat)
    ensures
        decimal_text(n).len() > 0,
        forall|i: int| 0 <= i < decimal_text(n).len() ==> is_digit(#[trigger] decimal_text(n)[i]),
        digits_value(decimal_text(n)) == n,
    decreases n,
{
    let d = decimal_text(n);
    if n < 10 {
        assert(d.drop_last() =~= Seq::<char>::empty());
        assert(digits_value(d.drop_last()) == 0);
        assert(d.last() == digit_char(n));
    } else {
        lemma_decimal_digits(n / 10);
        assert(d.drop_last() =~= decimal_text(n / 10));
        assert(d.last() == digit_char(n % 10));
        assert forall|i: int| 0 <= i < d.len() implies is_digit(#[trigger] d[i]) by {
            if i < d.len() - 1 {
                assert(d[i] == decimal_text(n / 10)[i]);
            }
        }
    }
}

/// A number is read back from its decimal notation.
pub proof fn lemma_decimal_is_read_back(n: u64)
    ensures
        parsed_u64(decimal_text(n as nat)) == Some(n),
        forall|i: int|
            0 <= i < decimal_text(n as nat).len() ==> is_digit(
                #[trigger] decimal_text(n as nat)[i],
            ),
{
    lemma_decimal_digits(n as nat);
    let d = decimal_text(n as nat);
    assert(is_digit(d[0]));
    assert(without_plus(d) == d);
}

// ── Searching ────────────────────────────────────────────────────────────

/// The position of the first `c`, or the length where there is none.
pub open spec fn position(s: Seq<char>, c: char) -> int
    decreases s.len(),
{
    if s.len() == 0 || s[0] == c {
        0
    } else {
        1 + position(s.drop_first(), c)
    }
}

/// What `position` is.
pub proof fn lemma_position(s: Seq<char>, c: char)
    ensures
        0 <= position(s, c) <= s.len(),
        forall|i: int| 0 <= i < position(s, c) ==> #[trigger] s[i] != c,
        position(s, c) < s.len() ==> s[position(s, c)] == c,
        position(s, c) < s.len() <==> s.contains(c),
    decreases s.len(),
{
    if s.len() > 0 && s[0] != c {
        let rest = s.drop_first();
        lemma_position(rest, c);
        assert forall|i: int| 0 <= i < position(s, c) implies #[trigger] s[i] != c by {
            if i > 0 {
                assert(rest[i - 1] == s[i]);
            }
        }
        if s.contains(c) {
            let i = choose|i: int| 0 <= i < s.len() && s[i] == c;
            assert(rest[i - 1] == c);
        }
    } else if s.len() > 0 {
        assert(s.contains(s[0]));
    }
}

/// The first occurrence is the position.
pub proof fn lemma_position_is(s: Seq<char>, c: char, p: int)
    requires
        0 <= p <= s.len(),
        forall|i: int| 0 <= i < p ==> #[trigger] s[i] != c,
        p < s.len() ==> s[p] == c,
    ensures
        position(s, c) == p,
{
    lemma_position(s, c);
    if position(s, c) < p {
        assert(s[position(s, c)] != c);
    }
}

/// The position of the last `c`, or -1 where there is none.
pub open spec fn last_position(s: Seq<char>, c: char) -> int
    decreases s.len(),
{
    if s.len() == 0 {
        -1
    } else if s.last() == c {
        s.len() - 1
    } else {
        last_position(s.drop_last(), c)
    }
}

/// The last occurrence is the last position.
pub proof fn lemma_last_position_is(s: Seq<char>, c: char, p: int)
    requires
        -1 <= p < s.len(),
        forall|i: int| p < i < s.len() ==> #[trigger] s[i] != c,
        p >= 0 ==> s[p] == c,
    ensures
        last_position(s, c) == p,
    decreases s.len(),
{
    if s.len() > 0 && s.last() != c {
        lemma_last_position_is(s.drop_last(), c, p);
    } else if s.len() > 0 {
        if p < s.len() - 1 {
            assert(s[s.len() - 1] != c);
        }
    }
}

/// Whether `part` occurs in `s` as a contiguous stretch.
pub open spec fn contains_text(s: Seq<char>, part: Seq<char>) -> bool {
    exists|i: int| occurs_at(s, part, i)
}

/// Whether `part` stands in `s` at position `i`.
pub open spec fn occurs_at(s: Seq<char>, part: Seq<char>, i: int) -> bool {
    0 <= i && i + part.len() <= s.len() && s.subrange(i, i + part.len()) == part
}

/// The first position from `from` up to `to` that holds `c`, or `to`.
pub(crate) fn find_char(chars: &Vec<char>, from: usize, to: usize, c: char) -> (r: usize)
    requires
        from <= to <= chars@.len(),
    ensures
        from <= r <= to,
        r - from == position(chars@.subrange(from as int, to as int), c),
        forall|i: int| from <= i < r ==> #[trigger] chars@[i] != c,
        r < to ==> chars@[r as int] == c,
{
    let ghost s = chars@.subrange(from as int, to as int);
    let mut i: usize = from;
    while i < to && chars[i] != c
        invariant
            from <= i <= to <= chars@.len(),
            forall|j: int| from <= j < i ==> #[trigger] chars@[j] != c,
        decreases to - i,
    {
        i = i + 1;
    }
    proof {
        assert forall|j: int| 0 <= j < i - from implies #[trigger] s[j] != c by {
            assert(s[j] == chars@[j + from]);
        }
        lemma_position_is(s, c, i - from);
    }
    i
}

/// Whether a text holds a character.
pub(crate) fn contains_char(s: &str, c: char) -> (r: bool)
    ensures
        r == s@.contains(c),
{
    let chars = chars_of(s);
    let p = find_char(&chars, 0, chars.len(), c);
    proof {
        assert(chars@.subrange(0, chars@.len() as int) =~= chars@);
        lemma_position(s@, c);
    }
    p < chars.len()
}

/// Whether `part` stands in `chars` at a position.
pub(crate) fn matches_at(chars: &Vec<char>, part: &Vec<char>, at: usize) -> (r: bool)
    requires
        at + part@.len() <= chars@.len(),
    ensures
        r == occurs_at(chars@, part@, at as int),
{
    let n: usize = chars.len();
    let mut i: usize = 0;
    while i < part.len()
        invariant
            i <= part@.len(),
            n == chars@.len(),
            at + part@.len() <= n,
            forall|j: int| 0 <= j < i ==> #[trigger] part@[j] == chars@[at + j],
        decreases part@.len() - i,
    {
        if chars[at + i] != part[i] {
            assert(chars@.subrange(at as int, at + part@.len())[i as int] != part@[i as int]);
            return false;
        }
        i = i + 1;
    }
    assert(chars@.subrange(at as int, at + part@.len()) =~= part@);
    true
}

/// Whether a text starts with another.
pub(crate) fn starts_with(s: &str, prefix: &str) -> (r: bool)
    ensures
        r == prefix@.is_prefix_of(s@),
{
    let chars = chars_of(s);
    let part = chars_of(prefix);
    part.len() <= chars.len() && matches_at(&chars, &part, 0)
}

/// Whether a text holds another as a contiguous stretch.
pub(crate) fn contains_str(s: &str, part: &str) -> (r: bool)
    ensures
        r == contains_text(s@, part@),
{
    let chars = chars_of(s);
    let wanted = chars_of(part);
    if wanted.len() > chars.len() {
        return false;
    }
    let last: usize = chars.len() - wanted.len();
    let mut i: usize = 0;
    loop
        invariant
            chars@ == s@,
            wanted@ == part@,
            last == chars@.len() - wanted@.len(),
            i <= last,
            forall|j: int| 0 <= j < i ==> !#[trigger] occurs_at(s@, part@, j),
        decreases last - i,
    {
        if matches_at(&chars, &wanted, i) {
            return true;
        }
        if i == last {
            return false;
        }
        i = i + 1;
    }
}

/// A text without a prefix that it starts with.
pub(crate) fn strip_prefix(s: &str, prefix: &str) -> (r: Option<String>)
    ensures
        match r {
            Some(rest) => prefix@.is_prefix_of(s@) && rest@ == s@.skip(prefix@.len() as int),
            None => !prefix@.is_prefix_of(s@),
        },
{
    let chars = chars_of(s);
    let part = chars_of(prefix);
    if part.len() <= chars.len() && matches_at(&chars, &part, 0) {
        Some(text_of(&chars, part.len(), chars.len()))
    } else {
        None
    }
}

/// A text without a suffix that it ends with.
pub(crate) fn strip_suffix(s: &str, suffix: &str) -> (r: Option<String>)
    ensures
        match r {
            Some(rest) => suffix@.is_suffix_of(s@) && rest@ == s@.take(s@.len() - suffix@.len()),
            None => !suffix@.is_suffix_of(s@),
        },
{
    let chars = chars_of(s);
    let part = chars_of(suffix);
    if part.len() <= chars.len() && matches_at(&chars, &part, chars.len() - part.len()) {
        Some(text_of(&chars, 0, chars.len() - part.len()))
    } else {
        None
    }
}

// ── Splitting and joining ────────────────────────────────────────────────

/// The parts of a text before and after the first `c`.
pub open spec fn split_first(s: Seq<char>, c: char) -> Option<(Seq<char>, Seq<char>)> {
    let p = position(s, c);
    if p < s.len() {
        Some((s.take(p), s.skip(p + 1)))
    } else {
        None
    }
}

/// The parts of a text between the occurrences of `c`.
pub open spec fn split_on(s: Seq<char>, c: char) -> Seq<Seq<char>>
    decreases s.len(),
{
    let p = position(s, c);
    if 0 <= p < s.len() {
        seq![s.take(p)] + split_on(s.skip(p + 1), c)
    } else {
        seq![s]
    }
}

/// The parts with a separator between each two.
pub open spec fn joined(parts: Seq<Seq<char>>, sep: Seq<char>) -> Seq<char>
    decreases parts.len(),
{
    if parts.len() == 0 {
        Seq::empty()
    } else if parts.len() == 1 {
        parts[0]
    } else {
        joined(parts.drop_last(), sep) + sep + parts.last()
    }
}

/// The parts of a text before and after the first `c`.
pub(crate) fn split_once(s: &str, c: char) -> (r: Option<(String, String)>)
    ensures
        match r {
            Some(p) => split_first(s@, c) == Some((p.0@, p.1@)),
            None => split_first(s@, c) is None,
        },
{
    let chars = chars_of(s);
    let p = find_char(&chars, 0, chars.len(), c);
    assert(chars@.subrange(0, chars@.len() as int) =~= s@);
    if p < chars.len() {
        let before = text_of(&chars, 0, p);
        let after = text_of(&chars, p + 1, chars.len());
        assert(after@ =~= s@.skip(p + 1));
        Some((before, after))
    } else {
        None
    }
}

/// The parts of a text between the occurrences of `c`.
pub(crate) fn split(s: &str, c: char) -> (r: Vec<String>)
    ensures
        r.deep_view() == split_on(s@, c),
        r@.len() >= 1,
{
    let chars = chars_of(s);
    let n = chars.len();
    let mut r: Vec<String> = Vec::new();
    let mut from: usize = 0;
    let ghost mut done: Seq<Seq<char>> = Seq::empty();
    assert(s@.skip(0) =~= s@);
    assert(done + split_on(s@, c) =~= split_on(s@, c));
    loop
        invariant
            chars@ == s@,
            n == chars@.len(),
            from <= n,
            r.deep_view() == done,
            done + split_on(s@.skip(from as int), c) == split_on(s@, c),
        decreases n - from,
    {
        let p = find_char(&chars, from, n, c);
        let ghost rest = s@.skip(from as int);
        assert(rest =~= chars@.subrange(from as int, n as int));
        let part = text_of(&chars, from, p);
        assert(part@ =~= rest.take(p - from));
        r.push(part);
        assert(r.deep_view() =~= done.push(part@));
        if p == n {
            assert(rest.take(p - from) =~= rest);
            assert(done.push(rest) =~= done + seq![rest]);
            return r;
        }
        proof {
            assert(rest.skip(p - from + 1) =~= s@.skip(p + 1));
            assert(done + (seq![part@] + split_on(s@.skip(p + 1), c)) =~= done.push(part@)
                + split_on(s@.skip(p + 1), c));
            done = done.push(part@);
        }
        from = p + 1;
    }
}

/// The parts with a separator between each two.
pub(crate) fn join(parts: &Vec<String>, sep: &str) -> (r: String)
    ensures
        r@ == joined(parts.deep_view(), sep@),
{
    let mut r = String::new();
    let mut i: usize = 0;
    let ghost all = parts.deep_view();
    while i < parts.len()
        invariant
            i <= parts@.len(),
            all == parts.deep_view(),
            r@ == joined(all.take(i as int), sep@),
        decreases parts@.len() - i,
    {
        assert(all.take(i + 1).drop_last() =~= all.take(i as int));
        assert(all.take(i + 1).last() == parts@[i as int]@);
        if i > 0 {
            r.append(sep);
        }
        r.append(parts[i].as_str());
        proof {
            if i == 0 {
                assert(r@ =~= parts@[0]@);
            }
        }
        i = i + 1;
    }
    assert(all.take(all.len() as int) =~= all);
    r
}

// ── White space ──────────────────────────────────────────────────────────

/// Whether a character has the Unicode property White_Space.
pub open spec fn is_space(c: char) -> bool {
    let u = c as int;
    ||| 0x9 <= u <= 0xd
    ||| u == 0x20
    ||| u == 0x85
    ||| u == 0xa0
    ||| u == 0x1680
    ||| 0x2000 <= u <= 0x200a
    ||| u == 0x2028
    ||| u == 0x2029
    ||| u == 0x202f
    ||| u == 0x205f
    ||| u == 0x3000
}

/// Whether a character has the Unicode property White_Space.
pub(crate) fn char_is_space(c: char) -> (r: bool)
    ensures
        r == is_space(c),
{
    let u = c as u32;
    (0x9 <= u && u <= 0xd) || u == 0x20 || u == 0x85 || u == 0xa0 || u == 0x1680 || (0x2000 <= u
        && u <= 0x200a) || u == 0x2028 || u == 0x2029 || u == 0x202f || u == 0x205f || u == 0x3000
}

/// A text without its leading white space.
pub open spec fn trimmed_start(s: Seq<char>) -> Seq<char>
    decreases s.len(),
{
    if s.len() > 0 && is_space(s[0]) {
        trimmed_start(s.drop_first())
    } else {
        s
    }
}

/// A text without its trailing white space.
pub open spec fn trimmed_end(s: Seq<char>) -> Seq<char>
    decreases s.len(),
{
    if s.len() > 0 && is_space(s.last()) {
        trimmed_end(s.drop_last())
    } else {
        s
    }
}

/// A text without leading and trailing white space.
pub open spec fn trimmed(s: Seq<char>) -> Seq<char> {
    trimmed_end(trimmed_start(s))
}

/// What is left of a text does not begin with white space.
proof fn lemma_trimmed_start(s: Seq<char>)
    ensures
        trimmed_start(s).len() > 0 ==> !is_space(trimmed_start(s)[0]),
    decreases s.len(),
{
    if s.len() > 0 && is_space(s[0]) {
        lemma_trimmed_start(s.drop_first());
    }
}

/// What is left of a text does not end with white space, and begins as before.
proof fn lemma_trimmed_end(s: Seq<char>)
    ensures
        trimmed_end(s).len() > 0 ==> !is_space(trimmed_end(s).last()) && trimmed_end(s)[0] == s[0],
    decreases s.len(),
{
    if s.len() > 0 && is_space(s.last()) {
        lemma_trimmed_end(s.drop_last());
    }
}

/// A text that neither starts nor ends with white space stays as it is.
pub proof fn lemma_trimmed_same(s: Seq<char>)
    requires
        s.len() > 0 ==> !is_space(s[0]) && !is_space(s.last()),
    ensures
        trimmed(s) == s,
{
}

/// A text without white space around it loses nothing more.
pub proof fn lemma_trimmed_twice(s: Seq<char>)
    ensures
        trimmed(trimmed(s)) == trimmed(s),
{
    lemma_trimmed_start(s);
    lemma_trimmed_end(trimmed_start(s));
    lemma_trimmed_same(trimmed(s));
}

/// A text without leading and trailing white space.
pub(crate) fn trim(s: &str) -> (r: String)
    ensures
        r@ == trimmed(s@),
{
    let chars = chars_of(s);
    let n = chars.len();
    let mut from: usize = 0;
    assert(s@.skip(0) =~= s@);
    let mut go = true;
    while go
        invariant
            chars@ == s@,
            n == chars@.len(),
            from <= n,
            trimmed_start(s@.skip(from as int)) == trimmed_start(s@),
            !go ==> trimmed_start(s@) == s@.skip(from as int),
        decreases n - from, (if go { 1int } else { 0 }),
    {
        if from < n && char_is_space(chars[from]) {
            assert(s@.skip(from as int).drop_first() =~= s@.skip(from + 1));
            from = from + 1;
        } else {
            go = false;
        }
    }
    let ghost t = s@.skip(from as int);
    let mut to: usize = n;
    go = true;
    assert(t.take(t.len() as int) =~= t);
    while go
        invariant
            chars@ == s@,
            n == chars@.len(),
            from <= to <= n,
            t == s@.skip(from as int),
            trimmed_end(t.take(to - from)) == trimmed_end(t),
            !go ==> trimmed_end(t) == t.take(to - from),
        decreases to, (if go { 1int } else { 0 }),
    {
        if from < to && char_is_space(chars[to - 1]) {
            assert(t.take(to - from).drop_last() =~= t.take(to - from - 1));
            assert(t.take(to - from).last() == chars@[to - 1]);
            to = to - 1;
        } else {
            assert(from < to ==> t.take(to - from).last() == chars@[to - 1]);
            go = false;
        }
    }
    assert(t.take(to - from) =~= chars@.subrange(from as int, to as int));
    text_of(&chars, from, to)
}

// ── Searching ────────────────────────────────────────────────────────────

/// The first position from `from` on at which `part` stands in `s`, or -1.
pub open spec fn first_occurrence(s: Seq<char>, part: Seq<char>, from: int) -> int
    decreases s.len() - from + 1,
{
    if from + part.len() > s.len() {
        -1
    } else if occurs_at(s, part, from) {
        from
    } else {
        first_occurrence(s, part, from + 1)
    }
}

/// Where `first_occurrence` can lie.
pub proof fn lemma_first_occurrence(s: Seq<char>, part: Seq<char>, from: int)
    ensures
        first_occurrence(s, part, from) == -1 || from <= first_occurrence(s, part, from) <= s.len()
            - part.len(),
    decreases s.len() - from + 1,
{
    if from + part.len() <= s.len() && !occurs_at(s, part, from) {
        lemma_first_occurrence(s, part, from + 1);
    }
}

/// The first position from `from` on at which `part` stands in `chars`.
pub(crate) fn find_text(chars: &Vec<char>, part: &Vec<char>, from: usize) -> (r: Option<usize>)
    requires
        from <= chars@.len(),
    ensures
        match r {
            Some(p) => p == first_occurrence(chars@, part@, from as int) && from <= p && p
                + part@.len() <= chars@.len(),
            None => first_occurrence(chars@, part@, from as int) == -1,
        },
{
    let n: usize = chars.len();
    let m: usize = part.len();
    if m > n {
        return None;
    }
    let mut i: usize = from;
    while i <= n - m
        invariant
            n == chars@.len(),
            m == part@.len(),
            m <= n,
            from <= i <= n,
            first_occurrence(chars@, part@, from as int) == first_occurrence(
                chars@,
                part@,
                i as int,
            ),
        decreases n + 1 - i,
    {
        if matches_at(chars, part, i) {
            return Some(i);
        }
        if i == n {
            assert(first_occurrence(chars@, part@, i + 1) == -1);
            return None;
        }
        i = i + 1;
    }
    None
}

/// The parts of a text before and after the last `c`.
pub open spec fn split_last(s: Seq<char>, c: char) -> Option<(Seq<char>, Seq<char>)> {
    let p = last_position(s, c);
    if p >= 0 {
        Some((s.take(p), s.skip(p + 1)))
    } else {
        None
    }
}

/// The parts of a text before and after the last `c`.
pub(crate) fn rsplit_once(s: &str, c: char) -> (r: Option<(String, String)>)
    ensures
        r.deep_view() == split_last(s@, c),
{
    let chars = chars_of(s);
    let n: usize = chars.len();
    let mut i: usize = n;
    while i > 0
        invariant
            chars@ == s@,
            n == chars@.len(),
            i <= n,
            forall|j: int| i <= j < n ==> #[trigger] chars@[j] != c,
        decreases i,
    {
        i = i - 1;
        if chars[i] == c {
            proof {
                lemma_last_position_is(s@, c, i as int);
            }
            let before = text_of(&chars, 0, i);
            let after = text_of(&chars, i + 1, n);
            assert(before@ =~= s@.take(i as int));
            assert(after@ =~= s@.skip(i + 1));
            return Some((before, after));
        }
    }
    proof {
        lemma_last_position_is(s@, c, -1);
    }
    None
}

/// Whether a list of texts holds a text.
pub(crate) fn holds_text(list: &Vec<String>, s: &str) -> (r: bool)
    ensures
        r == list.deep_view().contains(s@),
{
    let ghost all = list.deep_view();
    let mut i: usize = 0;
    while i < list.len()
        invariant
            all == list.deep_view(),
            i <= list@.len(),
            forall|j: int| 0 <= j < i ==> #[trigger] all[j] != s@,
        decreases list@.len() - i,
    {
        assert(all[i as int] == list@[i as int]@);
        if str_equal(&list[i], s) {
            return true;
        }
        i = i + 1;
    }
    false
}

/// The texts of a list without those that occurred before.
pub open spec fn without_repeats(list: Seq<Seq<char>>) -> Seq<Seq<char>>
    decreases list.len(),
{
    if list.len() == 0 {
        Seq::empty()
    } else {
        let front = without_repeats(list.drop_last());
        if front.contains(list.last()) {
            front
        } else {
            front.push(list.last())
        }
    }
}

/// A list without repetitions holds what the list held, each once.
pub proof fn lemma_without_repeats(list: Seq<Seq<char>>)
    ensures
        without_repeats(list).no_duplicates(),
        forall|x: Seq<char>| #[trigger] without_repeats(list).contains(x) <==> list.contains(x),
    decreases list.len(),
{
    if list.len() > 0 {
        let front = list.drop_last();
        let last = list.last();
        lemma_without_repeats(front);
        let f = without_repeats(front);
        let all = without_repeats(list);
        assert(list[list.len() - 1] == last);
        assert forall|x: Seq<char>| #[trigger] all.contains(x) <==> list.contains(x) by {
            if list.contains(x) && x != last {
                let i = choose|i: int| 0 <= i < list.len() && list[i] == x;
                assert(front[i] == x);
            }
            if front.contains(x) {
                let i = choose|i: int| 0 <= i < front.len() && front[i] == x;
                assert(list[i] == x);
            }
            if !f.contains(last) {
                assert(all[f.len() as int] == last);
                if f.contains(x) {
                    let i = choose|i: int| 0 <= i < f.len() && f[i] == x;
                    assert(all[i] == x);
                }
                if all.contains(x) && x != last {
                    let i = choose|i: int| 0 <= i < all.len() && all[i] == x;
                    assert(f[i] == x);
                }
            }
        }
    }
}

// ── Words and bounded splits ─────────────────────────────────────────────

/// The first position from `from` on whose character is white space or not, as
/// asked, or the end.
pub open spec fn space_from(s: Seq<char>, from: int, space: bool) -> int
    decreases s.len() - from,
{
    if 0 <= from < s.len() && is_space(s[from]) != space {
        space_from(s, from + 1, space)
    } else {
        from
    }
}

/// Where `space_from` can lie.
pub proof fn lemma_space_from(s: Seq<char>, from: int, space: bool)
    requires
        0 <= from <= s.len(),
    ensures
        from <= space_from(s, from, space) <= s.len(),
        space_from(s, from, space) < s.len() ==> is_space(s[space_from(s, from, space)]) == space,
    decreases s.len() - from,
{
    if from < s.len() && is_space(s[from]) != space {
        lemma_space_from(s, from + 1, space);
    }
}

/// The words of a text from a position on: its longest stretches without white
/// space.
pub open spec fn words_from(s: Seq<char>, from: int) -> Seq<Seq<char>>
    decreases s.len() - from,
{
    if 0 <= from <= s.len() {
        let start = space_from(s, from, false);
        let end = space_from(s, start, true);
        proof {
            lemma_space_from(s, from, false);
            lemma_space_from(s, start, true);
        }
        if start < s.len() {
            seq![s.subrange(start, end)] + words_from(s, end)
        } else {
            Seq::empty()
        }
    } else {
        Seq::empty()
    }
}

/// The words of a text.
pub open spec fn words(s: Seq<char>) -> Seq<Seq<char>> {
    words_from(s, 0)
}

/// The words of a text.
pub(crate) fn split_whitespace(s: &str) -> (r: Vec<String>)
    ensures
        r.deep_view() == words(s@),
{
    let chars = chars_of(s);
    let n: usize = chars.len();
    let mut r: Vec<String> = Vec::new();
    let mut from: usize = 0;
    assert(r.deep_view() + words(s@) =~= words(s@));
    loop
        invariant
            chars@ == s@,
            n == chars@.len(),
            from <= n,
            r.deep_view() + words_from(s@, from as int) == words(s@),
        decreases n - from,
    {
        let mut start: usize = from;
        while start < n && char_is_space(chars[start])
            invariant
                chars@ == s@,
                n == chars@.len(),
                from <= start <= n,
                space_from(s@, from as int, false) == space_from(s@, start as int, false),
            decreases n - start,
        {
            start = start + 1;
        }
        if start == n {
            assert(r.deep_view() =~= words(s@));
            return r;
        }
        let mut end: usize = start;
        while end < n && !char_is_space(chars[end])
            invariant
                chars@ == s@,
                n == chars@.len(),
                start <= end <= n,
                space_from(s@, start as int, true) == space_from(s@, end as int, true),
            decreases n - end,
        {
            end = end + 1;
        }
        let ghost before = r.deep_view();
        let word = text_of(&chars, start, end);
        r.push(word);
        proof {
            assert(!is_space(s@[start as int]));
            assert(end > start);
            let rest = words_from(s@, end as int);
            assert(r.deep_view() =~= before.push(word@));
            assert(before + (seq![word@] + rest) =~= before.push(word@) + rest);
        }
        from = end;
    }
}

/// Words are not empty.
pub proof fn lemma_words_not_empty(s: Seq<char>, from: int)
    ensures
        forall|i: int| 0 <= i < words_from(s, from).len() ==> (#[trigger] words_from(s, from)[i]).len()
            > 0,
    decreases s.len() - from,
{
    if 0 <= from <= s.len() {
        let start = space_from(s, from, false);
        lemma_space_from(s, from, false);
        if start < s.len() {
            lemma_space_from(s, start, true);
            let end = space_from(s, start, true);
            assert(!is_space(s[start]));
            assert(end == space_from(s, start + 1, true));
            lemma_space_from(s, start + 1, true);
            lemma_words_not_empty(s, end);
            let rest = words_from(s, end);
            assert forall|i: int| 0 <= i < words_from(s, from).len() implies (
            #[trigger] words_from(s, from)[i]).len() > 0 by {
                if i > 0 {
                    assert(words_from(s, from)[i] == rest[i - 1]);
                }
            }
        }
    }
}

/// The first parts of a text between the occurrences of `c`, at most `n` of
/// them; the last holds all that is left.
pub open spec fn split_at_most(s: Seq<char>, c: char, n: nat) -> Seq<Seq<char>>
    decreases n,
{
    match split_first(s, c) {
        Some((before, after)) if n > 1 => seq![before] + split_at_most(after, c, (n - 1) as nat),
        _ => seq![s],
    }
}

/// The first parts of a text between the occurrences of `c`, at most `n`.
pub(crate) fn splitn(s: &str, c: char, n: usize) -> (r: Vec<String>)
    ensures
        r.deep_view() == split_at_most(s@, c, n as nat),
        r@.len() >= 1,
{
    let mut r: Vec<String> = Vec::new();
    let mut rest = s.to_string();
    let mut left: usize = n;
    assert(r.deep_view() + split_at_most(s@, c, n as nat) =~= split_at_most(s@, c, n as nat));
    loop
        invariant
            r.deep_view() + split_at_most(rest@, c, left as nat) == split_at_most(s@, c, n as nat),
        decreases left,
    {
        let ghost before = r.deep_view();
        if left > 1 {
            match split_once(&rest, c) {
                Some((head, tail)) => {
                    r.push(head);
                    proof {
                        let more = split_at_most(tail@, c, (left - 1) as nat);
                        assert(r.deep_view() =~= before.push(head@));
                        assert(before + (seq![head@] + more) =~= before.push(head@) + more);
                    }
                    rest = tail;
                    left = left - 1;
                    continue;
                },
                None => {},
            }
        }
        let ghost last = rest@;
        r.push(rest);
        assert(r.deep_view() =~= before + seq![last]);
        return r;
    }
}

/// A text without the occurrences of `c` at its end.
pub open spec fn without_trailing(s: Seq<char>, c: char) -> Seq<char>
    decreases s.len(),
{
    if s.len() > 0 && s.last() == c {
        without_trailing(s.drop_last(), c)
    } else {
        s
    }
}

/// A text without the occurrences of `c` at its end.
pub(crate) fn trim_end_matches(s: &str, c: char) -> (r: String)
    ensures
        r@ == without_trailing(s@, c),
{
    let chars = chars_of(s);
    let mut to: usize = chars.len();
    assert(s@.take(to as int) =~= s@);
    while to > 0 && chars[to - 1] == c
        invariant
            chars@ == s@,
            to <= chars@.len(),
            without_trailing(s@, c) == without_trailing(s@.take(to as int), c),
        decreases to,
    {
        assert(s@.take(to as int).drop_last() =~= s@.take(to - 1));
        to = to - 1;
    }
    assert(s@.take(to as int) =~= chars@.subrange(0, to as int));
    text_of(&chars, 0, to)
}

/// The texts from one position of a list up to another.
pub(crate) fn part_of(list: &Vec<String>, from: usize, to: usize) -> (r: Vec<String>)
    requires
        from <= to <= list@.len(),
    ensures
        r.deep_view() == list.deep_view().subrange(from as int, to as int),
{
    let mut r: Vec<String> = Vec::new();
    let mut i: usize = from;
    while i < to
        invariant
            from <= i <= to <= list@.len(),
            r@.len() == i - from,
            forall|j: int| 0 <= j < i - from ==> (#[trigger] r@[j])@ == list@[from + j]@,
        decreases to - i,
    {
        r.push(list[i].clone());
        i = i + 1;
    }
    assert(r.deep_view() =~= list.deep_view().subrange(from as int, to as int));
    r
}

// ── Splitting and joining belong together ────────────────────────────────

/// A text that two texts make with `c` between them splits into the parts of
/// both.
pub proof fn lemma_split_concat(a: Seq<char>, b: Seq<char>, c: char)
    ensures
        split_on(a + seq![c] + b, c) == split_on(a, c) + split_on(b, c),
    decreases a.len(),
{
    let s = a + seq![c] + b;
    let p = position(a, c);
    lemma_position(a, c);
    if p < a.len() {
        assert forall|i: int| 0 <= i < p implies #[trigger] s[i] != c by {
            assert(s[i] == a[i]);
        }
        assert(s[p] == a[p]);
        lemma_position_is(s, c, p);
        assert(s.take(p) =~= a.take(p));
        let rest = a.skip(p + 1);
        assert(s.skip(p + 1) =~= rest + seq![c] + b);
        lemma_split_concat(rest, b, c);
        assert(seq![a.take(p)] + (split_on(rest, c) + split_on(b, c)) =~= (seq![a.take(p)]
            + split_on(rest, c)) + split_on(b, c));
    } else {
        let n = a.len() as int;
        assert forall|i: int| 0 <= i < n implies #[trigger] s[i] != c by {
            assert(s[i] == a[i]);
        }
        assert(s[n] == c);
        lemma_position_is(s, c, n);
        assert(s.take(n) =~= a);
        assert(s.skip(n + 1) =~= b);
    }
}

/// A text without `c` is its only part.
pub proof fn lemma_split_single(s: Seq<char>, c: char)
    requires
        !s.contains(c),
    ensures
        split_on(s, c) == seq![s],
{
    lemma_position(s, c);
}

/// What joining makes of a first part and others.
pub proof fn lemma_joined_front(first: Seq<char>, rest: Seq<Seq<char>>, sep: Seq<char>)
    requires
        rest.len() > 0,
    ensures
        joined(seq![first] + rest, sep) == first + sep + joined(rest, sep),
    decreases rest.len(),
{
    let all = seq![first] + rest;
    if rest.len() == 1 {
        assert(all.drop_last() =~= seq![first]);
        assert(joined(all.drop_last(), sep) =~= first);
    } else {
        assert(all.drop_last() =~= seq![first] + rest.drop_last());
        lemma_joined_front(first, rest.drop_last(), sep);
        assert((first + sep + joined(rest.drop_last(), sep)) + sep + rest.last() =~= first + sep + (
        joined(rest.drop_last(), sep) + sep + rest.last()));
    }
}

/// A text has at least one part.
pub proof fn lemma_split_nonempty(s: Seq<char>, c: char)
    ensures
        split_on(s, c).len() > 0,
{
}

/// Joining the parts of a text gives the text back.
pub proof fn lemma_join_split(s: Seq<char>, c: char)
    ensures
        joined(split_on(s, c), seq![c]) == s,
    decreases s.len(),
{
    let p = position(s, c);
    lemma_position(s, c);
    if p < s.len() {
        let rest = s.skip(p + 1);
        lemma_join_split(rest, c);
        lemma_split_nonempty(rest, c);
        lemma_joined_front(s.take(p), split_on(rest, c), seq![c]);
        assert(s.take(p) + seq![c] + rest =~= s);
    }
}

} // verus!
