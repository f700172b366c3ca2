//! How request targets, patterns and names are read, told by what they are made of.
use super::globs::{fits, glob_matches, lemma_plain_pattern};
use super::paths::{
    escaped_byte, last_occurrence, lemma_percent_roundtrip, page_params, params_of, percent_decode,
    percent_decoded, query_params, route, split_path, unescaped, Route,
};
use super::repository_names::{
    alnum_end, component_from, first_bad, gap_end, is_component, is_separator,
    is_valid_name_component, lemma_ends, validate_repository_name,
};
use crate::auth::oauth2::percent_encode;
use crate::error::LayerhouseError;
use crate::string_map::StringMap;
use crate::text::{
    contains_text, decimal_text, lemma_decimal_is_read_back, lemma_position, lemma_position_is,
    lemma_split_concat, lemma_split_single, occurs_at, split_on, trimmed, without_trailing,
};
use super::repositories::requested_name;
use vstd::prelude::*;
use vstd::utf8::encode_utf8;

verus! {

// ── Patterns ─────────────────────────────────────────────────────────────

proof fn lemma_star(rest: Seq<char>, value: Seq<char>)
    ensures
        fits(seq!['*'] + rest, value) <==> exists|i: int|
            0 <= i <= value.len() && fits(rest, #[trigger] value.skip(i)),
    decreases value.len(),
{
    let pattern = seq!['*'] + rest;
    assert(pattern.skip(1) =~= rest);
    assert(value.skip(0) =~= value);
    if value.len() > 0 {
        let tail = value.skip(1);
        lemma_star(rest, tail);
        if exists|i: int| 0 <= i <= tail.len() && fits(rest, #[trigger] tail.skip(i)) {
            let i = choose|i: int| 0 <= i <= tail.len() && fits(rest, #[trigger] tail.skip(i));
            assert(tail.skip(i) =~= value.skip(i + 1));
        }
        if exists|i: int| 0 <= i <= value.len() && fits(rest, #[trigger] value.skip(i)) {
            let i = choose|i: int| 0 <= i <= value.len() && fits(rest, #[trigger] value.skip(i));
            if i > 0 {
                assert(tail.skip(i - 1) =~= value.skip(i));
            }
        }
    }
}

proof fn lemma_prefix_then(prefix: Seq<char>, rest: Seq<char>, value: Seq<char>)
    requires
        !prefix.contains('*'),
    ensures
        fits(prefix + rest, value) <==> prefix.is_prefix_of(value) && fits(
            rest,
            value.skip(prefix.len() as int),
        ),
    decreases prefix.len(),
{
    if prefix.len() == 0 {
        assert(prefix + rest =~= rest);
        assert(value.skip(0) =~= value);
        assert(value.take(0) =~= prefix);
    } else {
        let p = prefix.skip(1);
        assert(prefix.contains(prefix[0]));
        assert(!p.contains('*')) by {
            if p.contains('*') {
                let i = choose|i: int| 0 <= i < p.len() && p[i] == '*';
                assert(prefix[i + 1] == '*');
            }
        }
        assert((prefix + rest).skip(1) =~= p + rest);
        if value.len() > 0 {
            let v = value.skip(1);
            lemma_prefix_then(p, rest, v);
            if prefix.len() <= value.len() {
                assert(v.skip(p.len() as int) =~= value.skip(prefix.len() as int));
            }
            if prefix.is_prefix_of(value) {
                assert(v.take(p.len() as int) =~= p);
                assert(value[0] == prefix[0]);
            }
            if p.is_prefix_of(v) && value[0] == prefix[0] {
                assert(value.take(prefix.len() as int) =~= prefix) by {
                    assert forall|i: int| 0 <= i < prefix.len() implies value[i] == prefix[i] by {
                        if i > 0 {
                            assert(v[i - 1] == p[i - 1]);
                        }
                    }
                }
            }
        }
    }
}

/// A text fits a pattern where it starts as the pattern does up to the first star, and what
/// is left of it, without some of its beginning, fits what follows the star. A pattern
/// without a star fits itself only.
pub proof fn lemma_what_fits_a_pattern(
    pattern: &str,
    value: &str,
    start: Seq<char>,
    rest: Seq<char>,
    r: bool,
)
    requires
        call_ensures(glob_matches, (pattern, value), r),
        !start.contains('*'),
    ensures
        pattern@ == start ==> (r <==> value@ == start),
        pattern@ == start + seq!['*'] + rest ==> (r <==> start.is_prefix_of(value@) && exists|i: int|
            start.len() <= i <= value@.len() && fits(rest, #[trigger] value@.skip(i))),
{
    if pattern@ == start {
        lemma_plain_pattern(start, value@);
    }
    if pattern@ == start + seq!['*'] + rest {
        let tail = seq!['*'] + rest;
        assert(pattern@ =~= start + tail);
        lemma_prefix_then(start, tail, value@);
        let n = start.len() as int;
        if start.is_prefix_of(value@) {
            let v = value@.skip(n);
            lemma_star(rest, v);
            if exists|i: int| 0 <= i <= v.len() && fits(rest, #[trigger] v.skip(i)) {
                let i = choose|i: int| 0 <= i <= v.len() && fits(rest, #[trigger] v.skip(i));
                assert(v.skip(i) =~= value@.skip(n + i));
            }
            if exists|i: int| n <= i <= value@.len() && fits(rest, #[trigger] value@.skip(i)) {
                let i = choose|i: int|
                    n <= i <= value@.len() && fits(rest, #[trigger] value@.skip(i));
                assert(v.skip(i - n) =~= value@.skip(i));
            }
        }
    }
}

// ── Percent encoding ─────────────────────────────────────────────────────

/// What was encoded is decoded again.
pub proof fn lemma_encoding_is_undone(value: &str, text: &str, encoded: String, r: String)
    requires
        call_ensures(percent_encode, (value,), encoded),
        text@ == encoded@,
        call_ensures(percent_decode, (text,), r),
    ensures
        r@ == value@,
{
    lemma_percent_roundtrip(value@);
}

/// An escape is a percent sign and two hexadecimal digits, of which letters count the same
/// in both cases; what is no escape stays as it is.
pub proof fn lemma_escapes(rest: Seq<u8>, high: u8, low: u8, b: u8)
    ensures
        escaped_byte(high, low) matches Some(v) ==> unescaped(seq![37u8, high, low] + rest) == seq![
            v,
        ] + unescaped(rest),
        b != 37 ==> unescaped(seq![b] + rest) == seq![b] + unescaped(rest),
        97 <= high <= 102 ==> escaped_byte(high, low) == escaped_byte((high - 32) as u8, low),
        97 <= low <= 102 ==> escaped_byte(high, low) == escaped_byte(high, (low - 32) as u8),
        48 <= high <= 57 && 48 <= low <= 57 ==> escaped_byte(high, low) == Some(
            ((high - 48) * 16 + (low - 48)) as u8,
        ),
        65 <= high <= 70 && 48 <= low <= 57 ==> escaped_byte(high, low) == Some(
            ((high - 55) * 16 + (low - 48)) as u8,
        ),
        48 <= high <= 57 && 65 <= low <= 70 ==> escaped_byte(high, low) == Some(
            ((high - 48) * 16 + (low - 55)) as u8,
        ),
{
    let s = seq![37u8, high, low] + rest;
    assert(s.skip(3) =~= rest);
    assert((seq![b] + rest).skip(1) =~= rest);
}

// ── Queries ──────────────────────────────────────────────────────────────

proof fn lemma_params_push(pairs: Seq<Seq<char>>, pair: Seq<char>, key: Seq<char>, value: Seq<char>)
    ensures
        pair == key + seq!['='] + value && !key.contains('=') ==> params_of(pairs.push(pair))
            == params_of(pairs).insert(percent_decoded(key), percent_decoded(value)),
        !pair.contains('=') ==> params_of(pairs.push(pair)) == params_of(pairs),
{
    assert(pairs.push(pair).drop_last() =~= pairs);
    if pair == key + seq!['='] + value && !key.contains('=') {
        assert forall|i: int| 0 <= i < key.len() implies #[trigger] pair[i] != '=' by {
            assert(pair[i] == key[i]);
            assert(key.contains(key[i]));
        }
        lemma_position_is(pair, '=', key.len() as int);
        assert(pair.take(key.len() as int) =~= key);
        assert(pair.skip(key.len() as int + 1) =~= value);
    }
    if !pair.contains('=') {
        lemma_position(pair, '=');
    }
}

/// Each part of a query gives a key its value, decoded, and the last one counts; a part
/// without an equals sign gives none, and without a query there are none.
pub proof fn lemma_one_more_parameter(
    query: &str,
    longer: &str,
    key: Seq<char>,
    value: Seq<char>,
    before: StringMap<String>,
    after: StringMap<String>,
    without: StringMap<String>,
)
    requires
        longer@ == query@ + seq!['&'] + (key + seq!['='] + value),
        !key.contains('='),
        !key.contains('&'),
        !value.contains('&'),
        call_ensures(query_params, (Some(query),), before),
        call_ensures(query_params, (Some(longer),), after),
        call_ensures(query_params, (None::<&str>,), without),
    ensures
        after@ == before@.insert(percent_decoded(key), percent_decoded(value)),
        without@.dom() == Set::<Seq<char>>::empty(),
{
    let pair = key + seq!['='] + value;
    assert(!pair.contains('&')) by {
        if pair.contains('&') {
            let i = choose|i: int| 0 <= i < pair.len() && pair[i] == '&';
            if i < key.len() {
                assert(key[i] == '&');
            } else if i > key.len() {
                assert(value[i - key.len() - 1] == '&');
            }
        }
    }
    lemma_split_concat(query@, pair, '&');
    lemma_split_single(pair, '&');
    let parts = split_on(query@, '&');
    assert(parts + seq![pair] =~= parts.push(pair));
    lemma_params_push(parts, pair, key, value);
    assert(without@.dom() =~= Set::<Seq<char>>::empty());
}

/// A client asks for as many names as it says in digits, and for those after the one that
/// it names.
pub proof fn lemma_asked_pages(
    params: &StringMap<String>,
    n: usize,
    r: (Option<usize>, Option<String>),
)
    requires
        call_ensures(page_params, (params,), r),
    ensures
        params@.dom().contains("n"@) && params@["n"@] == decimal_text(n as nat) ==> r.0 == Some(n),
        !params@.dom().contains("n"@) ==> r.0 is None,
        r.1 is Some <==> params@.dom().contains("last"@),
        r.1 matches Some(t) ==> t@ == params@["last"@],
{
    lemma_decimal_is_read_back(n as u64);
    assert(r.1.deep_view() is Some <==> r.1 is Some);
}

// ── Routes ───────────────────────────────────────────────────────────────

proof fn lemma_last_is(s: Seq<char>, part: Seq<char>, to: int, p: int)
    requires
        0 <= p <= to,
        occurs_at(s, part, p),
        forall|i: int| p < i <= to ==> !#[trigger] occurs_at(s, part, i),
    ensures
        last_occurrence(s, part, to) == p,
    decreases to - p,
{
    if p < to {
        assert(!occurs_at(s, part, to));
        lemma_last_is(s, part, to - 1, p);
    }
}

proof fn lemma_no_last(s: Seq<char>, part: Seq<char>, to: int)
    ensures
        !contains_text(s, part) ==> last_occurrence(s, part, to) < 0,
    decreases to + 1,
{
    if to >= 0 && !contains_text(s, part) {
        if occurs_at(s, part, to) {
            assert(contains_text(s, part));
        }
        lemma_no_last(s, part, to - 1);
    }
}

/// What stands behind a text that ends with a slash and holds none itself is all that
/// follows its last occurrence.
proof fn lemma_tail_of_a_path(name: Seq<char>, needle: Seq<char>, tail: Seq<char>)
    requires
        needle.len() > 0,
        needle.last() == '/',
        !tail.contains('/'),
    ensures
        split_path(name + needle + tail, needle) == Some((name, tail)),
{
    let s = name + needle + tail;
    let p = name.len() as int;
    let m = needle.len() as int;
    assert(s.subrange(p, p + m) =~= needle);
    assert(occurs_at(s, needle, p));
    assert forall|i: int| p < i <= s.len() implies !#[trigger] occurs_at(s, needle, i) by {
        if occurs_at(s, needle, i) {
            assert(s.subrange(i, i + m)[m - 1] == s[i + m - 1]);
            assert(s[i + m - 1] == '/');
            assert(s[i + m - 1] == tail[i - p - 1]);
            assert(tail.contains('/'));
        }
    }
    lemma_last_is(s, needle, s.len() as int, p);
    assert(s.take(p) =~= name);
    assert(s.skip(p + m) =~= tail);
}

/// A path without uploads in it.
pub open spec fn is_no_upload(path: Seq<char>) -> bool {
    !contains_text(path, "/blobs/uploads/"@) && !"/blobs/uploads"@.is_suffix_of(path)
}

/// A path below a repository asks for an upload, a manifest, the tags, the referrers or a
/// blob of that repository, as what stands between its name and the rest says.
pub proof fn lemma_routes(path: &str, name: Seq<char>, tail: Seq<char>, r: Route)
    requires
        call_ensures(route, (path,), r),
        tail.len() > 0,
        !tail.contains('/'),
    ensures
        path@ == name + "/blobs/uploads/"@ + tail ==> (r matches Route::UploadSession {
            name: n,
            session_id,
        } && n@ == name && session_id@ == tail),
        path@ == name + "/manifests/"@ + tail && is_no_upload(path@) ==> (r matches Route::Manifest {
            name: n,
            reference,
        } && n@ == name && reference@ == tail),
        path@ == name + "/referrers/"@ + tail && is_no_upload(path@) && !contains_text(
            path@,
            "/manifests/"@,
        ) && !"/tags/list"@.is_suffix_of(path@) ==> (r matches Route::Referrers { name: n, digest }
            && n@ == name && digest@ == tail),
        path@ == name + "/blobs/"@ + tail && is_no_upload(path@) && !contains_text(
            path@,
            "/manifests/"@,
        ) && !"/tags/list"@.is_suffix_of(path@) && !contains_text(path@, "/referrers/"@) ==> (
        r matches Route::Blob { name: n, digest } && n@ == name && digest@ == tail),
{
    reveal_strlit("/blobs/uploads/");
    reveal_strlit("/manifests/");
    reveal_strlit("/referrers/");
    reveal_strlit("/blobs/");
    let s = path@;
    lemma_no_last(s, "/blobs/uploads/"@, s.len() as int);
    lemma_no_last(s, "/manifests/"@, s.len() as int);
    lemma_no_last(s, "/referrers/"@, s.len() as int);
    assert(tail.contains(tail.last()));
    if s == name + "/blobs/uploads/"@ + tail {
        assert(s.last() == tail.last());
        lemma_tail_of_a_path(name, "/blobs/uploads/"@, tail);
    }
    if s == name + "/manifests/"@ + tail {
        assert(s.last() == tail.last());
        lemma_tail_of_a_path(name, "/manifests/"@, tail);
    }
    if s == name + "/referrers/"@ + tail {
        assert(s.last() == tail.last());
        lemma_tail_of_a_path(name, "/referrers/"@, tail);
    }
    if s == name + "/blobs/"@ + tail {
        assert(s.last() == tail.last());
        lemma_tail_of_a_path(name, "/blobs/"@, tail);
    }
}

/// A path that ends with the uploads of a repository starts one, and a path that ends with
/// the list of its tags asks for that.
pub proof fn lemma_routes_without_a_tail(path: &str, name: Seq<char>, r: Route)
    requires
        call_ensures(route, (path,), r),
        !contains_text(path@, "/blobs/uploads/"@),
    ensures
        path@ == name + "/blobs/uploads"@ ==> (r matches Route::UploadStart { name: n } && n@
            == name),
        path@ == name + "/tags/list"@ && !contains_text(path@, "/manifests/"@) ==> (
        r matches Route::Tags { name: n } && n@ == name),
{
    reveal_strlit("/blobs/uploads");
    reveal_strlit("/tags/list");
    let s = path@;
    lemma_no_last(s, "/blobs/uploads/"@, s.len() as int);
    lemma_no_last(s, "/manifests/"@, s.len() as int);
    if s == name + "/blobs/uploads"@ {
        assert(s.last() == "/blobs/uploads"@[13]);
        assert(s.skip(s.len() - 14) =~= "/blobs/uploads"@);
        assert(s.take(s.len() - 14) =~= name);
    }
    if s == name + "/tags/list"@ {
        assert(s.last() == "/tags/list"@[9]);
        assert(s.skip(s.len() - 10) =~= "/tags/list"@);
        assert(s.take(s.len() - 10) =~= name);
        if "/blobs/uploads"@.is_suffix_of(s) {
            assert(s[s.len() - 1] == "/blobs/uploads"@[13]);
        }
    }
}

/// Slashes at the end of a path do not count.
pub proof fn lemma_trailing_slashes(path: &str, longer: &str, a: Route, b: Route)
    requires
        longer@ == path@ + seq!['/'],
        call_ensures(route, (path,), a),
        call_ensures(route, (longer,), b),
    ensures
        a@ == b@,
{
    assert(longer@.drop_last() =~= path@);
    assert(longer@.last() == '/');
    assert(without_trailing(longer@, '/') == without_trailing(path@, '/'));
}

// ── Names ────────────────────────────────────────────────────────────────

proof fn lemma_first_bad(parts: Seq<Seq<char>>, from: int)
    requires
        0 <= from <= parts.len(),
    ensures
        from <= first_bad(parts, from) <= parts.len(),
        first_bad(parts, from) == parts.len() <==> forall|i: int|
            from <= i < parts.len() ==> is_component(#[trigger] parts[i]),
    decreases parts.len() - from,
{
    if from < parts.len() && is_component(parts[from]) {
        lemma_first_bad(parts, from + 1);
    }
}

/// A repository name is not empty, has at most two hundred and fifty-five bytes, and each of
/// its parts between slashes is a component.
pub proof fn lemma_repository_names(
    name: &str,
    r: Result<(), LayerhouseError>,
)
    requires
        call_ensures(validate_repository_name, (name,), r),
    ensures
        r is Ok <==> name@.len() > 0 && encode_utf8(name@).len() <= 255 && forall|i: int|
            0 <= i < split_on(name@, '/').len() ==> is_component(#[trigger] split_on(name@, '/')[i]),
        r matches Err(e) ==> e is NameInvalid,
{
    lemma_first_bad(split_on(name@, '/'), 0);
}

/// Whether a character is a small letter or a digit.
pub open spec fn is_small(c: char) -> bool {
    ('a' <= c && c <= 'z') || ('0' <= c && c <= '9')
}

proof fn lemma_runs(s: Seq<char>, from: int)
    requires
        0 <= from <= s.len(),
    ensures
        from <= alnum_end(s, from) <= s.len(),
        from <= gap_end(s, from) <= s.len(),
        forall|i: int| from <= i < alnum_end(s, from) ==> is_small(#[trigger] s[i]),
        alnum_end(s, from) < s.len() ==> !is_small(s[alnum_end(s, from)]),
        forall|i: int| from <= i < gap_end(s, from) ==> !is_small(#[trigger] s[i]),
        gap_end(s, from) < s.len() ==> is_small(s[gap_end(s, from)]),
    decreases s.len() - from,
{
    if from < s.len() {
        lemma_runs(s, from + 1);
    }
}

proof fn lemma_alnum_end_is(s: Seq<char>, from: int, end: int)
    requires
        0 <= from <= end <= s.len(),
        forall|i: int| from <= i < end ==> is_small(#[trigger] s[i]),
        end < s.len() ==> !is_small(s[end]),
    ensures
        alnum_end(s, from) == end,
    decreases end - from,
{
    if from < end {
        assert(is_small(s[from]));
        lemma_alnum_end_is(s, from + 1, end);
    }
}

proof fn lemma_gap_end_is(s: Seq<char>, from: int, end: int)
    requires
        0 <= from <= end <= s.len(),
        forall|i: int| from <= i < end ==> !is_small(#[trigger] s[i]),
        end < s.len() ==> is_small(s[end]),
    ensures
        gap_end(s, from) == end,
    decreases end - from,
{
    if from < end {
        assert(!is_small(s[from]));
        lemma_gap_end_is(s, from + 1, end);
    }
}

proof fn lemma_component_ends(s: Seq<char>, from: int)
    requires
        component_from(s, from),
    ensures
        0 <= from < s.len(),
        is_small(s[from]),
        is_small(s.last()),
    decreases s.len() - from,
{
    let a = alnum_end(s, from);
    let b = gap_end(s, a);
    lemma_ends(s, from);
    lemma_ends(s, a);
    lemma_runs(s, from);
    assert(is_small(s[from]));
    if a < s.len() {
        lemma_component_ends(s, b);
    } else {
        assert(is_small(s[a - 1]));
    }
}

/// A component that starts later in a longer text reads the same.
proof fn lemma_component_shift(front: Seq<char>, s: Seq<char>, from: int)
    requires
        component_from(s, from),
    ensures
        component_from(front + s, front.len() + from),
    decreases s.len() - from,
{
    let t = front + s;
    let n = front.len() as int;
    let a = alnum_end(s, from);
    let b = gap_end(s, a);
    lemma_ends(s, from);
    lemma_ends(s, a);
    lemma_runs(s, from);
    lemma_runs(s, a);
    assert forall|i: int| n + from <= i < n + a implies is_small(#[trigger] t[i]) by {
        assert(t[i] == s[i - n]);
    }
    lemma_alnum_end_is(t, n + from, n + a);
    if a < s.len() {
        assert forall|i: int| n + a <= i < n + b implies !is_small(#[trigger] t[i]) by {
            assert(t[i] == s[i - n]);
        }
        lemma_gap_end_is(t, n + a, n + b);
        assert(t.subrange(n + a, n + b) =~= s.subrange(a, b));
        lemma_component_shift(front, s, b);
    }
}

/// Two components with a separator between them are one.
proof fn lemma_components_join(a: Seq<char>, sep: Seq<char>, b: Seq<char>, from: int)
    requires
        component_from(a, from),
        is_component(b),
        sep.len() > 0,
        is_separator(sep),
    ensures
        component_from(a + sep + b, from),
    decreases a.len() - from,
{
    let s = a + sep + b;
    let e = alnum_end(a, from);
    let g = gap_end(a, e);
    lemma_ends(a, from);
    lemma_ends(a, e);
    lemma_runs(a, from);
    lemma_runs(a, e);
    lemma_component_ends(b, 0);
    assert forall|i: int| 0 <= i < sep.len() implies !is_small(#[trigger] sep[i]) by {
        if sep == seq!['.'] || sep == seq!['_'] {
            assert(i == 0);
        } else if sep == seq!['_', '_'] {
            assert(i == 0 || i == 1);
        } else {
            assert(sep[i] == '-');
        }
    }
    let n = a.len() as int;
    let m = sep.len() as int;
    assert forall|i: int| from <= i < e implies is_small(#[trigger] s[i]) by {
        assert(s[i] == a[i]);
    }
    if e == n {
        assert(s[n] == sep[0]);
        lemma_alnum_end_is(s, from, n);
        assert forall|i: int| n <= i < n + m implies !is_small(#[trigger] s[i]) by {
            assert(s[i] == sep[i - n]);
        }
        assert(s[n + m] == b[0]);
        lemma_gap_end_is(s, n, n + m);
        assert(s.subrange(n, n + m) =~= sep);
        lemma_component_shift(a + sep, b, 0);
    } else {
        assert(s[e] == a[e]);
        lemma_alnum_end_is(s, from, e);
        assert forall|i: int| e <= i < g implies !is_small(#[trigger] s[i]) by {
            assert(s[i] == a[i]);
        }
        assert(s[g] == a[g]);
        lemma_gap_end_is(s, e, g);
        assert(s.subrange(e, g) =~= a.subrange(e, g));
        lemma_components_join(a, sep, b, g);
    }
}

/// A component starts and ends with a small letter or a digit, and between its runs of these
/// stands a dot, an underscore, two underscores or dashes, and nothing else.
pub proof fn lemma_components_of_names(
    first: &str,
    second: &str,
    whole: &str,
    sep: Seq<char>,
    a: bool,
    b: bool,
    r: bool,
)
    requires
        call_ensures(is_valid_name_component, (first,), a),
        call_ensures(is_valid_name_component, (second,), b),
        call_ensures(is_valid_name_component, (whole,), r),
    ensures
        first@.len() > 0 && (forall|i: int| 0 <= i < first@.len() ==> is_small(#[trigger] first@[i]))
            ==> a,
        a ==> first@.len() > 0 && is_small(first@[0]) && is_small(first@.last()),
        a && b && whole@ == first@ + sep + second@ && (sep == seq!['.'] || sep == seq!['_'] || sep
            == seq!['_', '_'] || (sep.len() > 0 && forall|i: int|
            0 <= i < sep.len() ==> #[trigger] sep[i] == '-')) ==> r,
{
    if first@.len() > 0 && (forall|i: int|
        0 <= i < first@.len() ==> is_small(#[trigger] first@[i])) {
        lemma_alnum_end_is(first@, 0, first@.len() as int);
    }
    if a {
        lemma_component_ends(first@, 0);
    }
    if a && b && whole@ == first@ + sep + second@ && (sep == seq!['.'] || sep == seq!['_'] || sep
        == seq!['_', '_'] || (sep.len() > 0 && forall|i: int|
        0 <= i < sep.len() ==> #[trigger] sep[i] == '-')) {
        assert(is_separator(sep));
        assert(sep.len() > 0);
        lemma_components_join(first@, sep, second@, 0);
    }
}

/// Between two runs of letters and digits no other separator stands.
pub proof fn lemma_other_separators(
    whole: &str,
    first: Seq<char>,
    sep: Seq<char>,
    second: Seq<char>,
    r: bool,
)
    requires
        call_ensures(is_valid_name_component, (whole,), r),
        whole@ == first + sep + second,
        first.len() > 0 && second.len() > 0 && sep.len() > 0,
        forall|i: int| 0 <= i < first.len() ==> is_small(#[trigger] first[i]),
        forall|i: int| 0 <= i < sep.len() ==> !is_small(#[trigger] sep[i]),
        is_small(second[0]),
    ensures
        r ==> sep == seq!['.'] || sep == seq!['_'] || sep == seq!['_', '_'] || forall|i: int|
            0 <= i < sep.len() ==> #[trigger] sep[i] == '-',
{
    let s = whole@;
    let n = first.len() as int;
    let m = sep.len() as int;
    assert forall|i: int| 0 <= i < n implies is_small(#[trigger] s[i]) by {
        assert(s[i] == first[i]);
    }
    assert(s[n] == sep[0]);
    lemma_alnum_end_is(s, 0, n);
    assert forall|i: int| n <= i < n + m implies !is_small(#[trigger] s[i]) by {
        assert(s[i] == sep[i - n]);
    }
    assert(s[n + m] == second[0]);
    lemma_gap_end_is(s, n, n + m);
    assert(s.subrange(n, n + m) =~= sep);
}

/// A repository is created under its name without white space around it, where that is a
/// name, and under no other.
pub proof fn lemma_name_of_a_new_repository(
    name: &str,
    bare: &str,
    r: Result<String, LayerhouseError>,
    valid: Result<(), LayerhouseError>,
)
    requires
        call_ensures(requested_name, (name,), r),
        bare@ == trimmed(name@),
        call_ensures(validate_repository_name, (bare,), valid),
    ensures
        r is Ok <==> valid is Ok,
        r matches Ok(n) ==> n@ == bare@,
        r matches Err(e) ==> e is NameInvalid,
{
}

} // verus!
