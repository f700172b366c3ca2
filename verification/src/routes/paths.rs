//! How request targets are taken apart.
use crate::auth::oauth2::{
    encoded_byte, encoded_bytes, is_unreserved, percent_encoded, upper_hex,
};
use crate::string_map::StringMap;
use crate::text::{
    chars_of, concat3, matches_at, occurs_at, parse_u64, parsed_u64, split, split_first, split_on,
    split_once, string_from_utf8, strip_suffix, text_of, trim_end_matches, without_trailing,
};
use vstd::prelude::*;
use vstd::utf8::{
    decode_utf8, encode_utf8, encode_utf8_decode_utf8, encode_utf8_valid_utf8, is_ascii_chars,
    is_ascii_chars_concat, is_ascii_chars_encode_utf8, valid_utf8,
};

verus! {

// ── Percent encoding ─────────────────────────────────────────────────────

/// The value of a hexadecimal digit.
pub open spec fn hex_value(b: u8) -> Option<u8> {
    if 48 <= b <= 57 {
        Some((b - 48) as u8)
    } else if 65 <= b <= 70 {
        Some((b - 55) as u8)
    } else if 97 <= b <= 102 {
        Some((b - 87) as u8)
    } else {
        None
    }
}

/// The byte that the two characters behind a percent sign stand for: two
/// hexadecimal digits, or a plus sign and one.
pub open spec fn escaped_byte(high: u8, low: u8) -> Option<u8> {
    match (hex_value(high), hex_value(low)) {
        (Some(h), Some(l)) => Some((h * 16 + l) as u8),
        (None, Some(l)) => if high == 43 {
            Some(l)
        } else {
            None
        },
        _ => None,
    }
}

/// Some bytes with their escapes replaced.
pub open spec fn unescaped(bytes: Seq<u8>) -> Seq<u8>
    decreases bytes.len(),
{
    if bytes.len() == 0 {
        Seq::empty()
    } else if bytes[0] == 37 && bytes.len() > 2 && escaped_byte(bytes[1], bytes[2]) is Some {
        seq![escaped_byte(bytes[1], bytes[2])->0] + unescaped(bytes.skip(3))
    } else {
        seq![bytes[0]] + unescaped(bytes.skip(1))
    }
}

/// A text with its escapes replaced, where that gives a text.
pub open spec fn percent_decoded(s: Seq<char>) -> Seq<char> {
    let bytes = unescaped(encode_utf8(s));
    if valid_utf8(bytes) {
        decode_utf8(bytes)
    } else {
        s
    }
}

/// The value of a hexadecimal digit.
fn hex_digit_value(b: u8) -> (r: Option<u8>)
    ensures
        r == hex_value(b),
        r matches Some(v) ==> v < 16,
{
    if b >= 48 && b <= 57 {
        Some(b - 48)
    } else if b >= 65 && b <= 70 {
        Some(b - 55)
    } else if b >= 97 && b <= 102 {
        Some(b - 87)
    } else {
        None
    }
}

/// The byte that the two characters behind a percent sign stand for.
fn read_escape(high: u8, low: u8) -> (r: Option<u8>)
    ensures
        r == escaped_byte(high, low),
{
    match (hex_digit_value(high), hex_digit_value(low)) {
        (Some(h), Some(l)) => Some(h * 16 + l),
        (None, Some(l)) => if high == 43 {
            Some(l)
        } else {
            None
        },
        _ => None,
    }
}

/// A text with its escapes replaced. What is no escape stays as it is, and so
/// does a text whose escapes give no text.
pub fn percent_decode(s: &str) -> (r: String)
    ensures
        r@ == percent_decoded(s@),
{
    let bytes = s.as_bytes();
    let ghost all = bytes@;
    let n: usize = bytes.len();
    let mut result: Vec<u8> = Vec::new();
    let mut i: usize = 0;
    assert(all.skip(0) =~= all);
    assert(result@ + unescaped(all) =~= unescaped(all));
    while i < n
        invariant
            all == bytes@,
            n == bytes@.len(),
            i <= n,
            result@ + unescaped(all.skip(i as int)) == unescaped(all),
        decreases n - i,
    {
        let ghost rest = all.skip(i as int);
        let ghost before = result@;
        if bytes[i] == 37 && n - i > 2 {
            match read_escape(bytes[i + 1], bytes[i + 2]) {
                Some(byte) => {
                    result.push(byte);
                    proof {
                        assert(rest[1] == all[i + 1] && rest[2] == all[i + 2]);
                        assert(rest.skip(3) =~= all.skip(i + 3));
                        let more = unescaped(all.skip(i + 3));
                        assert(before + (seq![byte] + more) =~= before.push(byte) + more);
                    }
                    i = i + 3;
                    continue;
                },
                None => {
                    assert(rest[1] == all[i + 1] && rest[2] == all[i + 2]);
                },
            }
        }
        let b: u8 = bytes[i];
        result.push(b);
        proof {
            assert(rest.skip(1) =~= all.skip(i + 1));
            let more = unescaped(all.skip(i + 1));
            assert(before + (seq![b] + more) =~= before.push(b) + more);
        }
        i = i + 1;
    }
    assert(result@ =~= unescaped(all));
    match string_from_utf8(result) {
        Some(text) => {
            proof {
                encode_utf8_decode_utf8(text@);
            }
            text
        },
        None => s.to_string(),
    }
}

// ── Queries ──────────────────────────────────────────────────────────────

/// The parameters of some `key=value` texts. Of several values of a key the last
/// counts; a text without `=` is no parameter.
pub open spec fn params_of(pairs: Seq<Seq<char>>) -> Map<Seq<char>, Seq<char>>
    decreases pairs.len(),
{
    if pairs.len() == 0 {
        Map::empty()
    } else {
        let front = params_of(pairs.drop_last());
        match split_first(pairs.last(), '=') {
            Some((key, value)) => front.insert(percent_decoded(key), percent_decoded(value)),
            None => front,
        }
    }
}

/// The parameters of a query.
pub open spec fn query_of(query: Option<Seq<char>>) -> Map<Seq<char>, Seq<char>> {
    match query {
        Some(text) => params_of(split_on(text, '&')),
        None => Map::empty(),
    }
}

/// The parameters of a query.
pub fn query_params(query: Option<&str>) -> (r: StringMap<String>)
    ensures
        r@ == query_of(
            match query {
                Some(text) => Some(text@),
                None => None,
            },
        ),
{
    let mut params: StringMap<String> = StringMap::new();
    let text = match query {
        Some(text) => text,
        None => return params,
    };
    let pairs = split(text, '&');
    let ghost all = pairs.deep_view();
    let mut i: usize = 0;
    assert(params@ =~= params_of(all.take(0)));
    while i < pairs.len()
        invariant
            all == pairs.deep_view(),
            i <= pairs@.len(),
            params@ == params_of(all.take(i as int)),
        decreases pairs@.len() - i,
    {
        assert(all.take(i + 1).drop_last() =~= all.take(i as int));
        assert(all.take(i + 1).last() == pairs@[i as int]@);
        match split_once(&pairs[i], '=') {
            Some((key, value)) => {
                params.insert(percent_decode(&key), percent_decode(&value));
            },
            None => {},
        }
        i = i + 1;
    }
    assert(all.take(all.len() as int) =~= all);
    params
}

/// A number of items, as a parameter gives it.
pub open spec fn count_param(value: Seq<char>) -> Option<usize> {
    match parsed_u64(value) {
        Some(n) if n <= usize::MAX => Some(n as usize),
        _ => None,
    }
}

/// How many names a client asks for, and after which one. A number that cannot
/// be read is as good as none.
pub fn page_params(params: &StringMap<String>) -> (r: (Option<usize>, Option<String>))
    ensures
        r.0 == if params@.dom().contains("n"@) {
            count_param(params@["n"@])
        } else {
            None
        },
        r.1.deep_view() == if params@.dom().contains("last"@) {
            Some(params@["last"@])
        } else {
            None
        },
{
    let n: Option<usize> = match params.get("n") {
        Some(value) => {
            let chars = chars_of(value);
            assert(chars@.subrange(0, chars@.len() as int) =~= value@);
            match parse_u64(&chars, 0, chars.len()) {
                Some(n) => if n <= usize::MAX as u64 {
                    Some(n as usize)
                } else {
                    None
                },
                None => None,
            }
        },
        None => None,
    };
    let last = match params.get("last") {
        Some(value) => Some(value.clone()),
        None => None,
    };
    (n, last)
}

// ── Routes ───────────────────────────────────────────────────────────────

/// The last position up to `to` at which `part` stands in `s`, or -1.
pub open spec fn last_occurrence(s: Seq<char>, part: Seq<char>, to: int) -> int
    decreases to + 1,
{
    if to < 0 {
        -1
    } else if occurs_at(s, part, to) {
        to
    } else {
        last_occurrence(s, part, to - 1)
    }
}

/// What `last_occurrence` finds.
pub proof fn lemma_last_occurrence(s: Seq<char>, part: Seq<char>, to: int)
    ensures
        last_occurrence(s, part, to) >= 0 ==> occurs_at(s, part, last_occurrence(s, part, to)),
    decreases to + 1,
{
    if to >= 0 && !occurs_at(s, part, to) {
        lemma_last_occurrence(s, part, to - 1);
    }
}

/// The parts of a path before and behind the last occurrence of a text.
pub open spec fn split_path(path: Seq<char>, needle: Seq<char>) -> Option<(Seq<char>, Seq<char>)> {
    let p = last_occurrence(path, needle, path.len() as int);
    if p >= 0 {
        Some((path.take(p), path.skip(p + needle.len())))
    } else {
        None
    }
}

/// Some segments of a path, with a slash before, between and behind them.
pub open spec fn needle_of(segments: Seq<&str>) -> Seq<char>
    decreases segments.len(),
{
    if segments.len() == 0 {
        "/"@
    } else {
        needle_of(segments.drop_last()) + segments.last()@ + "/"@
    }
}

/// The parts of a path before and behind the last occurrence of some segments.
/// `split_at("library/ubuntu/blobs/sha256:abc", ["blobs"])` gives
/// `library/ubuntu` and `sha256:abc`.
pub fn split_at(path: &str, segments: &[&str]) -> (r: Option<(String, String)>)
    ensures
        r.deep_view() == split_path(path@, needle_of(segments@)),
{
    let mut needle = "/".to_string();
    let mut i: usize = 0;
    assert(segments@.take(0) =~= Seq::empty());
    while i < segments.len()
        invariant
            i <= segments@.len(),
            needle@ == needle_of(segments@.take(i as int)),
        decreases segments@.len() - i,
    {
        assert(segments@.take(i + 1).drop_last() =~= segments@.take(i as int));
        needle = concat3(&needle, segments[i], "/");
        i = i + 1;
    }
    assert(segments@.take(segments@.len() as int) =~= segments@);
    let chars = chars_of(path);
    let wanted = chars_of(&needle);
    let n: usize = chars.len();
    let m: usize = wanted.len();
    let mut at: usize = n;
    loop
        invariant
            chars@ == path@,
            wanted@ == needle@,
            needle@ == needle_of(segments@),
            n == chars@.len(),
            m == wanted@.len(),
            at <= n,
            last_occurrence(path@, needle@, n as int) == last_occurrence(
                path@,
                needle@,
                at as int,
            ),
        decreases at,
    {
        if m <= n - at && matches_at(&chars, &wanted, at) {
            let before = text_of(&chars, 0, at);
            let behind = text_of(&chars, at + m, n);
            assert(before@ =~= path@.take(at as int));
            assert(behind@ =~= path@.skip(at + m));
            return Some((before, behind));
        }
        if at == 0 {
            assert(last_occurrence(path@, needle@, -1) == -1);
            return None;
        }
        at = at - 1;
    }
}

/// What a registry path asks for.
#[derive(Debug, PartialEq, Eq)]
pub enum Route {
    UploadSession { name: String, session_id: String },
    UploadStart { name: String },
    Manifest { name: String, reference: String },
    Tags { name: String },
    Referrers { name: String, digest: String },
    Blob { name: String, digest: String },
    NotFound,
}

/// What a `Route` holds.
pub enum RouteView {
    UploadSession { name: Seq<char>, session_id: Seq<char> },
    UploadStart { name: Seq<char> },
    Manifest { name: Seq<char>, reference: Seq<char> },
    Tags { name: Seq<char> },
    Referrers { name: Seq<char>, digest: Seq<char> },
    Blob { name: Seq<char>, digest: Seq<char> },
    NotFound,
}

impl View for Route {
    type V = RouteView;

    open spec fn view(&self) -> RouteView {
        match self {
            Route::UploadSession { name, session_id } => RouteView::UploadSession {
                name: name@,
                session_id: session_id@,
            },
            Route::UploadStart { name } => RouteView::UploadStart { name: name@ },
            Route::Manifest { name, reference } => RouteView::Manifest {
                name: name@,
                reference: reference@,
            },
            Route::Tags { name } => RouteView::Tags { name: name@ },
            Route::Referrers { name, digest } => RouteView::Referrers {
                name: name@,
                digest: digest@,
            },
            Route::Blob { name, digest } => RouteView::Blob { name: name@, digest: digest@ },
            Route::NotFound => RouteView::NotFound,
        }
    }
}

/// What a registry path without trailing slashes asks for.
pub open spec fn plain_route(path: Seq<char>) -> RouteView {
    if let Some((name, session_id)) = split_path(path, "/blobs/uploads/"@) {
        RouteView::UploadSession { name, session_id }
    } else if "/blobs/uploads"@.is_suffix_of(path) {
        RouteView::UploadStart { name: path.take(path.len() - "/blobs/uploads"@.len()) }
    } else if let Some((name, reference)) = split_path(path, "/manifests/"@) {
        RouteView::Manifest { name, reference }
    } else if "/tags/list"@.is_suffix_of(path) {
        RouteView::Tags { name: path.take(path.len() - "/tags/list"@.len()) }
    } else if let Some((name, digest)) = split_path(path, "/referrers/"@) {
        RouteView::Referrers { name, digest }
    } else if let Some((name, digest)) = split_path(path, "/blobs/"@) {
        RouteView::Blob { name, digest }
    } else {
        RouteView::NotFound
    }
}

/// What a registry path asks for.
pub open spec fn route_of(path: Seq<char>) -> RouteView {
    plain_route(without_trailing(path, '/'))
}

/// What a registry path asks for. Trailing slashes do not count.
pub fn route(path: &str) -> (r: Route)
    ensures
        r@ == route_of(path@),
{
    let path = trim_end_matches(path, '/');
    let uploads: [&str; 2] = ["blobs", "uploads"];
    let manifests: [&str; 1] = ["manifests"];
    let referrers: [&str; 1] = ["referrers"];
    let blobs: [&str; 1] = ["blobs"];
    proof {
        lemma_needles();
        assert(uploads@ =~= seq!["blobs", "uploads"]);
        assert(manifests@ =~= seq!["manifests"]);
        assert(referrers@ =~= seq!["referrers"]);
        assert(blobs@ =~= seq!["blobs"]);
    }
    if let Some((name, session_id)) = split_at(&path, &uploads) {
        return Route::UploadSession { name, session_id };
    }
    if let Some(name) = strip_suffix(&path, "/blobs/uploads") {
        return Route::UploadStart { name };
    }
    if let Some((name, reference)) = split_at(&path, &manifests) {
        return Route::Manifest { name, reference };
    }
    if let Some(name) = strip_suffix(&path, "/tags/list") {
        return Route::Tags { name };
    }
    if let Some((name, digest)) = split_at(&path, &referrers) {
        return Route::Referrers { name, digest };
    }
    if let Some((name, digest)) = split_at(&path, &blobs) {
        return Route::Blob { name, digest };
    }
    Route::NotFound
}

/// The texts that the routes look for.
proof fn lemma_needles()
    ensures
        needle_of(seq!["blobs", "uploads"]) == "/blobs/uploads/"@,
        needle_of(seq!["manifests"]) == "/manifests/"@,
        needle_of(seq!["referrers"]) == "/referrers/"@,
        needle_of(seq!["blobs"]) == "/blobs/"@,
{
    reveal_with_fuel(needle_of, 4);
    reveal_strlit("/");
    reveal_strlit("blobs");
    reveal_strlit("uploads");
    reveal_strlit("manifests");
    reveal_strlit("referrers");
    reveal_strlit("/blobs/uploads/");
    reveal_strlit("/manifests/");
    reveal_strlit("/referrers/");
    reveal_strlit("/blobs/");
    assert(seq!["blobs", "uploads"].drop_last() =~= seq!["blobs"]);
    assert(seq!["blobs"].drop_last() =~= Seq::<&str>::empty());
    assert(seq!["manifests"].drop_last() =~= Seq::<&str>::empty());
    assert(seq!["referrers"].drop_last() =~= Seq::<&str>::empty());
    assert(needle_of(seq!["blobs"]) =~= "/blobs/"@);
    assert(needle_of(seq!["blobs", "uploads"]) =~= "/blobs/uploads/"@);
    assert(needle_of(seq!["manifests"]) =~= "/manifests/"@);
    assert(needle_of(seq!["referrers"]) =~= "/referrers/"@);
}

// ── Laws ─────────────────────────────────────────────────────────────────

/// The path that a route stands for.
pub open spec fn route_path(r: RouteView) -> Seq<char> {
    match r {
        RouteView::UploadSession { name, session_id } => name + "/blobs/uploads/"@ + session_id,
        RouteView::UploadStart { name } => name + "/blobs/uploads"@,
        RouteView::Manifest { name, reference } => name + "/manifests/"@ + reference,
        RouteView::Tags { name } => name + "/tags/list"@,
        RouteView::Referrers { name, digest } => name + "/referrers/"@ + digest,
        RouteView::Blob { name, digest } => name + "/blobs/"@ + digest,
        RouteView::NotFound => Seq::empty(),
    }
}

/// The parts before and behind an occurrence make up the path with it.
proof fn lemma_split_path(path: Seq<char>, needle: Seq<char>)
    ensures
        split_path(path, needle) matches Some((name, rest)) ==> path == name + needle + rest,
{
    lemma_last_occurrence(path, needle, path.len() as int);
    let p = last_occurrence(path, needle, path.len() as int);
    if p >= 0 {
        assert(path.take(p) + path.subrange(p, p + needle.len()) + path.skip(p + needle.len())
            =~= path);
    }
}

/// A suffix and what stands before it make up the path.
proof fn lemma_suffix_path(path: Seq<char>, suffix: Seq<char>)
    requires
        suffix.is_suffix_of(path),
    ensures
        path == path.take(path.len() - suffix.len()) + suffix,
{
    assert(path.take(path.len() - suffix.len()) + path.skip(path.len() - suffix.len()) =~= path);
    assert(path.skip(path.len() - suffix.len()) =~= suffix);
}

/// What a route names are the parts of the path: put together again they give
/// the path without its trailing slashes.
pub proof fn lemma_route_names_the_path(path: Seq<char>)
    ensures
        !(route_of(path) is NotFound) ==> route_path(route_of(path)) == without_trailing(path, '/'),
{
    let p = without_trailing(path, '/');
    lemma_split_path(p, "/blobs/uploads/"@);
    lemma_split_path(p, "/manifests/"@);
    lemma_split_path(p, "/referrers/"@);
    lemma_split_path(p, "/blobs/"@);
    if "/blobs/uploads"@.is_suffix_of(p) {
        lemma_suffix_path(p, "/blobs/uploads"@);
    }
    if "/tags/list"@.is_suffix_of(p) {
        lemma_suffix_path(p, "/tags/list"@);
    }
}

/// Encoding a byte in front.
proof fn lemma_encoded_front(b: u8, rest: Seq<u8>)
    ensures
        encoded_bytes(seq![b] + rest) == encoded_byte(b) + encoded_bytes(rest),
    decreases rest.len(),
{
    let all = seq![b] + rest;
    if rest.len() == 0 {
        assert(all.drop_last() =~= Seq::empty());
        assert(encoded_bytes(all.drop_last()) =~= Seq::empty());
        assert(encoded_bytes(all) =~= encoded_byte(b));
        assert(encoded_byte(b) + encoded_bytes(rest) =~= encoded_byte(b));
    } else {
        assert(all.drop_last() =~= seq![b] + rest.drop_last());
        lemma_encoded_front(b, rest.drop_last());
        assert((encoded_byte(b) + encoded_bytes(rest.drop_last())) + encoded_byte(rest.last())
            =~= encoded_byte(b) + (encoded_bytes(rest.drop_last()) + encoded_byte(rest.last())));
    }
}

/// The characters of some ASCII text as bytes.
spec fn ascii_bytes(s: Seq<char>) -> Seq<u8> {
    Seq::new(s.len(), |i: int| s[i] as u8)
}

/// An encoded byte is ASCII.
proof fn lemma_encoded_byte_ascii(b: u8)
    ensures
        is_ascii_chars(encoded_byte(b)),
{
    let e = encoded_byte(b);
    assert forall|i: int| 0 <= i < e.len() implies '\0' <= #[trigger] e[i] <= '\u{7f}' by {
    }
}

/// Encoded bytes are ASCII.
proof fn lemma_encoded_ascii(bytes: Seq<u8>)
    ensures
        is_ascii_chars(encoded_bytes(bytes)),
    decreases bytes.len(),
{
    if bytes.len() > 0 {
        lemma_encoded_ascii(bytes.drop_last());
        lemma_encoded_byte_ascii(bytes.last());
        is_ascii_chars_concat(
            encoded_bytes(bytes),
            encoded_bytes(bytes.drop_last()),
            encoded_byte(bytes.last()),
        );
    }
}

/// Replacing the escapes of encoded bytes gives the bytes back.
proof fn lemma_unescape_encoded(bytes: Seq<u8>)
    ensures
        unescaped(ascii_bytes(encoded_bytes(bytes))) == bytes,
    decreases bytes.len(),
{
    if bytes.len() == 0 {
        assert(ascii_bytes(encoded_bytes(bytes)) =~= Seq::empty());
    } else {
        let b = bytes[0];
        let rest = bytes.skip(1);
        assert(bytes =~= seq![b] + rest);
        lemma_encoded_front(b, rest);
        lemma_unescape_encoded(rest);
        let e = ascii_bytes(encoded_bytes(bytes));
        let tail = ascii_bytes(encoded_bytes(rest));
        if is_unreserved(b) {
            assert(e[0] == b);
            assert(e.skip(1) =~= tail);
        } else {
            let high = (b / 16) as int;
            let low = (b % 16) as int;
            assert(e[0] == 37);
            assert(e[1] == upper_hex(high) as u8);
            assert(e[2] == upper_hex(low) as u8);
            assert(hex_value(e[1]) == Some(high as u8));
            assert(hex_value(e[2]) == Some(low as u8));
            assert(high * 16 + low == b);
            assert(e.skip(3) =~= tail);
        }
    }
}

/// Decoding an encoded parameter gives the parameter back.
pub proof fn lemma_percent_roundtrip(value: Seq<char>)
    ensures
        percent_decoded(percent_encoded(value)) == value,
{
    let bytes = encode_utf8(value);
    let encoded = percent_encoded(value);
    lemma_encoded_ascii(bytes);
    is_ascii_chars_encode_utf8(encoded);
    assert(encode_utf8(encoded) =~= ascii_bytes(encoded));
    lemma_unescape_encoded(bytes);
    encode_utf8_valid_utf8(value);
    encode_utf8_decode_utf8(value);
}

} // verus!
