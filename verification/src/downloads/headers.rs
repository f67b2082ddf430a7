//! What a download learns from response headers and from links.
//!
//! The functions take header values as text, `None` for a header that is
//! absent or not text.

use vstd::prelude::*;
use crate::text::after_last;
use crate::text::after_last_from;
use crate::text::before_first;
use crate::text::chars_of;
use crate::text::eq_ignore_ascii_case;
use crate::text::find_char;
use crate::text::index_of;
use crate::text::opt_text;
use crate::text::parse_u64;
use crate::text::parse_u64_spec;
use crate::text::same_ignoring_ascii_case;
use crate::text::starts_with;
use crate::text::str_is;
use crate::text::string_of;
use crate::text::trim_bounds;
use crate::text::trimmed;

verus! {

/// What a deep link asks to download.
#[derive(Debug, Clone, PartialEq, Eq)]
pub struct DeepLink {
    /// The URL to download, in its normal form.
    pub url: String,
    /// The name to save it under, if the link gives one.
    pub filename: Option<String>,
    /// The size in bytes, if the link gives one.
    pub size: Option<u64>,
}

/// The pairs of key and value in the query of the URL `url`, percent
/// escapes decoded, as the `url` crate reads them; `None` when `url` is not
/// an absolute URL.
pub uninterp spec fn url_query_pairs(url: Seq<char>) -> Option<Seq<(Seq<char>, Seq<char>)>>;

/// The normal form that the `url` crate gives the URL `url`; `None` when
/// `url` is not an absolute URL.
pub uninterp spec fn url_normal_form(url: Seq<char>) -> Option<Seq<char>>;

/// The texts of a sequence of pairs of strings.
pub open spec fn pair_texts(pairs: Seq<(String, String)>) -> Seq<(Seq<char>, Seq<char>)> {
    pairs.map_values(|p: (String, String)| (p.0@, p.1@))
}

/// How many characters at the front of `s` are `c`.
pub open spec fn leading_run(s: Seq<char>, c: char) -> int
    decreases s.len(),
{
    if s.len() > 0 && s[0] == c {
        1 + leading_run(s.drop_first(), c)
    } else {
        0
    }
}

/// How many characters at the end of `s` are `c`.
pub open spec fn trailing_run(s: Seq<char>, c: char) -> int
    decreases s.len(),
{
    if s.len() > 0 && s.last() == c {
        1 + trailing_run(s.drop_last(), c)
    } else {
        0
    }
}

/// `s` without the double quotes at its front and at its end.
pub open spec fn unquoted(s: Seq<char>) -> Seq<char> {
    if leading_run(s, '"') >= s.len() {
        Seq::empty()
    } else {
        s.subrange(leading_run(s, '"'), s.len() - trailing_run(s, '"'))
    }
}

/// The third of the pieces that the apostrophes cut `s` into: the value of
/// an extended parameter `charset'language'value`. `None` with fewer than
/// two apostrophes.
pub open spec fn third_piece(s: Seq<char>) -> Option<Seq<char>> {
    let first = index_of(s, '\'');
    if first >= s.len() {
        None
    } else {
        let rest = s.subrange(first + 1, s.len() as int);
        let second = index_of(rest, '\'');
        if second >= rest.len() {
            None
        } else {
            Some(before_first(rest.subrange(second + 1, rest.len() as int), '\''))
        }
    }
}

/// The file name that one parameter of a `Content-Disposition` header
/// gives, white space around the parameter left out: the value of
/// `filename=` without the quotes around it, or the value part of
/// `filename*=`.
pub open spec fn filename_in_part(part: Seq<char>) -> Option<Seq<char>> {
    let p = trimmed(part);
    if "filename="@.len() <= p.len() && p.subrange(0, "filename="@.len() as int) == "filename="@ {
        Some(unquoted(p.subrange("filename="@.len() as int, p.len() as int)))
    } else if "filename*="@.len() <= p.len() && p.subrange(0, "filename*="@.len() as int)
        == "filename*="@ {
        third_piece(p.subrange("filename*="@.len() as int, p.len() as int))
    } else {
        None
    }
}

/// The file name given by the first parameter of a `Content-Disposition`
/// header that gives one; the parameters are separated by `;`.
pub open spec fn filename_in_header(header: Seq<char>) -> Option<Seq<char>>
    decreases header.len(),
{
    match filename_in_part(before_first(header, ';')) {
        Some(name) => Some(name),
        None => if 0 <= index_of(header, ';') < header.len() {
            filename_in_header(header.subrange(index_of(header, ';') + 1, header.len() as int))
        } else {
            None
        },
    }
}

/// The file name that a URL ends with: what stands behind the last `/`,
/// up to a `?` or `#`; `download` when that is empty.
pub open spec fn filename_in_url(url: Seq<char>) -> Seq<char> {
    let name = before_first(before_first(after_last(url, '/'), '?'), '#');
    if name.len() > 0 {
        name
    } else {
        "download"@
    }
}

/// The value of the first pair of `pairs` whose key is `key`.
pub open spec fn first_value(pairs: Seq<(Seq<char>, Seq<char>)>, key: Seq<char>) -> Option<
    Seq<char>,
>
    decreases pairs.len(),
{
    if pairs.len() == 0 {
        None
    } else if pairs[0].0 == key {
        Some(pairs[0].1)
    } else {
        first_value(pairs.drop_first(), key)
    }
}

/// The size that the pairs of a deep link give: the number that the first
/// `size` spells, if it spells one.
pub open spec fn size_in_pairs(pairs: Seq<(Seq<char>, Seq<char>)>) -> Option<u64> {
    match first_value(pairs, "size"@) {
        Some(text) => parse_u64_spec(text),
        None => None,
    }
}

/// What a deep link means: the normal form of the URL that its first `url`
/// names, with its first `filename` and its first `size`; `None` when the
/// link is no URL, has no `url`, or that is no URL.
pub open spec fn deep_link_spec(link: Seq<char>) -> Option<(Seq<char>, Option<Seq<char>>, Option<u64>)> {
    match url_query_pairs(link) {
        None => None,
        Some(pairs) => match first_value(pairs, "url"@) {
            None => None,
            Some(target) => match url_normal_form(target) {
                None => None,
                Some(url) => Some((url, first_value(pairs, "filename"@), size_in_pairs(pairs))),
            },
        },
    }
}

/// `Url::parse` followed by `Url::query_pairs`, of the `url` crate.
///
/// Claimed of it: it fails exactly when `url` is not an absolute URL, and
/// the pairs it gives depend on the text of `url` alone.
#[verifier::external_body]
pub(crate) fn query_pairs(url: &str) -> (r: Option<Vec<(String, String)>>)
    ensures
        match r {
            Some(pairs) => url_query_pairs(url@) == Some(pair_texts(pairs@)),
            None => url_query_pairs(url@) is None,
        },
{
    url::Url::parse(url).ok().map(
        |u| u.query_pairs().map(|(k, v)| (k.into_owned(), v.into_owned())).collect(),
    )
}

/// `Url::parse` of the `url` crate, the URL given back as text.
///
/// Claimed of it: it fails exactly when `url` is not an absolute URL, and
/// the text it gives depends on the text of `url` alone.
#[verifier::external_body]
pub(crate) fn normal_form(url: &str) -> (r: Option<String>)
    ensures
        opt_text(r) == url_normal_form(url@),
{
    url::Url::parse(url).ok().map(|u| String::from(u))
}

/// The characters of `chars[from..to]` without the double quotes at the
/// front and at the end.
fn unquote_bounds(chars: &Vec<char>, from: usize, to: usize) -> (r: (usize, usize))
    requires
        from <= to <= chars@.len(),
    ensures
        from <= r.0 <= r.1 <= to,
        chars@.subrange(r.0 as int, r.1 as int) == unquoted(chars@.subrange(from as int, to as int)),
{
    let ghost s = chars@.subrange(from as int, to as int);
    let mut a = from;
    proof {
        assert(s.skip(0) =~= s);
    }
    while a < to && chars[a] == '"'
        invariant
            from <= a <= to <= chars@.len(),
            s == chars@.subrange(from as int, to as int),
            leading_run(s, '"') == (a - from) + leading_run(s.skip(a - from), '"'),
        decreases to - a,
    {
        proof {
            assert(s.skip(a - from).drop_first() =~= s.skip(a - from + 1));
            assert(s.skip(a - from)[0] == chars@[a as int]);
        }
        a = a + 1;
    }
    if a == to {
        proof {
            assert(chars@.subrange(to as int, to as int) =~= Seq::<char>::empty());
            lemma_leading_run_bound(s.skip(a - from), '"');
        }
        return (to, to);
    }
    proof {
        assert(s.skip(a - from)[0] == chars@[a as int]);
        assert(s.take(s.len() as int) =~= s);
    }
    let mut b = to;
    while b > a && chars[b - 1] == '"'
        invariant
            from <= a < b <= to <= chars@.len(),
            s == chars@.subrange(from as int, to as int),
            chars@[a as int] != '"',
            trailing_run(s, '"') == (to - b) + trailing_run(s.take(b - from), '"'),
        decreases b,
    {
        proof {
            assert(s.take(b - from).drop_last() =~= s.take(b - from - 1));
            assert(s.take(b - from).last() == chars@[b - 1]);
        }
        b = b - 1;
    }
    proof {
        assert(s.take(b - from).last() == chars@[b - 1]);
        assert(chars@.subrange(a as int, b as int) =~= s.subrange(a - from, b - from));
    }
    (a, b)
}

/// The file name in the parameter `chars[from..to]` of a
/// `Content-Disposition` header.
fn filename_of_part(chars: &Vec<char>, from: usize, to: usize) -> (r: Option<String>)
    requires
        from <= to <= chars@.len(),
    ensures
        opt_text(r) == filename_in_part(chars@.subrange(from as int, to as int)),
{
    let part = string_of(chars, from, to);
    let p = chars_of(part.as_str());
    let (a, b) = trim_bounds(&p);
    let t = string_of(&p, a, b);
    let t = chars_of(t.as_str());
    let n = t.len();
    proof {
        assert(t@ == trimmed(chars@.subrange(from as int, to as int)));
        assert(t@.subrange(0, n as int) =~= t@);
    }
    if starts_with(&t, 0, "filename=") {
        let k = "filename=".unicode_len();
        let (x, y) = unquote_bounds(&t, k, n);
        Some(string_of(&t, x, y))
    } else if starts_with(&t, 0, "filename*=") {
        let k = "filename*=".unicode_len();
        let ghost s = t@.subrange(k as int, n as int);
        let first = find_char(&t, k, n, '\'');
        if first >= n {
            return None;
        }
        let ghost rest = s.subrange(first - k + 1, s.len() as int);
        proof {
            assert(rest =~= t@.subrange(first + 1, n as int));
        }
        let second = find_char(&t, first + 1, n, '\'');
        if second >= n {
            return None;
        }
        proof {
            assert(rest.subrange(second - first, rest.len() as int) =~= t@.subrange(
                second + 1,
                n as int,
            ));
        }
        let third = find_char(&t, second + 1, n, '\'');
        proof {
            assert(t@.subrange(second + 1, n as int).subrange(0, third - second - 1) =~= t@.subrange(
                second + 1,
                third as int,
            ));
        }
        Some(string_of(&t, second + 1, third))
    } else {
        None
    }
}

/// The file name that a `Content-Disposition` header gives.
pub fn extract_filename(content_disposition: Option<&str>) -> (r: Option<String>)
    ensures
        opt_text(r) == match content_disposition {
            Some(header) => filename_in_header(header@),
            None => None,
        },
{
    let header = match content_disposition {
        Some(header) => header,
        None => {
            return None;
        },
    };
    let chars = chars_of(header);
    let n = chars.len();
    let mut from: usize = 0;
    proof {
        assert(chars@.subrange(0, n as int) =~= chars@);
    }
    loop
        invariant
            from <= n,
            n == chars@.len(),
            chars@ == header@,
            content_disposition == Some(header),
            filename_in_header(header@) == filename_in_header(chars@.subrange(from as int, n as int)),
        decreases n - from,
    {
        let ghost rest = chars@.subrange(from as int, n as int);
        let semi = find_char(&chars, from, n, ';');
        proof {
            assert(rest.subrange(0, semi - from) =~= chars@.subrange(from as int, semi as int));
        }
        match filename_of_part(&chars, from, semi) {
            Some(name) => {
                return Some(name);
            },
            None => {},
        }
        if semi >= n {
            return None;
        }
        proof {
            assert(rest.subrange(semi - from + 1, rest.len() as int) =~= chars@.subrange(
                semi + 1,
                n as int,
            ));
        }
        from = semi + 1;
    }
}

/// The file name that a URL ends with, for when no header names one.
pub fn extract_filename_from_url(url: &str) -> (name: String)
    ensures
        name@ == filename_in_url(url@),
{
    let chars = chars_of(url);
    let n = chars.len();
    let from = after_last_from(&chars, '/');
    let question = find_char(&chars, from, n, '?');
    proof {
        assert(chars@.subrange(from as int, n as int).subrange(0, question - from)
            =~= chars@.subrange(from as int, question as int));
    }
    let hash = find_char(&chars, from, question, '#');
    proof {
        assert(chars@.subrange(from as int, question as int).subrange(0, hash - from)
            =~= chars@.subrange(from as int, hash as int));
    }
    if hash > from {
        string_of(&chars, from, hash)
    } else {
        "download".to_owned()
    }
}

/// The length that a `Content-Length` header gives: its value as a
/// decimal number.
pub fn extract_content_length(content_length: Option<&str>) -> (r: Option<u64>)
    ensures
        r == match content_length {
            Some(value) => parse_u64_spec(value@),
            None => None,
        },
{
    match content_length {
        Some(value) => {
            let chars = chars_of(value);
            proof {
                assert(chars@.subrange(0, chars@.len() as int) =~= chars@);
            }
            parse_u64(&chars, 0, chars.len())
        },
        None => None,
    }
}

/// The entity tag that an `ETag` header gives: its value without the
/// quotes around it.
pub fn extract_etag(etag: Option<&str>) -> (r: Option<String>)
    ensures
        opt_text(r) == match etag {
            Some(value) => Some(unquoted(value@)),
            None => None,
        },
{
    match etag {
        Some(value) => {
            let chars = chars_of(value);
            proof {
                assert(chars@.subrange(0, chars@.len() as int) =~= chars@);
            }
            let (a, b) = unquote_bounds(&chars, 0, chars.len());
            Some(string_of(&chars, a, b))
        },
        None => None,
    }
}

/// The date that a `Last-Modified` header gives: its value as it is.
pub fn extract_last_modified(last_modified: Option<&str>) -> (r: Option<String>)
    ensures
        opt_text(r) == match last_modified {
            Some(value) => Some(value@),
            None => None,
        },
{
    match last_modified {
        Some(value) => Some(value.to_owned()),
        None => None,
    }
}

/// Whether the server accepts range requests: its `Accept-Ranges` header
/// says `bytes`, in any case.
pub fn supports_resume(accept_ranges: Option<&str>) -> (r: bool)
    ensures
        r == match accept_ranges {
            Some(value) => same_ignoring_ascii_case(value@, "bytes"@),
            None => false,
        },
{
    match accept_ranges {
        Some(value) => {
            let chars = chars_of(value);
            proof {
                assert(chars@.subrange(0, chars@.len() as int) =~= chars@);
            }
            eq_ignore_ascii_case(&chars, 0, chars.len(), "bytes")
        },
        None => false,
    }
}

/// The value of the first pair whose key is `key`.
pub fn find_value(pairs: &Vec<(String, String)>, key: &str) -> (r: Option<String>)
    ensures
        opt_text(r) == first_value(pair_texts(pairs@), key@),
{
    let ghost all = pair_texts(pairs@);
    let mut i: usize = 0;
    proof {
        assert(all.skip(0) =~= all);
    }
    while i < pairs.len()
        invariant
            i <= pairs@.len(),
            all == pair_texts(pairs@),
            first_value(all, key@) == first_value(all.skip(i as int), key@),
        decreases pairs@.len() - i,
    {
        proof {
            assert(all.skip(i as int).drop_first() =~= all.skip(i + 1));
            assert(all.skip(i as int)[0] == all[i as int]);
        }
        if str_is(pairs[i].0.as_str(), key) {
            return Some(pairs[i].1.clone());
        }
        i = i + 1;
    }
    None
}

/// What the pairs of a deep link's query give besides the URL: the name
/// and the size.
pub fn deep_link_fields(pairs: &Vec<(String, String)>) -> (r: (Option<String>, Option<u64>))
    ensures
        opt_text(r.0) == first_value(pair_texts(pairs@), "filename"@),
        r.1 == size_in_pairs(pair_texts(pairs@)),
{
    let filename = find_value(pairs, "filename");
    let size = match find_value(pairs, "size") {
        Some(text) => {
            let chars = chars_of(text.as_str());
            proof {
                assert(chars@.subrange(0, chars@.len() as int) =~= chars@);
            }
            parse_u64(&chars, 0, chars.len())
        },
        None => None,
    };
    (filename, size)
}

/// Reads a deep link of the form
/// `tur://download?url=<url>&filename=<name>&size=<bytes>`.
pub fn parse_deep_link(url_str: &str) -> (r: Option<DeepLink>)
    ensures
        match r {
            Some(link) => deep_link_spec(url_str@) == Some(
                (link.url@, opt_text(link.filename), link.size),
            ),
            None => deep_link_spec(url_str@) is None,
        },
{
    let pairs = match query_pairs(url_str) {
        Some(pairs) => pairs,
        None => {
            return None;
        },
    };
    let target = match find_value(&pairs, "url") {
        Some(target) => target,
        None => {
            return None;
        },
    };
    let url = match normal_form(target.as_str()) {
        Some(url) => url,
        None => {
            return None;
        },
    };
    let (filename, size) = deep_link_fields(&pairs);
    Some(DeepLink { url, filename, size })
}

/// A run of one character at the front is no longer than the text.
proof fn lemma_leading_run_bound(s: Seq<char>, c: char)
    ensures
        0 <= leading_run(s, c) <= s.len(),
    decreases s.len(),
{
    if s.len() > 0 && s[0] == c {
        lemma_leading_run_bound(s.drop_first(), c);
    }
}

} // verus!
