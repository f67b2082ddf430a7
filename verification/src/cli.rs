//! What the terminal front end decides: which lines of a URL file count,
//! what a deep link on the command line asks for, how a speed limit is
//! shared, how a file is named, and how a run ends.

use vstd::prelude::*;
use crate::text::after_last;
use crate::text::after_last_from;
use crate::text::before_first;
use crate::text::chars_of;
use crate::text::find_char;
use crate::text::index_of;
use crate::text::starts_with;
use crate::text::string_of;
use crate::text::trim_bounds;
use crate::text::trimmed;

verus! {

/// How one download ended.
#[derive(Debug, Clone)]
pub struct DownloadResult {
    pub url: String,
    pub filename: String,
    /// Bytes written.
    pub size: u64,
    pub success: bool,
    /// Why it failed.
    pub error: Option<String>,
}

/// The value of a hexadecimal digit.
pub open spec fn hex_digit(c: char) -> Option<int> {
    if '0' <= c <= '9' {
        Some(c as int - '0' as int)
    } else if 'a' <= c <= 'f' {
        Some(c as int - 'a' as int + 10)
    } else if 'A' <= c <= 'F' {
        Some(c as int - 'A' as int + 10)
    } else {
        None
    }
}

/// The byte that up to two characters behind a `%` stand for: one or two
/// hexadecimal digits, or a `+` and one digit.
pub open spec fn hex_byte(h: Seq<char>) -> Option<u8> {
    if h.len() == 1 {
        match hex_digit(h[0]) {
            Some(d) => Some(d as u8),
            None => None,
        }
    } else if h.len() == 2 && h[0] == '+' {
        match hex_digit(h[1]) {
            Some(d) => Some(d as u8),
            None => None,
        }
    } else if h.len() == 2 {
        match (hex_digit(h[0]), hex_digit(h[1])) {
            (Some(a), Some(b)) => Some((16 * a + b) as u8),
            _ => None,
        }
    } else {
        None
    }
}

/// `s` with its URL encoding undone: `%` and the two characters behind it
/// become the character with that code, or nothing if they spell no byte;
/// `+` becomes a space.
pub open spec fn url_decoded(s: Seq<char>) -> Seq<char>
    decreases s.len(),
{
    if s.len() == 0 {
        Seq::empty()
    } else if s[0] == '%' {
        let end = if s.len() >= 3 {
            3
        } else {
            s.len() as int
        };
        (match hex_byte(s.subrange(1, end)) {
            Some(b) => seq![b as char],
            None => Seq::empty(),
        }) + url_decoded(s.subrange(end, s.len() as int))
    } else if s[0] == '+' {
        seq![' '] + url_decoded(s.drop_first())
    } else {
        seq![s[0]] + url_decoded(s.drop_first())
    }
}

/// The value of the first parameter of `query` that begins with `url=`;
/// the parameters are separated by `&`.
pub open spec fn url_parameter(query: Seq<char>) -> Option<Seq<char>>
    decreases query.len(),
{
    let part = before_first(query, '&');
    if "url="@.len() <= part.len() && part.subrange(0, "url="@.len() as int) == "url="@ {
        Some(part.subrange("url="@.len() as int, part.len() as int))
    } else if 0 <= index_of(query, '&') < query.len() {
        url_parameter(query.subrange(index_of(query, '&') + 1, query.len() as int))
    } else {
        None
    }
}

/// The URL that a deep link `tur://download?...` asks for: the decoded
/// value of its first `url=` parameter.
pub open spec fn deep_link_url(link: Seq<char>) -> Option<Seq<char>> {
    if "tur://download?"@.len() <= link.len() && link.subrange(0, "tur://download?"@.len() as int)
        == "tur://download?"@ {
        match url_parameter(link.subrange("tur://download?"@.len() as int, link.len() as int)) {
            Some(v) => Some(url_decoded(v)),
            None => None,
        }
    } else {
        None
    }
}

/// How many of the results are successes.
pub open spec fn successes(results: Seq<DownloadResult>) -> nat
    decreases results.len(),
{
    if results.len() == 0 {
        0
    } else {
        successes(results.drop_last()) + if results.last().success {
            1nat
        } else {
            0nat
        }
    }
}

/// The value of a hexadecimal digit.
fn hex_value(c: char) -> (r: Option<u8>)
    ensures
        match r {
            Some(d) => hex_digit(c) == Some(d as int) && d < 16,
            None => hex_digit(c) is None,
        },
{
    if '0' <= c && c <= '9' {
        Some((c as u32 - '0' as u32) as u8)
    } else if 'a' <= c && c <= 'f' {
        Some((c as u32 - 'a' as u32 + 10) as u8)
    } else if 'A' <= c && c <= 'F' {
        Some((c as u32 - 'A' as u32 + 10) as u8)
    } else {
        None
    }
}

/// The byte that `chars[from..to]` stands for behind a `%`.
fn hex_byte_of(chars: &Vec<char>, from: usize, to: usize) -> (r: Option<u8>)
    requires
        from <= to <= chars@.len(),
        to - from <= 2,
    ensures
        r == hex_byte(chars@.subrange(from as int, to as int)),
{
    let ghost h = chars@.subrange(from as int, to as int);
    if to - from == 1 {
        proof {
            assert(h[0] == chars@[from as int]);
        }
        hex_value(chars[from])
    } else if to - from == 2 {
        proof {
            assert(h[0] == chars@[from as int]);
            assert(h[1] == chars@[from + 1]);
        }
        if chars[from] == '+' {
            hex_value(chars[from + 1])
        } else {
            match (hex_value(chars[from]), hex_value(chars[from + 1])) {
                (Some(a), Some(b)) => Some(16 * a + b),
                _ => None,
            }
        }
    } else {
        None
    }
}

/// Undoes the URL encoding of `chars[from..to]`.
fn decode_range(chars: &Vec<char>, from: usize, to: usize) -> (r: Vec<char>)
    requires
        from <= to <= chars@.len(),
    ensures
        r@ == url_decoded(chars@.subrange(from as int, to as int)),
{
    let mut out: Vec<char> = Vec::new();
    let mut i = from;
    let ghost all = chars@.subrange(from as int, to as int);
    proof {
        assert(all.subrange(0, all.len() as int) =~= all);
    }
    while i < to
        invariant
            from <= i <= to <= chars@.len(),
            all == chars@.subrange(from as int, to as int),
            url_decoded(all) == out@ + url_decoded(chars@.subrange(i as int, to as int)),
        decreases to - i,
    {
        let ghost s = chars@.subrange(i as int, to as int);
        let c = chars[i];
        proof {
            assert(s[0] == c);
        }
        if c == '%' {
            let end = if to - i >= 3 {
                i + 3
            } else {
                to
            };
            proof {
                assert(s.subrange(1, end - i) =~= chars@.subrange(i + 1, end as int));
                assert(s.subrange(end - i, s.len() as int) =~= chars@.subrange(
                    end as int,
                    to as int,
                ));
            }
            match hex_byte_of(chars, i + 1, end) {
                Some(b) => {
                    proof {
                        assert(out@.push(b as char) + url_decoded(
                            chars@.subrange(end as int, to as int),
                        ) =~= out@ + (seq![b as char] + url_decoded(
                            chars@.subrange(end as int, to as int),
                        )));
                    }
                    out.push(b as char);
                },
                None => {
                    proof {
                        assert(out@ + url_decoded(chars@.subrange(end as int, to as int)) =~= out@
                            + (Seq::<char>::empty() + url_decoded(
                            chars@.subrange(end as int, to as int),
                        )));
                    }
                },
            }
            i = end;
        } else {
            let d = if c == '+' {
                ' '
            } else {
                c
            };
            proof {
                assert(s.drop_first() =~= chars@.subrange(i + 1, to as int));
                assert(out@.push(d) + url_decoded(chars@.subrange(i + 1, to as int)) =~= out@ + (
                seq![d] + url_decoded(chars@.subrange(i + 1, to as int))));
            }
            out.push(d);
            i = i + 1;
        }
    }
    proof {
        assert(chars@.subrange(to as int, to as int) =~= Seq::<char>::empty());
        assert(out@ + Seq::<char>::empty() =~= out@);
    }
    out
}

/// Undoes the URL encoding of `s`.
pub fn urlencoding_decode(s: &str) -> (r: String)
    ensures
        r@ == url_decoded(s@),
{
    let chars = chars_of(s);
    proof {
        assert(chars@.subrange(0, chars@.len() as int) =~= chars@);
    }
    let out = decode_range(&chars, 0, chars.len());
    proof {
        assert(out@.subrange(0, out@.len() as int) =~= out@);
    }
    string_of(&out, 0, out.len())
}

/// The URL that a deep link on the command line asks for.
pub fn parse_deep_link(deep_link: &str) -> (r: Option<String>)
    ensures
        match r {
            Some(url) => deep_link_url(deep_link@) == Some(url@),
            None => deep_link_url(deep_link@) is None,
        },
{
    let chars = chars_of(deep_link);
    let n = chars.len();
    proof {
        assert(chars@.subrange(0, n as int) =~= chars@);
    }
    if !starts_with(&chars, 0, "tur://download?") {
        return None;
    }
    let start = "tur://download?".unicode_len();
    let ghost query = chars@.subrange(start as int, n as int);
    let mut from = start;
    loop
        invariant
            start <= from <= n,
            n == chars@.len(),
            chars@ == deep_link@,
            start == "tur://download?"@.len(),
            query == chars@.subrange(start as int, n as int),
            deep_link_url(deep_link@) == match url_parameter(query) {
                Some(v) => Some(url_decoded(v)),
                None => None,
            },
            url_parameter(query) == url_parameter(chars@.subrange(from as int, n as int)),
        decreases n - from,
    {
        let ghost rest = chars@.subrange(from as int, n as int);
        let amp = find_char(&chars, from, n, '&');
        proof {
            assert(rest.subrange(0, amp - from) =~= chars@.subrange(from as int, amp as int));
        }
        let ghost part = chars@.subrange(from as int, amp as int);
        if amp - from >= 4 && starts_with(&chars, from, "url=") {
            proof {
                assert(part.subrange(0, 4) =~= chars@.subrange(from as int, from + 4));
                assert(part.subrange(4, part.len() as int) =~= chars@.subrange(
                    from + 4,
                    amp as int,
                ));
                reveal_strlit("url=");
            }
            let out = decode_range(&chars, from + 4, amp);
            proof {
                assert(out@.subrange(0, out@.len() as int) =~= out@);
            }
            return Some(string_of(&out, 0, out.len()));
        }
        proof {
            reveal_strlit("url=");
            if part.len() >= 4 {
                assert(part.subrange(0, 4) =~= chars@.subrange(from as int, from + 4));
            }
        }
        if amp >= n {
            return None;
        }
        proof {
            assert(rest.subrange(amp - from + 1, rest.len() as int) =~= chars@.subrange(
                amp + 1,
                n as int,
            ));
        }
        from = amp + 1;
    }
}

/// Whether a line of a URL file names a URL: it is not empty and no
/// comment, white space around it left aside. The URL is the line without
/// that white space.
pub fn url_of_line(line: &str) -> (r: Option<String>)
    ensures
        match r {
            Some(url) => url@ == trimmed(line@) && url@.len() > 0 && url@[0] != '#',
            None => trimmed(line@).len() == 0 || trimmed(line@)[0] == '#',
        },
{
    let chars = chars_of(line);
    let (from, to) = trim_bounds(&chars);
    if from < to && chars[from] != '#' {
        Some(string_of(&chars, from, to))
    } else {
        proof {
            if from < to {
                assert(trimmed(line@)[0] == chars@[from as int]);
            }
        }
        None
    }
}

/// The share of a speed limit that each of `downloads` downloads gets; 0,
/// no limit, when there is no limit or nothing to download.
pub fn per_download_limit(speed_limit: u64, downloads: usize) -> (limit: u64)
    ensures
        limit == if speed_limit > 0 && downloads > 0 {
            speed_limit as int / downloads as int
        } else {
            0
        },
{
    if speed_limit > 0 && downloads > 0 {
        speed_limit / (downloads as u64)
    } else {
        0
    }
}

/// The name under which the terminal front end saves a URL: what stands
/// behind its last `/`, up to a `?`.
pub fn filename_from_url(url: &str) -> (name: String)
    ensures
        name@ == before_first(after_last(url@, '/'), '?'),
{
    let chars = chars_of(url);
    let n = chars.len();
    let from = after_last_from(&chars, '/');
    let question = find_char(&chars, from, n, '?');
    proof {
        assert(chars@.subrange(from as int, n as int).subrange(0, question - from)
            =~= chars@.subrange(from as int, question as int));
    }
    string_of(&chars, from, question)
}

/// How many downloads succeeded and how many failed.
pub fn summary(results: &Vec<DownloadResult>) -> (r: (usize, usize))
    ensures
        r.0 == successes(results@),
        r.0 + r.1 == results@.len(),
{
    let mut ok: usize = 0;
    let mut i: usize = 0;
    while i < results.len()
        invariant
            i <= results@.len(),
            ok <= i,
            ok == successes(results@.take(i as int)),
        decreases results@.len() - i,
    {
        proof {
            assert(results@.take(i + 1).drop_last() =~= results@.take(i as int));
        }
        if results[i].success {
            ok = ok + 1;
        }
        i = i + 1;
    }
    proof {
        assert(results@.take(results@.len() as int) =~= results@);
    }
    (ok, results.len() - ok)
}

/// The exit code of a run: 0 when every download succeeded, else 1.
pub fn exit_code(results: &Vec<DownloadResult>) -> (code: u8)
    ensures
        code == if successes(results@) == results@.len() {
            0u8
        } else {
            1u8
        },
{
    let (_, failed) = summary(results);
    if failed == 0 {
        0
    } else {
        1
    }
}

} // verus!
