use tur::args::parse_size;
use tur::cli::filename_from_url;
use tur::cli::parse_deep_link;
use tur::cli::url_of_line;
use tur::cli::urlencoding_decode;
use tur::downloads::headers::extract_content_length;
use tur::downloads::headers::extract_etag;
use tur::downloads::headers::extract_filename;
use tur::downloads::headers::extract_filename_from_url;
use tur::downloads::headers::supports_resume;

// Each function is held against the same rule written with the string
// methods of the standard library.

const TEXTS: &[&str] = &[
    "",
    " ",
    "1",
    "1K",
    "1k",
    "12m",
    "3G",
    "3g ",
    " \t7M\r\n",
    "\u{a0}5K\u{3000}",
    "\u{2003}5K\u{85}",
    "\u{1680}9\u{2028}",
    "\u{200b}9",
    "\u{feff}9K",
    "9\u{212a}",
    "9ß",
    "9ǆ",
    "+9K",
    "-9K",
    "++9",
    "9 K",
    "K",
    "k9",
    "0x10",
    "١٢٣",
    "１２３",
    "18446744073709551615",
    "18446744073709551616",
    "000000000000000000000000018446744073709551615",
    "18014398509481983K",
    "9999999999999999999999G",
    "1.5M",
    "1e3",
    "attachment; filename=\"file.zip\"",
    "attachment; filename=file.zip; size=3",
    "attachment;filename*=UTF-8''na%20me.zip",
    "filename*=a'b",
    "filename*=a'b'c'd;filename=e",
    "filename=\"\"\"",
    "filename=\"a\" ",
    "\u{a0}filename=x\u{a0}",
    "x;; ;filename=y",
    "FILENAME=x",
    "filename",
    "filename=;filename=z",
    "https://example.com/a/b/c.zip",
    "https://example.com/a/b/c.zip?x=/y#z",
    "https://example.com/a/b/#z?q",
    "https://example.com/a/b/?",
    "https://example.com",
    "////",
    "a/b?c#d/e?f#g",
    "#",
    "?",
    "?#",
    "a%20b+c",
    "%",
    "%%",
    "%4",
    "%41%",
    "%+4x",
    "%-4x",
    "%4+x",
    "% 4x",
    "%g1%1g%G1",
    "%aA%Ff%00%7f%80%ff",
    "%é1",
    "%1é",
    "é%",
    "%%%41",
    "+%2B+",
    "tur://download?url=a%2Fb&url=c",
    "tur://download?x=1&url=&y",
    "tur://download?&&url=%%41",
    "tur://download?urlx=1&Xurl=2",
    "tur://download?url",
    "tur://download",
    "tur://downloads?url=a",
    " tur://download?url=a",
    "# comment",
    "  # comment",
    "\u{a0}#x",
    "x # y",
    "bytes",
    "BYTES",
    "bYtEs",
    "bytes\u{0}",
    "byteſ",
    "\"",
    "\"\"",
    "\"a\"b\"",
    "a\"\"",
    "W/\"x\"",
];

fn size_with_std(s: &str) -> Option<u64> {
    let s = s.trim().to_uppercase();
    let (num, mult): (&str, u64) = if s.ends_with('G') {
        (&s[..s.len() - 1], 1024 * 1024 * 1024)
    } else if s.ends_with('M') {
        (&s[..s.len() - 1], 1024 * 1024)
    } else if s.ends_with('K') {
        (&s[..s.len() - 1], 1024)
    } else {
        (s.as_str(), 1)
    };
    num.parse::<u64>().unwrap_or(0).checked_mul(mult)
}

#[test]
fn parse_size_agrees() {
    for text in TEXTS {
        match size_with_std(text) {
            Some(expected) => assert_eq!(parse_size(text), expected, "{:?}", text),
            None => assert_eq!(parse_size(text), u64::MAX, "{:?}", text),
        }
    }
}

fn filename_with_std(cd: &str) -> Option<String> {
    cd.split(';').find_map(|part| {
        let part = part.trim();
        if part.starts_with("filename=") {
            Some(part[9..].trim_matches('"').to_string())
        } else if part.starts_with("filename*=") {
            part[10..].split('\'').nth(2).map(|s| s.to_string())
        } else {
            None
        }
    })
}

#[test]
fn extract_filename_agrees() {
    for text in TEXTS {
        assert_eq!(extract_filename(Some(text)), filename_with_std(text), "{:?}", text);
    }
}

fn url_filename_with_std(url: &str) -> String {
    url.rsplit('/')
        .next()
        .and_then(|s| s.split('?').next())
        .and_then(|s| s.split('#').next())
        .filter(|s| !s.is_empty())
        .unwrap_or("download")
        .to_string()
}

fn terminal_filename_with_std(url: &str) -> String {
    url.split('/')
        .last()
        .and_then(|s| s.split('?').next())
        .unwrap_or("download")
        .to_string()
}

#[test]
fn filenames_of_urls_agree() {
    for text in TEXTS {
        assert_eq!(extract_filename_from_url(text), url_filename_with_std(text), "{:?}", text);
        assert_eq!(filename_from_url(text), terminal_filename_with_std(text), "{:?}", text);
    }
}

fn decode_with_std(s: &str) -> String {
    let mut result = String::new();
    let mut chars = s.chars().peekable();
    while let Some(c) = chars.next() {
        if c == '%' {
            let hex: String = chars.by_ref().take(2).collect();
            if let Ok(byte) = u8::from_str_radix(&hex, 16) {
                result.push(byte as char);
            }
        } else if c == '+' {
            result.push(' ');
        } else {
            result.push(c);
        }
    }
    result
}

fn deep_link_with_std(deep_link: &str) -> Option<String> {
    if let Some(query) = deep_link.strip_prefix("tur://download?") {
        for param in query.split('&') {
            if let Some(url) = param.strip_prefix("url=") {
                return Some(decode_with_std(url));
            }
        }
    }
    None
}

#[test]
fn url_decoding_agrees() {
    for text in TEXTS {
        assert_eq!(urlencoding_decode(text), decode_with_std(text), "{:?}", text);
        assert_eq!(parse_deep_link(text), deep_link_with_std(text), "{:?}", text);
    }
    for a in ['0', '9', 'a', 'f', 'g', 'A', 'F', 'G', '+', '-', ' ', '%', 'é', '/', ':', '@', '`'] {
        for b in ['0', '9', 'a', 'f', 'g', 'A', 'F', 'G', '+', '-', ' ', '%', 'é', '/', ':', '@', '`'] {
            let text = format!("x%{}{}y%{}", a, b, a);
            assert_eq!(urlencoding_decode(&text), decode_with_std(&text), "{:?}", text);
        }
    }
}

#[test]
fn numbers_and_trimming_agree() {
    for text in TEXTS {
        assert_eq!(extract_content_length(Some(text)), text.parse::<u64>().ok(), "{:?}", text);
        assert_eq!(
            extract_etag(Some(text)),
            Some(text.trim_matches('"').to_string()),
            "{:?}",
            text
        );
        assert_eq!(
            supports_resume(Some(text)),
            text.eq_ignore_ascii_case("bytes"),
            "{:?}",
            text
        );
        let trimmed = text.trim();
        let expected = if !trimmed.is_empty() && !trimmed.starts_with('#') {
            Some(trimmed.to_string())
        } else {
            None
        };
        assert_eq!(url_of_line(text), expected, "{:?}", text);
    }
}

#[test]
fn white_space_is_what_the_standard_library_trims() {
    for code in 0..0x11_0000u32 {
        if let Some(c) = char::from_u32(code) {
            let text = format!("{}x{}", c, c);
            let expected = if c.is_whitespace() { Some("x".to_string()) } else { Some(text.clone()) };
            let expected = if c == '#' { None } else { expected };
            assert_eq!(url_of_line(&text), expected, "{:x}", code);
        }
    }
}
