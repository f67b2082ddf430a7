use tur::downloads::headers::extract_content_length;
use tur::downloads::headers::extract_etag;
use tur::downloads::headers::extract_filename;
use tur::downloads::headers::extract_filename_from_url;
use tur::downloads::headers::extract_last_modified;
use tur::downloads::headers::parse_deep_link;
use tur::downloads::headers::supports_resume;
use tur::downloads::headers::DeepLink;

fn name(header: &str) -> Option<String> {
    extract_filename(Some(header))
}

#[test]
fn filename_of_content_disposition() {
    assert_eq!(name("attachment; filename=\"file.zip\""), Some("file.zip".to_string()));
    assert_eq!(name("attachment; filename=file.zip"), Some("file.zip".to_string()));
    assert_eq!(name("attachment;filename=a;filename=b"), Some("a".to_string()));
    assert_eq!(name("filename=\"\"\"a\"b\"\""), Some("a\"b".to_string()));
    assert_eq!(name("filename=\"\""), Some("".to_string()));
    assert_eq!(name("filename="), Some("".to_string()));
    assert_eq!(name("  \t filename=x  "), Some("x".to_string()));
    assert_eq!(name("filename= \"x\""), Some(" \"x".to_string()));
    assert_eq!(name("attachment"), None);
    assert_eq!(name(""), None);
    assert_eq!(name("attachment; name=x"), None);
    assert_eq!(name("Filename=x"), None);
    assert_eq!(extract_filename(None), None);
}

#[test]
fn extended_filename_of_content_disposition() {
    assert_eq!(name("attachment; filename*=UTF-8''na%20me.zip"), Some("na%20me.zip".to_string()));
    assert_eq!(name("filename*=UTF-8'en'x'y"), Some("x".to_string()));
    assert_eq!(name("filename*=a'b'"), Some("".to_string()));
    // Without two apostrophes the parameter gives no name, and the next one is looked at.
    assert_eq!(name("filename*=UTF-8'x; filename=\"y\""), Some("y".to_string()));
    assert_eq!(name("filename*=x"), None);
    assert_eq!(name("filename=\"a\"; filename*=UTF-8''b"), Some("a".to_string()));
}

#[test]
fn filename_at_the_end_of_a_url() {
    assert_eq!(extract_filename_from_url("https://example.com/a/file.zip"), "file.zip");
    assert_eq!(extract_filename_from_url("https://example.com/file.zip?x=1#top"), "file.zip");
    assert_eq!(extract_filename_from_url("https://example.com/file.zip#top?x"), "file.zip");
    assert_eq!(extract_filename_from_url("https://example.com/a?b=/c"), "c");
    assert_eq!(extract_filename_from_url("https://example.com/"), "download");
    assert_eq!(extract_filename_from_url("https://example.com/?x=1"), "download");
    assert_eq!(extract_filename_from_url("https://example.com/#a"), "download");
    assert_eq!(extract_filename_from_url(""), "download");
    assert_eq!(extract_filename_from_url("file.zip"), "file.zip");
}

#[test]
fn content_length_etag_and_date() {
    assert_eq!(extract_content_length(Some("1024")), Some(1024));
    assert_eq!(extract_content_length(Some("+7")), Some(7));
    assert_eq!(extract_content_length(Some("007")), Some(7));
    assert_eq!(extract_content_length(Some("18446744073709551615")), Some(u64::MAX));
    assert_eq!(extract_content_length(Some("18446744073709551616")), None);
    assert_eq!(extract_content_length(Some(" 1024")), None);
    assert_eq!(extract_content_length(Some("1024 ")), None);
    assert_eq!(extract_content_length(Some("-1")), None);
    assert_eq!(extract_content_length(Some("")), None);
    assert_eq!(extract_content_length(Some("+")), None);
    assert_eq!(extract_content_length(Some("1e3")), None);
    assert_eq!(extract_content_length(None), None);

    assert_eq!(extract_etag(Some("\"aaa\"")), Some("aaa".to_string()));
    assert_eq!(extract_etag(Some("W/\"aaa\"")), Some("W/\"aaa".to_string()));
    assert_eq!(extract_etag(Some("\"\"")), Some("".to_string()));
    assert_eq!(extract_etag(Some("\"")), Some("".to_string()));
    assert_eq!(extract_etag(Some("a\"b")), Some("a\"b".to_string()));
    assert_eq!(extract_etag(Some("")), Some("".to_string()));
    assert_eq!(extract_etag(None), None);

    assert_eq!(
        extract_last_modified(Some("Wed, 21 Oct 2015 07:28:00 GMT")),
        Some("Wed, 21 Oct 2015 07:28:00 GMT".to_string())
    );
    assert_eq!(extract_last_modified(None), None);
}

#[test]
fn accept_ranges() {
    assert!(supports_resume(Some("bytes")));
    assert!(supports_resume(Some("Bytes")));
    assert!(supports_resume(Some("BYTES")));
    assert!(!supports_resume(Some("none")));
    assert!(!supports_resume(Some("bytes ")));
    assert!(!supports_resume(Some("")));
    assert!(!supports_resume(Some("bytés")));
    assert!(!supports_resume(None));
}

#[test]
fn deep_link_with_all_fields() {
    let link = "tur://download?url=https%3A%2F%2Fexample.com%2Fa%20b.zip&filename=a+b.zip&size=1024";
    assert_eq!(
        parse_deep_link(link),
        Some(DeepLink {
            url: "https://example.com/a%20b.zip".to_string(),
            filename: Some("a b.zip".to_string()),
            size: Some(1024),
        })
    );
}

#[test]
fn deep_link_takes_the_first_of_each_key() {
    let link = "tur://download?size=x&size=5&url=http://EXAMPLE.com&url=http://other.org&name=n";
    assert_eq!(
        parse_deep_link(link),
        Some(DeepLink { url: "http://example.com/".to_string(), filename: None, size: None })
    );
}

#[test]
fn deep_link_without_a_url() {
    assert_eq!(parse_deep_link("tur://download?filename=a"), None);
    assert_eq!(parse_deep_link("tur://download"), None);
    assert_eq!(parse_deep_link("tur://download?url=not%20a%20url"), None);
    assert_eq!(parse_deep_link("tur://download?url="), None);
    assert_eq!(parse_deep_link("not a link"), None);
    assert_eq!(parse_deep_link(""), None);
}
