use tur::cli::exit_code;
use tur::cli::filename_from_url;
use tur::cli::parse_deep_link;
use tur::cli::per_download_limit;
use tur::cli::summary;
use tur::cli::url_of_line;
use tur::cli::urlencoding_decode;
use tur::cli::DownloadResult;

fn result(success: bool) -> DownloadResult {
    DownloadResult {
        url: "https://example.com/a".to_string(),
        filename: "a".to_string(),
        size: 1,
        success,
        error: if success { None } else { Some("HTTP 404".to_string()) },
    }
}

#[test]
fn url_decoding() {
    assert_eq!(urlencoding_decode("https%3A%2F%2Fexample.com%2Fa+b"), "https://example.com/a b");
    assert_eq!(urlencoding_decode("%41%4a%4A"), "AJJ");
    assert_eq!(urlencoding_decode("%e9"), "\u{e9}");
    assert_eq!(urlencoding_decode("%ff"), "\u{ff}");
    assert_eq!(urlencoding_decode("%00"), "\u{0}");
    // What spells no byte is left out, together with the two characters.
    assert_eq!(urlencoding_decode("a%zzb"), "ab");
    assert_eq!(urlencoding_decode("a%-1b"), "ab");
    assert_eq!(urlencoding_decode("a%%41b"), "a1b");
    // A sign is read as part of the number.
    assert_eq!(urlencoding_decode("a%+fb"), "a\u{f}b");
    assert_eq!(urlencoding_decode("a%++b"), "ab");
    // At the end there may be fewer than two characters.
    assert_eq!(urlencoding_decode("a%4"), "a\u{4}");
    assert_eq!(urlencoding_decode("a%"), "a");
    assert_eq!(urlencoding_decode("a%+"), "a");
    assert_eq!(urlencoding_decode(""), "");
    assert_eq!(urlencoding_decode("é+ü"), "é ü");
    assert_eq!(urlencoding_decode("%é41"), "1");
}

#[test]
fn deep_link_on_the_command_line() {
    assert_eq!(
        parse_deep_link("tur://download?url=https%3A%2F%2Fexample.com%2Ffile.zip&size=5"),
        Some("https://example.com/file.zip".to_string())
    );
    assert_eq!(
        parse_deep_link("tur://download?size=5&url=a+b&url=c"),
        Some("a b".to_string())
    );
    assert_eq!(parse_deep_link("tur://download?url="), Some("".to_string()));
    assert_eq!(parse_deep_link("tur://download?xurl=a"), None);
    assert_eq!(parse_deep_link("tur://download?URL=a"), None);
    assert_eq!(parse_deep_link("tur://download?"), None);
    assert_eq!(parse_deep_link("tur://download"), None);
    assert_eq!(parse_deep_link("tur://other?url=a"), None);
    assert_eq!(parse_deep_link("https://example.com/?url=a"), None);
    assert_eq!(parse_deep_link(""), None);
}

#[test]
fn lines_of_a_url_file() {
    assert_eq!(url_of_line("https://example.com/a"), Some("https://example.com/a".to_string()));
    assert_eq!(url_of_line("  https://example.com/a \r"), Some("https://example.com/a".to_string()));
    assert_eq!(url_of_line("a b"), Some("a b".to_string()));
    assert_eq!(url_of_line(""), None);
    assert_eq!(url_of_line("   \t"), None);
    assert_eq!(url_of_line("# comment"), None);
    assert_eq!(url_of_line("   #https://example.com/a"), None);
    assert_eq!(url_of_line("a#b"), Some("a#b".to_string()));
}

#[test]
fn limit_is_shared_among_downloads() {
    assert_eq!(per_download_limit(1000, 3), 333);
    assert_eq!(per_download_limit(1000, 1), 1000);
    assert_eq!(per_download_limit(1000, 0), 0);
    assert_eq!(per_download_limit(0, 3), 0);
    assert_eq!(per_download_limit(2, 3), 0);
}

#[test]
fn name_of_a_url() {
    assert_eq!(filename_from_url("https://example.com/a/file.zip"), "file.zip");
    assert_eq!(filename_from_url("https://example.com/file.zip?x=1"), "file.zip");
    assert_eq!(filename_from_url("https://example.com/file.zip#top"), "file.zip#top");
    assert_eq!(filename_from_url("https://example.com/"), "");
    assert_eq!(filename_from_url("file"), "file");
    assert_eq!(filename_from_url(""), "");
}

#[test]
fn summary_and_exit_code() {
    let all = vec![result(true), result(false), result(true), result(true)];
    assert_eq!(summary(&all), (3, 1));
    assert_eq!(exit_code(&all), 1);
    let good = vec![result(true), result(true)];
    assert_eq!(summary(&good), (2, 0));
    assert_eq!(exit_code(&good), 0);
    assert_eq!(summary(&Vec::new()), (0, 0));
    assert_eq!(exit_code(&Vec::new()), 0);
    assert_eq!(exit_code(&vec![result(false)]), 1);
}
