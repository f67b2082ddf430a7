use tur::args::handle_early_args;
use tur::args::parse_size;
use tur::args::AppArgs;
use tur::args::EarlyAction;

fn strings(args: &[&str]) -> Vec<String> {
    args.iter().map(|a| a.to_string()).collect()
}

#[test]
fn test_parse_size() {
    assert_eq!(parse_size("1K"), 1024);
    assert_eq!(parse_size("1M"), 1024 * 1024);
    assert_eq!(parse_size("1G"), 1024 * 1024 * 1024);
    assert_eq!(parse_size("500K"), 500 * 1024);
    assert_eq!(parse_size("2m"), 2 * 1024 * 1024);
}

#[test]
fn test_gui_default_no_urls() {
    let args = AppArgs::parse_from_vec(&[]);
    assert!(args.gui);
}

#[test]
fn test_terminal_with_url() {
    let args = AppArgs::parse_from_vec(&["https://example.com/file.zip".into()]);
    assert!(!args.gui);
    assert_eq!(args.urls.len(), 1);
}

#[test]
fn parse_size_edge_cases() {
    assert_eq!(parse_size("500"), 500);
    assert_eq!(parse_size("  3k \n"), 3 * 1024);
    assert_eq!(parse_size("+7M"), 7 * 1024 * 1024);
    assert_eq!(parse_size(""), 0);
    assert_eq!(parse_size("K"), 0);
    assert_eq!(parse_size("abc"), 0);
    assert_eq!(parse_size("1.5M"), 0);
    assert_eq!(parse_size("-1"), 0);
    assert_eq!(parse_size("1 K"), 0);
    assert_eq!(parse_size("18446744073709551615"), u64::MAX);
    assert_eq!(parse_size("18446744073709551616"), 0);
    assert_eq!(parse_size("17179869183G"), 17179869183 * 1024 * 1024 * 1024);
    assert_eq!(parse_size("17179869184G"), u64::MAX);
}

#[test]
fn flags_and_options() {
    let args = AppArgs::parse_from_vec(&strings(&[
        "-q", "--debug", "-m", "-o", "/tmp/out", "--file", "urls.txt", "-c", "16", "--limit",
        "2M", "--unknown", "example.com/a", "http://example.com/b", "tur://download?url=x",
    ]));
    assert!(args.quiet);
    assert!(!args.interactive);
    assert!(args.debug);
    assert!(args.minimized);
    assert!(!args.gui);
    assert!(!args.help);
    assert!(!args.version);
    assert_eq!(args.output.as_deref(), Some("/tmp/out"));
    assert_eq!(args.file.as_deref(), Some("urls.txt"));
    assert_eq!(args.connections, Some(16));
    assert_eq!(args.limit.as_deref(), Some("2M"));
    assert_eq!(args.parse_speed_limit(), Some(2 * 1024 * 1024));
    assert_eq!(args.urls, strings(&["example.com/a", "http://example.com/b"]));
    assert_eq!(args.deep_link.as_deref(), Some("tur://download?url=x"));
    assert!(args.has_downloads());
    assert!(args.is_terminal_mode());
}

#[test]
fn option_without_value_changes_nothing() {
    let args = AppArgs::parse_from_vec(&strings(&["https://example.com/a", "--limit"]));
    assert_eq!(args.limit, None);
    assert_eq!(args.parse_speed_limit(), None);
    assert_eq!(args.urls.len(), 1);
}

#[test]
fn option_value_is_not_read_as_an_argument() {
    let args = AppArgs::parse_from_vec(&strings(&["-o", "--help", "-c", "300", "-c", "x"]));
    assert_eq!(args.output.as_deref(), Some("--help"));
    assert!(!args.help);
    assert_eq!(args.connections, None);
    assert!(args.gui);
}

#[test]
fn quiet_after_interactive_wins() {
    let args = AppArgs::parse_from_vec(&strings(&["-i", "-q", "a"]));
    assert!(!args.interactive);
    let args = AppArgs::parse_from_vec(&strings(&["-q", "-i", "a"]));
    assert!(args.interactive);
    assert!(args.quiet);
}

#[test]
fn help_and_version_keep_terminal_mode() {
    let args = AppArgs::parse_from_vec(&strings(&["--help"]));
    assert!(!args.gui);
    assert!(args.is_terminal_mode());
    assert!(!args.has_downloads());
    assert_eq!(handle_early_args(&args), EarlyAction::Help);

    let args = AppArgs::parse_from_vec(&strings(&["-V", "-h"]));
    assert_eq!(handle_early_args(&args), EarlyAction::Help);

    let args = AppArgs::parse_from_vec(&strings(&["-V"]));
    assert_eq!(handle_early_args(&args), EarlyAction::Version);

    let args = AppArgs::parse_from_vec(&strings(&["-g", "https://example.com/a"]));
    assert!(!args.is_terminal_mode());
    assert_eq!(handle_early_args(&args), EarlyAction::Continue);
}

#[test]
fn empty_argument_is_a_url() {
    let args = AppArgs::parse_from_vec(&strings(&[""]));
    assert_eq!(args.urls, strings(&[""]));
    assert!(!args.gui);
}
