use pathprobe::cli::{add_status_codes, parse_flags, Halt};
use pathprobe::filter::{should_display, FilterConfig};
use std::collections::HashSet;

fn argv(flags: &[&str]) -> Vec<String> {
    let mut args = vec!["prog".to_string(), "http://host/".to_string(), "words.txt".to_string()];
    for flag in flags {
        args.push(flag.to_string());
    }
    args
}

fn codes(items: &[u16]) -> HashSet<u16> {
    items.iter().copied().collect()
}

#[test]
fn no_flags_mean_no_filters() {
    let config = parse_flags(&argv(&[])).unwrap();
    assert_eq!(config.content_length, None);
    assert!(config.status_codes.is_empty());
}

#[test]
fn short_command_lines_have_no_flags() {
    for n in 0..3 {
        let args: Vec<String> = argv(&[]).into_iter().take(n).collect();
        let config = parse_flags(&args).unwrap();
        assert_eq!(config.content_length, None);
        assert!(config.status_codes.is_empty());
    }
}

#[test]
fn length_flag_sets_the_length_filter() {
    assert_eq!(parse_flags(&argv(&["-fl", "0"])).unwrap().content_length, Some(0));
    assert_eq!(parse_flags(&argv(&["-fl", "1234"])).unwrap().content_length, Some(1234));
    assert_eq!(
        parse_flags(&argv(&["-fl", "18446744073709551615"])).unwrap().content_length,
        Some(u64::MAX)
    );
}

#[test]
fn unreadable_length_leaves_no_length_filter() {
    assert_eq!(parse_flags(&argv(&["-fl", "abc"])).unwrap().content_length, None);
    assert_eq!(parse_flags(&argv(&["-fl", "-1"])).unwrap().content_length, None);
    assert_eq!(parse_flags(&argv(&["-fl", ""])).unwrap().content_length, None);
    assert_eq!(
        parse_flags(&argv(&["-fl", "18446744073709551616"])).unwrap().content_length,
        None
    );
    assert_eq!(parse_flags(&argv(&["-fl"])).unwrap().content_length, None);
}

#[test]
fn later_length_flag_replaces_earlier() {
    assert_eq!(parse_flags(&argv(&["-fl", "5", "-fl", "7"])).unwrap().content_length, Some(7));
    assert_eq!(parse_flags(&argv(&["-fl", "5", "-fl", "x"])).unwrap().content_length, None);
}

#[test]
fn status_flag_adds_each_readable_code() {
    let config = parse_flags(&argv(&["-sc", "404,500"])).unwrap();
    assert_eq!(config.status_codes, codes(&[404, 500]));
    let config = parse_flags(&argv(&["-sc", "404,abc,500,,70000, 301"])).unwrap();
    assert_eq!(config.status_codes, codes(&[404, 500]));
    let config = parse_flags(&argv(&["-sc", "nothing"])).unwrap();
    assert!(config.status_codes.is_empty());
    let config = parse_flags(&argv(&["-sc"])).unwrap();
    assert!(config.status_codes.is_empty());
}

#[test]
fn status_flags_accumulate() {
    let config = parse_flags(&argv(&["-sc", "404", "-fl", "9", "-sc", "500,404"])).unwrap();
    assert_eq!(config.status_codes, codes(&[404, 500]));
    assert_eq!(config.content_length, Some(9));
}

#[test]
fn flags_may_come_in_any_order() {
    let one = parse_flags(&argv(&["-fl", "3", "-sc", "301"])).unwrap();
    let two = parse_flags(&argv(&["-sc", "301", "-fl", "3"])).unwrap();
    assert_eq!(one.content_length, two.content_length);
    assert_eq!(one.status_codes, two.status_codes);
}

#[test]
fn unknown_flag_is_reported() {
    assert_eq!(parse_flags(&argv(&["-xx"])).unwrap_err(), Halt::InvalidFlag("-xx".to_string()));
    assert_eq!(
        parse_flags(&argv(&["-fl", "1", "--sc", "404"])).unwrap_err(),
        Halt::InvalidFlag("--sc".to_string())
    );
    assert_eq!(
        parse_flags(&argv(&["-a", "1", "-b", "2"])).unwrap_err(),
        Halt::InvalidFlag("-a".to_string())
    );
    assert_eq!(parse_flags(&argv(&[""])).unwrap_err(), Halt::InvalidFlag(String::new()));
}

#[test]
fn a_flag_takes_the_next_argument_whatever_it_is() {
    let config = parse_flags(&argv(&["-fl", "-xx"])).unwrap();
    assert_eq!(config.content_length, None);
    let config = parse_flags(&argv(&["-sc", "-fl", "-fl", "8"])).unwrap();
    assert!(config.status_codes.is_empty());
    assert_eq!(config.content_length, Some(8));
    assert_eq!(
        parse_flags(&argv(&["-fl", "-sc", "404"])).unwrap_err(),
        Halt::InvalidFlag("404".to_string())
    );
}

#[test]
fn halt_messages() {
    assert_eq!(
        Halt::Usage.message(),
        "Usage: program_name <URL> <WORDLIST_FILE> [-fl FILTER_CONTENT_LENGTH] [-sc FILTER_STATUS_CODES]"
    );
    assert_eq!(Halt::UnreachableHost.message(), "Invalid URL or unreachable host.");
    assert_eq!(Halt::InvalidFlag("-xx".to_string()).message(), "Invalid flag: -xx");
    assert_eq!(Halt::InvalidFlag(String::new()).message(), "Invalid flag: ");
    assert_eq!(Halt::UnreadableWordlist.message(), "Failed to read wordlist file.");
}

#[test]
fn add_status_codes_keeps_what_was_there() {
    let mut config = FilterConfig::new();
    config.content_length = Some(3);
    config.add_status_code(301);
    add_status_codes(&mut config, "404,x,500");
    assert_eq!(config.status_codes, codes(&[301, 404, 500]));
    assert_eq!(config.content_length, Some(3));
    add_status_codes(&mut config, "");
    assert_eq!(config.status_codes, codes(&[301, 404, 500]));
}

#[test]
fn order_of_listed_codes_does_not_matter() {
    let mut forward = FilterConfig::new();
    add_status_codes(&mut forward, "200,404");
    let mut backward = FilterConfig::new();
    add_status_codes(&mut backward, "404,200");
    assert_eq!(forward.status_codes, backward.status_codes);
    for status in [200u16, 201, 404, 500] {
        for length in [None, Some(0u64), Some(9)] {
            assert_eq!(
                should_display(status, length, &forward),
                should_display(status, length, &backward)
            );
        }
    }
    assert!(!should_display(200, Some(1), &forward));
    assert!(!should_display(404, Some(1), &backward));
    assert!(should_display(500, Some(1), &forward));
}
