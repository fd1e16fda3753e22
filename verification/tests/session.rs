use pathprobe::cli::Halt;
use pathprobe::dispatch::{Action, Phase};
use pathprobe::probe::{probe_output, ProbeResult};
use pathprobe::session::{begin, Run};

fn argv(items: &[&str]) -> Vec<String> {
    items.iter().map(|s| s.to_string()).collect()
}

fn ready(command_line: &[&str], wordlist: &str) -> Run {
    let check = begin(argv(command_line)).unwrap();
    let read = check.resolve(Some(200)).unwrap();
    read.resolve(Some(wordlist.to_string())).unwrap()
}

/// Runs the dispatcher to its end; each probe is answered by `respond`.
fn printed(run: &mut Run, respond: fn(&str) -> Option<ProbeResult>) -> (usize, Vec<String>) {
    let mut launched = 0;
    let mut lines = Vec::new();
    loop {
        match run.dispatcher.step() {
            Action::Launch { url, .. } => {
                launched += 1;
                lines.extend(probe_output(&respond(&url), &run.filter));
            }
            Action::Join { .. } => {}
            Action::Finish => return (launched, lines),
        }
    }
}

fn answer(url: &str) -> Option<ProbeResult> {
    let (status_code, content_length) = if url.ends_with("/empty") {
        (200, Some(0))
    } else if url.ends_with("/missing") {
        (404, Some(10))
    } else if url.ends_with("/broken") {
        (500, Some(10))
    } else if url.ends_with("/chunked") {
        (200, None)
    } else if url.ends_with("/down") {
        return None;
    } else {
        (200, Some(42))
    };
    Some(ProbeResult { url: url.to_string(), status_code, content_length })
}

#[test]
fn too_few_arguments_show_usage() {
    for line in [&[][..], &["prog"][..], &["prog", "http://host/"][..]] {
        let halt = begin(argv(line)).unwrap_err();
        assert_eq!(halt, Halt::Usage);
        assert!(halt.message().starts_with("Usage: "));
    }
    assert!(begin(argv(&["prog", "http://host/", "words.txt"])).is_ok());
}

#[test]
fn stages_hand_out_url_and_path() {
    let check = begin(argv(&["prog", "http://host/", "words.txt", "-fl", "1"])).unwrap();
    assert_eq!(check.url(), "http://host/");
    let read = check.resolve(Some(204)).unwrap();
    assert_eq!(read.path(), "words.txt");
    let run = read.resolve(Some("a\nb\nc".to_string())).unwrap();
    assert_eq!(run.filter.content_length, Some(1));
    assert_eq!(run.dispatcher.total(), 3);
    assert_eq!(run.dispatcher.phase(), Phase::Dispatching);
}

#[test]
fn two_entries_without_filters_print_two_reports() {
    let mut run = ready(&["prog", "http://host/", "words.txt"], "admin\nlogin");
    let (launched, lines) = printed(&mut run, answer);
    assert_eq!(launched, 2);
    assert_eq!(
        lines,
        vec![
            "URL: http://host/admin",
            "Response status code: 200",
            "Response content length: 42",
            "---------------------------------------",
            "URL: http://host/login",
            "Response status code: 200",
            "Response content length: 42",
            "---------------------------------------",
        ]
    );
}

#[test]
fn length_filter_from_the_command_line_suppresses() {
    let mut run = ready(&["prog", "http://host/", "words.txt", "-fl", "0"], "empty\nfull\n");
    let (launched, lines) = printed(&mut run, answer);
    assert_eq!(launched, 2);
    assert_eq!(
        lines,
        vec![
            "URL: http://host/full",
            "Response status code: 200",
            "Response content length: 42",
            "---------------------------------------",
        ]
    );
}

#[test]
fn status_filter_from_the_command_line_suppresses() {
    let mut run =
        ready(&["prog", "http://host/", "words.txt", "-sc", "404,500"], "missing\nfound\nbroken");
    let (launched, lines) = printed(&mut run, answer);
    assert_eq!(launched, 3);
    assert_eq!(
        lines,
        vec![
            "URL: http://host/found",
            "Response status code: 200",
            "Response content length: 42",
            "---------------------------------------",
        ]
    );
}

#[test]
fn silent_probes_are_still_launched() {
    let mut run = ready(&["prog", "http://host/", "words.txt"], "chunked\ndown\nmissing");
    let (launched, lines) = printed(&mut run, answer);
    assert_eq!(launched, 3);
    assert_eq!(lines.len(), 4);
    assert_eq!(lines[0], "URL: http://host/missing");
    assert_eq!(lines[1], "Response status code: 404");
}

#[test]
fn unreadable_wordlist_ends_the_run() {
    let check = begin(argv(&["prog", "http://host/", "/no/such/file"])).unwrap();
    let read = check.resolve(Some(200)).unwrap();
    assert_eq!(read.path(), "/no/such/file");
    let halt = read.resolve(None).unwrap_err();
    assert_eq!(halt, Halt::UnreadableWordlist);
    assert_eq!(halt.message(), "Failed to read wordlist file.");
}

#[test]
fn unreachable_host_ends_the_run() {
    let check = begin(argv(&["prog", "http://nowhere.invalid/", "words.txt"])).unwrap();
    let halt = check.resolve(None).unwrap_err();
    assert_eq!(halt, Halt::UnreachableHost);
    assert_eq!(halt.message(), "Invalid URL or unreachable host.");
    let check = begin(argv(&["prog", "http://host/", "words.txt"])).unwrap();
    assert_eq!(check.resolve(Some(404)).unwrap_err(), Halt::UnreachableHost);
    let check = begin(argv(&["prog", "http://host/", "words.txt"])).unwrap();
    assert_eq!(check.resolve(Some(400)).unwrap_err(), Halt::UnreachableHost);
    let check = begin(argv(&["prog", "http://host/", "words.txt"])).unwrap();
    assert!(check.resolve(Some(399)).is_ok());
}

#[test]
fn invalid_flag_ends_the_run() {
    let check = begin(argv(&["prog", "http://host/", "words.txt", "-xx"])).unwrap();
    let halt = check.resolve(Some(200)).unwrap_err();
    assert_eq!(halt, Halt::InvalidFlag("-xx".to_string()));
    assert_eq!(halt.message(), "Invalid flag: -xx");
}

#[test]
fn unreachable_host_is_reported_before_an_invalid_flag() {
    let check = begin(argv(&["prog", "http://host/", "words.txt", "-xx"])).unwrap();
    assert_eq!(check.resolve(None).unwrap_err(), Halt::UnreachableHost);
}

#[test]
fn invalid_flag_is_reported_before_the_wordlist_is_read() {
    let check = begin(argv(&["prog", "http://host/", "/no/such/file", "-fl", "1", "-zz"])).unwrap();
    assert_eq!(check.resolve(Some(200)).unwrap_err(), Halt::InvalidFlag("-zz".to_string()));
}
