use vanity_keys::config::{parse_args, parse_u64, ArgError, Command, Config};

fn line(words: &[&str]) -> Vec<String> {
    let mut v = vec!["vanity".to_string()];
    for w in words {
        v.push(w.to_string());
    }
    v
}

fn run(words: &[&str]) -> Config {
    match parse_args(&line(words)) {
        Ok(Command::Run(c)) => c,
        _ => panic!("expected a run"),
    }
}

fn refused(words: &[&str]) -> ArgError {
    match parse_args(&line(words)) {
        Err(e) => e,
        _ => panic!("expected a refusal"),
    }
}

#[test]
fn defaults_with_one_search() {
    let c = run(&["-s", "AAAA"]);
    assert_eq!(c.threads, 4);
    assert_eq!(c.count, 1);
    assert!(!c.quiet);
    assert!(!c.affinity);
    assert_eq!(c.patterns.len(), 1);
    assert_eq!(c.patterns[0].prefix, b"AAAA".to_vec());
}

#[test]
fn all_options() {
    let c = run(&["--search", "AA", "-s", "ZZ", "-c", "2", "--threads", "4", "-q", "--affinity"]);
    assert_eq!(c.threads, 4);
    assert_eq!(c.count, 2);
    assert!(c.quiet);
    assert!(c.affinity);
    assert_eq!(c.patterns.len(), 2);
    assert_eq!(c.patterns[1].suffix, b"ZZ=".to_vec());
    let d = run(&["-t", "+8", "--count", "3", "--quiet", "-s", "x"]);
    assert_eq!(d.threads, 8);
    assert_eq!(d.count, 3);
    assert!(d.quiet);
}

#[test]
fn padding_in_search_is_refused() {
    assert_eq!(refused(&["-s", "abc="]), ArgError::InvalidSearch);
    assert_eq!(refused(&["-s", "ok", "-s", ""]), ArgError::InvalidSearch);
}

#[test]
fn refusals() {
    assert_eq!(refused(&[]), ArgError::NoSearch);
    assert_eq!(refused(&["-q"]), ArgError::NoSearch);
    assert_eq!(refused(&["-s", "A", "-t"]), ArgError::MissingThreads);
    assert_eq!(refused(&["-s", "A", "-t", "x"]), ArgError::InvalidThreads);
    assert_eq!(refused(&["-s", "A", "-t", "-1"]), ArgError::InvalidThreads);
    assert_eq!(refused(&["-t", "0", "-s", "A"]), ArgError::ZeroThreads);
    assert_eq!(refused(&["-s"]), ArgError::MissingSearch);
    assert_eq!(refused(&["-s", "A", "-c"]), ArgError::MissingCount);
    assert_eq!(refused(&["-s", "A", "-c", "1x"]), ArgError::InvalidCount);
    assert_eq!(refused(&["-s", "A", "-c", "18446744073709551616"]), ArgError::InvalidCount);
    assert_eq!(refused(&["-s", "A", "--count", "0"]), ArgError::ZeroCount);
    assert_eq!(refused(&["-s", "A", "--bogus"]), ArgError::Unknown(3));
}

#[test]
fn help_stops_reading() {
    assert!(matches!(parse_args(&line(&["-h"])), Ok(Command::Help)));
    assert!(matches!(parse_args(&line(&["--help", "--bogus"])), Ok(Command::Help)));
    assert_eq!(refused(&["--bogus", "-h"]), ArgError::Unknown(1));
}

#[test]
fn refusal_messages() {
    let args = line(&["-s", "A", "--bogus"]);
    assert_eq!(ArgError::Unknown(3).message(&args), "unknown argument: --bogus");
    assert_eq!(ArgError::ZeroThreads.message(&args), "threads must be > 0");
    assert_eq!(ArgError::MissingThreads.message(&args), "missing value for --threads");
    assert_eq!(ArgError::InvalidCount.message(&args), "invalid count value");
    assert_eq!(
        ArgError::InvalidSearch.message(&args),
        "search must contain only Base64 chars [A-Za-z0-9+/]"
    );
    assert_eq!(
        ArgError::NoSearch.message(&args),
        "--search is required (can be specified multiple times)"
    );
}

#[test]
fn numbers() {
    assert_eq!(parse_u64("0"), Some(0));
    assert_eq!(parse_u64("+42"), Some(42));
    assert_eq!(parse_u64("18446744073709551615"), Some(u64::MAX));
    assert_eq!(parse_u64("18446744073709551616"), None);
    assert_eq!(parse_u64("99999999999999999999"), None);
    assert_eq!(parse_u64("+"), None);
    assert_eq!(parse_u64(""), None);
    assert_eq!(parse_u64("-1"), None);
    assert_eq!(parse_u64("12a"), None);
}

#[test]
fn quiet_changes_only_its_flag() {
    let loud = run(&["-s", "AB", "-t", "3", "-c", "5", "--affinity"]);
    let quiet = run(&["-q", "-s", "AB", "--quiet", "-t", "3", "-c", "5", "--affinity"]);
    assert!(quiet.quiet);
    assert!(!loud.quiet);
    assert_eq!(quiet.threads, loud.threads);
    assert_eq!(quiet.count, loud.count);
    assert_eq!(quiet.affinity, loud.affinity);
    assert_eq!(quiet.patterns.len(), loud.patterns.len());
    assert_eq!(quiet.patterns[0].prefix, loud.patterns[0].prefix);
    assert_eq!(quiet.patterns[0].suffix, loud.patterns[0].suffix);
    assert_eq!(quiet.patterns[0].suffix_off, loud.patterns[0].suffix_off);
}
