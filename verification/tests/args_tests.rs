use exefind::args::{ArgType, RunType};
use exefind::timefmt::{format_utc_time, parse_snapshot_time};

fn tokens(args: &[&str]) -> Vec<String> {
    let mut v = vec![String::from("exefind")];
    for a in args {
        v.push(String::from(*a));
    }
    v
}

#[test]
fn scan_with_directory() {
    match RunType::new(&tokens(&["-s", "/tmp"])).unwrap() {
        RunType::Scan(sa) => {
            assert_eq!(sa.dir, "/tmp");
            assert_eq!(sa.out, "scan.csv");
        }
        _ => panic!("expected a scan run"),
    }
}

#[test]
fn scan_without_directory_defaults_to_root() {
    match RunType::new(&tokens(&["-s"])).unwrap() {
        RunType::Scan(sa) => assert_eq!(sa.dir, "/"),
        _ => panic!("expected a scan run"),
    }
}

#[test]
fn scan_with_output_selection() {
    match RunType::new(&tokens(&["-s", "-o", "mine.csv"])).unwrap() {
        RunType::Scan(sa) => {
            assert_eq!(sa.dir, "/");
            assert_eq!(sa.out, "mine.csv");
        }
        _ => panic!("expected a scan run"),
    }
}

#[test]
fn compare_with_both_files() {
    match RunType::new(&tokens(&["-c", "old.csv", "new.csv"])).unwrap() {
        RunType::Compare(ca) => {
            assert_eq!(ca.old, "old.csv");
            assert_eq!(ca.new, "new.csv");
            assert_eq!(ca.out, "comp.csv");
        }
        _ => panic!("expected a comparison run"),
    }
}

#[test]
fn compare_without_files_is_refused() {
    let errs = RunType::new(&tokens(&["-c"])).unwrap_err();
    assert_eq!(errs, vec![String::from("Missing file location for compare.")]);
}

#[test]
fn unknown_option_is_reported() {
    let errs = RunType::new(&tokens(&["-x"])).unwrap_err();
    assert_eq!(errs, vec![String::from("Unknown argument: \"-x\".")]);
}

#[test]
fn bare_word_is_reported() {
    let errs = RunType::new(&tokens(&["foo"])).unwrap_err();
    assert_eq!(errs, vec![String::from("Unknown argument: \"foo\".")]);
}

#[test]
fn no_tokens_at_all_is_refused() {
    let errs = RunType::new(&tokens(&[])).unwrap_err();
    assert_eq!(errs, vec![String::from("No args given.")]);
}

#[test]
fn output_without_operation_is_refused() {
    let errs = RunType::new(&tokens(&["-o", "file.csv"])).unwrap_err();
    assert_eq!(errs, vec![String::from("No operation given.")]);
}

#[test]
fn help_request() {
    assert!(matches!(
        RunType::new(&tokens(&["-h"])).unwrap(),
        RunType::Help
    ));
}

#[test]
fn read_args_classifies_and_is_err_flags_unknowns() {
    let parsed = ArgType::read_args(&tokens(&["-h"])).unwrap();
    assert_eq!(parsed.len(), 1);
    assert!(!parsed[0].is_err());
    assert!(ArgType::Error(String::from("x")).is_err());
}

#[test]
fn timestamp_line_parses_and_orders() {
    let a = parse_snapshot_time("2024-05-04 10:00:00.500 UTC\n").unwrap();
    let b = parse_snapshot_time("2024-05-05 10:00:00.500 UTC\n").unwrap();
    assert!(a.lt(&b));
    assert!(!b.lt(&a));
    assert!(!a.lt(&a));
}

#[test]
fn unparseable_timestamp_line_is_rejected() {
    assert!(parse_snapshot_time("path,hash\n").is_none());
    assert!(parse_snapshot_time("").is_none());
}

#[test]
fn formatting_a_known_instant() {
    assert_eq!(format_utc_time(1431648000, 0), "2015-05-15 00:00:00 UTC");
}
