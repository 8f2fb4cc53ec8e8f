use nb_rs::args::{ActionArgs, Args};
use nb_rs::search::Snippet;
use nb_rs::text::{decimal, find_chars};

#[test]
fn decimal_numbers() {
    assert_eq!(decimal(0), "0");
    assert_eq!(decimal(7), "7");
    assert_eq!(decimal(10), "10");
    assert_eq!(decimal(4096), "4096");
    assert_eq!(decimal(usize::MAX), usize::MAX.to_string());
}

#[test]
fn find_first_occurrence() {
    let s: Vec<char> = "abcabc".chars().collect();
    let t: Vec<char> = "bc".chars().collect();
    assert_eq!(find_chars(&s, &t), Some(1));
    assert_eq!(find_chars(&s, &Vec::new()), Some(0));
    let missing: Vec<char> = "cab!".chars().collect();
    assert_eq!(find_chars(&s, &missing), None);
    assert_eq!(find_chars(&Vec::new(), &t), None);
}

#[test]
fn render_plain_snippet() {
    colored::control::set_override(false);
    let s = Snippet {
        number: 2,
        context: Some("intro".to_string()),
        text: "need HAYSTACK here".to_string(),
        start: 5,
        end: 13,
    };
    assert_eq!(s.render(), "  1: intro\n  2: need HAYSTACK here");
    let alone = Snippet { number: 1, context: None, text: "hay".to_string(), start: 0, end: 3 };
    assert_eq!(alone.render(), "  1: hay");
}

#[test]
fn log_levels() {
    let mut args = Args {
        data_dir: None,
        verbose: 0,
        offline: false,
        action: ActionArgs::Ls { folder: ".".to_string() },
        version: false,
    };
    assert_eq!(args.log_level(), "error");
    args.verbose = 1;
    assert_eq!(args.log_level(), "info");
    args.verbose = 2;
    assert_eq!(args.log_level(), "debug");
    args.verbose = 9;
    assert_eq!(args.log_level(), "trace");
}
