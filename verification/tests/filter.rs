use pause_button::filter::filter;
use pause_button::text::{chars_of, contains_chars, name_matches};
use pause_button::Process;

fn record(pid: u32, ppid: Option<u32>, name: &str) -> Process {
    Process { pid, ppid, name: name.to_string() }
}

fn sample() -> Vec<Process> {
    vec![
        record(4, None, "System"),
        record(120, None, "chrome.exe"),
        record(121, Some(120), "Chrome.exe"),
        record(300, Some(120), "CHROME_helper"),
        record(410, None, "notepad.exe"),
        record(512, Some(410), "conhost.exe"),
    ]
}

fn pids(records: &Vec<Process>) -> Vec<u32> {
    records.iter().map(|p| p.pid).collect()
}

fn chars(text: &str) -> Vec<char> {
    text.chars().collect()
}

#[test]
fn empty_filter_with_children_shown_is_the_identity() {
    let inventory = sample();
    assert_eq!(filter(&inventory, "", false), inventory);
    let none: Vec<Process> = Vec::new();
    assert_eq!(filter(&none, "", false), none);
}

#[test]
fn hidden_children_never_show() {
    let inventory = sample();
    for text in ["", "chrome", "exe", "zzz", "S"] {
        let kept = filter(&inventory, text, true);
        for process in kept.iter() {
            assert!(process.ppid.is_none());
        }
    }
    assert_eq!(pids(&filter(&inventory, "", true)), vec![4, 120, 410]);
    assert_eq!(pids(&filter(&inventory, "exe", true)), vec![120, 410]);
}

#[test]
fn filter_ignores_case() {
    let inventory = sample();
    let upper = filter(&inventory, "CHROME", false);
    let lower = filter(&inventory, "chrome", false);
    let mixed = filter(&inventory, "cHrOmE", false);
    assert_eq!(upper, lower);
    assert_eq!(mixed, lower);
    assert_eq!(pids(&lower), vec![120, 121, 300]);
}

#[test]
fn filter_lowers_the_name_and_the_text() {
    let inventory = vec![record(1, None, "UPPER.EXE"), record(2, None, "lower.exe")];
    assert_eq!(pids(&filter(&inventory, "upper", false)), vec![1]);
    assert_eq!(pids(&filter(&inventory, "LOWER", false)), vec![2]);
    assert_eq!(pids(&filter(&inventory, ".ExE", false)), vec![1, 2]);
}

#[test]
fn filter_matches_anywhere_in_the_name() {
    let inventory = sample();
    assert_eq!(pids(&filter(&inventory, "host", false)), vec![512]);
    assert_eq!(pids(&filter(&inventory, "s", false)), vec![4, 512]);
    assert_eq!(pids(&filter(&inventory, ".exe", false)), vec![120, 121, 410, 512]);
    assert_eq!(pids(&filter(&inventory, "chrome.exe", false)), vec![120, 121]);
    assert_eq!(pids(&filter(&inventory, "chrome.exe ", false)), Vec::<u32>::new());
    assert_eq!(pids(&filter(&inventory, "notepad.exe.", false)), Vec::<u32>::new());
}

#[test]
fn filter_keeps_the_order_and_the_records() {
    let inventory = sample();
    let kept = filter(&inventory, "e", false);
    assert_eq!(
        kept,
        vec![
            record(4, None, "System"),
            record(120, None, "chrome.exe"),
            record(121, Some(120), "Chrome.exe"),
            record(300, Some(120), "CHROME_helper"),
            record(410, None, "notepad.exe"),
            record(512, Some(410), "conhost.exe"),
        ]
    );
    assert_eq!(inventory, sample());
}

#[test]
fn filter_lowers_letters_beyond_ascii() {
    let inventory = vec![record(1, None, "ÄRGER.exe"), record(2, None, "Straße")];
    assert_eq!(pids(&filter(&inventory, "ärger", false)), vec![1]);
    assert_eq!(pids(&filter(&inventory, "STRAßE", false)), vec![2]);
    assert_eq!(pids(&filter(&inventory, "strasse", false)), Vec::<u32>::new());
}

#[test]
fn name_matches_is_a_lowercase_substring_test() {
    assert!(name_matches("", "anything"));
    assert!(name_matches("", ""));
    assert!(name_matches("ANY", "anything"));
    assert!(name_matches("thing", "AnyThing"));
    assert!(!name_matches("things", "anything"));
    assert!(!name_matches("a", ""));
}

#[test]
fn contains_chars_finds_every_position() {
    let whole = chars("abcabd");
    assert!(contains_chars(&whole, &chars("")));
    assert!(contains_chars(&whole, &chars("a")));
    assert!(contains_chars(&whole, &chars("abc")));
    assert!(contains_chars(&whole, &chars("abd")));
    assert!(contains_chars(&whole, &chars("d")));
    assert!(contains_chars(&whole, &chars("abcabd")));
    assert!(!contains_chars(&whole, &chars("abcabda")));
    assert!(!contains_chars(&whole, &chars("ac")));
    assert!(!contains_chars(&whole, &chars("ABC")));
    assert!(contains_chars(&chars(""), &chars("")));
    assert!(!contains_chars(&chars(""), &chars("a")));
    assert!(contains_chars(&chars("aab"), &chars("ab")));
}

#[test]
fn chars_of_gives_each_character() {
    assert_eq!(chars_of(""), Vec::<char>::new());
    assert_eq!(chars_of("a.ß"), vec!['a', '.', 'ß']);
}
