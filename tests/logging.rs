use kanzlog::{
    decimal, file_record, format_line, write_failure_note, LogFile, Severity, DEBUG, ERROR, INFO,
    WARNING,
};

#[test]
fn error_line_at_main_8() {
    let s = format_line(Severity::Error, "main", 8, "HELLO!");
    assert_eq!(s, "ERROR:[main:8]: HELLO!");
    let mut file = LogFile::new();
    file.append_line(&s);
    assert_eq!(file.contents(), "ERROR:[main:8]: HELLO!\n");
}

#[test]
fn four_severities_in_call_order() {
    let mut file = LogFile::new();
    file.append_line(&format_line(Severity::Debug, "src/main.rs", 10, "a"));
    file.append_line(&format_line(Severity::Info, "src/main.rs", 11, "b"));
    file.append_line(&format_line(Severity::Warning, "src/main.rs", 12, "c"));
    file.append_line(&format_line(Severity::Error, "src/main.rs", 13, "d"));
    assert_eq!(
        file.contents(),
        "DEBUG:[src/main.rs:10]: a\nINFO:[src/main.rs:11]: b\n\
         WARNING:[src/main.rs:12]: c\nERROR:[src/main.rs:13]: d\n"
    );
}

#[test]
fn every_severity_tags_its_line() {
    let cases = [
        (Severity::Debug, "DEBUG:[lib.rs:42]: Hello World....."),
        (Severity::Info, "INFO:[lib.rs:42]: Hello World....."),
        (Severity::Warning, "WARNING:[lib.rs:42]: Hello World....."),
        (Severity::Error, "ERROR:[lib.rs:42]: Hello World....."),
    ];
    for (sev, expected) in cases {
        let s = format_line(sev, "lib.rs", 42, "Hello World.....");
        assert_eq!(s, expected);
        assert_eq!(file_record(&s), format!("{}\n", expected));
    }
}

#[test]
fn message_is_copied_verbatim() {
    let s = format_line(Severity::Info, "a.rs", 1, "50% {x} \\ ]: é");
    assert_eq!(s, "INFO:[a.rs:1]: 50% {x} \\ ]: é");
    assert_eq!(format_line(Severity::Warning, "", 0, ""), "WARNING:[:0]: ");
}

#[test]
fn labels_and_levels() {
    assert_eq!(Severity::Debug.label(), "DEBUG");
    assert_eq!(Severity::Info.label(), "INFO");
    assert_eq!(Severity::Warning.label(), "WARNING");
    assert_eq!(Severity::Error.label(), "ERROR");
    assert_eq!(Severity::Debug.level(), DEBUG);
    assert_eq!(Severity::Info.level(), INFO);
    assert_eq!(Severity::Warning.level(), WARNING);
    assert_eq!(Severity::Error.level(), ERROR);
    assert!(DEBUG < INFO && INFO < WARNING && WARNING < ERROR);
    assert!(Severity::Debug < Severity::Info);
    assert!(Severity::Warning < Severity::Error);
}

#[test]
fn decimal_numerals() {
    assert_eq!(decimal(0), "0");
    assert_eq!(decimal(7), "7");
    assert_eq!(decimal(10), "10");
    assert_eq!(decimal(1207), "1207");
    assert_eq!(decimal(u32::MAX), "4294967295");
    assert_eq!(
        format_line(Severity::Error, "f", u32::MAX, "m"),
        "ERROR:[f:4294967295]: m"
    );
}

#[test]
fn record_adds_one_newline() {
    assert_eq!(file_record(""), "\n");
    assert_eq!(file_record("x"), "x\n");
    assert_eq!(file_record("two\nparts"), "two\nparts\n");
}

#[test]
fn failure_note_names_the_cause() {
    assert_eq!(
        write_failure_note("Permission denied (os error 13)"),
        "Couldn't write to file: Permission denied (os error 13)"
    );
    assert_eq!(write_failure_note(""), "Couldn't write to file: ");
}

#[test]
fn existing_content_is_kept() {
    let mut file = LogFile::with_contents(String::from("old line\n"));
    file.append_line("INFO:[m:1]: new");
    assert_eq!(file.contents(), "old line\nINFO:[m:1]: new\n");
    assert!(file.contents().starts_with("old line\n"));
}

#[test]
fn n_calls_add_n_lines() {
    let mut file = LogFile::with_contents(String::from("first\nsecond\n"));
    let n: u32 = 25;
    for i in 0..n {
        file.append_line(&format_line(Severity::Debug, "loop.rs", i, &decimal(i * 3)));
    }
    let lines: Vec<&str> = file.contents().lines().collect();
    assert_eq!(lines.len(), 2 + n as usize);
    assert_eq!(lines[0], "first");
    assert_eq!(lines[1], "second");
    for i in 0..n {
        assert_eq!(lines[2 + i as usize], format!("DEBUG:[loop.rs:{}]: {}", i, i * 3));
    }
}

#[test]
fn new_file_is_empty() {
    assert_eq!(LogFile::new().contents(), "");
}
