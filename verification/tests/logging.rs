use enigma_3d::logging::{
    get_logging_level, get_save_log_files, initialize_log_file, log_enabled, log_file_name,
    log_file_text, log_prefix, EnigmaError, EnigmaLog, EnigmaLogType, EnigmaMessage,
    EnigmaWarning, LogLevel,
};

fn texts(entries: &Vec<(String, String)>) -> Vec<String> {
    entries.iter().map(|e| e.1.clone()).collect()
}

#[test]
fn new_log_holds_given_entry() {
    let e = EnigmaError::new(Some("boom"), true);
    assert!(!e.is_empty());
    assert!(e.saves_to_disk());
    assert_eq!(texts(e.get()), vec!["boom".to_string()]);
    // time stamps read HH-MM-SS
    let t = &e.get()[0].0;
    assert_eq!(t.len(), 8);
    assert_eq!(&t[2..3], "-");
    assert_eq!(&t[5..6], "-");
}

#[test]
fn new_log_without_entry_is_empty() {
    let w = EnigmaWarning::new(None, false);
    assert!(w.is_empty());
    assert!(!w.saves_to_disk());
    assert_eq!(w.get().len(), 0);
}

#[test]
fn extent_appends() {
    let mut m = EnigmaMessage::new(Some("one"), false);
    m.extent("two");
    assert_eq!(texts(m.get()), vec!["one".to_string(), "two".to_string()]);
}

#[test]
fn merge_appends_texts_in_order() {
    let mut a = EnigmaError::new(Some("a1"), false);
    let mut b = EnigmaError::new(Some("b1"), true);
    b.extent("b2");
    a.merge(b);
    assert_eq!(texts(a.get()), vec!["a1".to_string(), "b1".to_string(), "b2".to_string()]);
    assert!(!a.saves_to_disk());
}

#[test]
fn merge_of_empty_changes_nothing() {
    let mut a = EnigmaWarning::new(Some("w"), true);
    a.merge(EnigmaWarning::new(None, true));
    assert_eq!(texts(a.get()), vec!["w".to_string()]);
    let mut empty = EnigmaMessage::new(None, true);
    assert!(empty.is_empty());
    let mut other = EnigmaMessage::new(Some("x"), false);
    other.extent("y");
    empty.merge(other);
    assert_eq!(texts(empty.get()), vec!["x".to_string(), "y".to_string()]);
}

#[test]
fn log_types() {
    assert_eq!(EnigmaError::new(None, false).log_type(), EnigmaLogType::Error);
    assert_eq!(EnigmaWarning::new(None, false).log_type(), EnigmaLogType::Warning);
    assert_eq!(EnigmaMessage::new(None, false).log_type(), EnigmaLogType::Message);
}

#[test]
fn logging_level_setting() {
    assert_eq!(get_logging_level(None), LogLevel::Message);
    assert_eq!(get_logging_level(Some("WARNING")), LogLevel::Warning);
    assert_eq!(get_logging_level(Some("error")), LogLevel::Error);
    assert_eq!(get_logging_level(Some("None")), LogLevel::Off);
    assert_eq!(get_logging_level(Some("message")), LogLevel::Message);
    assert_eq!(get_logging_level(Some("loud")), LogLevel::Message);
}

#[test]
fn save_log_files_setting() {
    assert!(get_save_log_files(None));
    assert!(get_save_log_files(Some("1")));
    assert!(get_save_log_files(Some("TRUE")));
    assert!(!get_save_log_files(Some("0")));
    assert!(!get_save_log_files(Some("False")));
    assert!(get_save_log_files(Some("maybe")));
}

#[test]
fn level_filter() {
    assert!(log_enabled(LogLevel::Message, LogLevel::Error));
    assert!(log_enabled(LogLevel::Warning, LogLevel::Warning));
    assert!(!log_enabled(LogLevel::Error, LogLevel::Warning));
    assert!(!log_enabled(LogLevel::Off, LogLevel::Error));
    assert!(log_enabled(LogLevel::Off, LogLevel::Off));
}

#[test]
fn prefixes() {
    assert_eq!(log_prefix(EnigmaLogType::Error), "ERROR >> ");
    assert_eq!(log_prefix(EnigmaLogType::Warning), "WARNING >> ");
    assert_eq!(log_prefix(EnigmaLogType::Message), "MESSAGE >> ");
    assert_eq!(log_prefix(EnigmaLogType::Unknown), ">> ");
}

#[test]
fn file_text_joins_lines() {
    let mut w = EnigmaWarning::new(Some("first"), true);
    w.extent("second");
    let entries = w.get().clone();
    let text = log_file_text(&w);
    let expected = format!(
        "{} WARNING >> first\n{} WARNING >> second",
        entries[0].0, entries[1].0
    );
    assert_eq!(text, expected);
    assert_eq!(log_file_text(&EnigmaError::new(None, true)), "");
}

#[test]
fn file_names() {
    assert_eq!(log_file_name("game", "2024-01-02_03-04-05"), "game_2024-01-02_03-04-05.log");
    let name = initialize_log_file("app");
    assert!(name.starts_with("app_"));
    assert!(name.ends_with(".log"));
    assert_eq!(name.len(), "app_".len() + "2024-01-02_03-04-05".len() + ".log".len());
}

#[test]
fn log_get_follows_entries() {
    let w = EnigmaWarning::new(None, true);
    assert!(w.get().is_empty());
    let mut a = EnigmaMessage::new(Some("one"), false);
    let before = a.get().clone();
    a.merge(EnigmaMessage::new(None, false));
    assert_eq!(a.get(), &before);
    a.merge(EnigmaMessage::new(Some("two"), false));
    assert_eq!(a.get().len(), 2);
    assert_eq!(a.get()[1].1, "two");
    assert!(!a.is_empty());
}

#[test]
fn time_stamps_have_the_clock_shape() {
    let mut e = EnigmaError::new(Some("a"), false);
    e.extent("b");
    for (time, _) in e.get() {
        let cs: Vec<char> = time.chars().collect();
        assert_eq!(cs.len(), 8);
        assert_eq!((cs[2], cs[5]), ('-', '-'));
        assert!([0, 1, 3, 4, 6, 7].iter().all(|&i| cs[i].is_ascii_digit()));
    }
    let name = initialize_log_file("prog");
    assert!(name.starts_with("prog_") && name.ends_with(".log"));
    let stamp: Vec<char> = name["prog_".len()..name.len() - 4].chars().collect();
    let n = stamp.len();
    assert!(n >= 19);
    assert_eq!((stamp[n - 15], stamp[n - 12], stamp[n - 9], stamp[n - 6], stamp[n - 3]), ('-', '-', '_', '-', '-'));
}
