use pms::store::{Data, FileRead, LoadStatus, StartOutcome};

#[test]
fn new_store_is_empty() {
    let d = Data::new();
    assert_eq!(d.filename, "data");
    assert_eq!(d.list(), Vec::<String>::new());
}

#[test]
fn default_store_is_empty() {
    let d = Data::default();
    assert_eq!(d.filename, "data");
    assert_eq!(d.list(), Vec::<String>::new());
}

#[test]
fn load_missing_file_gives_empty_store() {
    let (d, status) = Data::load("nosuch", FileRead::Missing);
    assert_eq!(status, LoadStatus::AbsentInitialized);
    assert_eq!(d.filename, "nosuch");
    assert_eq!(d.list(), Vec::<String>::new());
}

#[test]
fn load_unreadable_file_degrades_to_empty() {
    let (d, status) = Data::load("data", FileRead::Unreadable);
    assert_eq!(status, LoadStatus::Corrupt);
    assert_eq!(d.list(), Vec::<String>::new());
}

#[test]
fn load_keeps_file_order() {
    let (d, status) = Data::load("data", FileRead::Content("A\nB\nC\n".to_string()));
    assert_eq!(status, LoadStatus::Loaded);
    assert_eq!(d.list(), vec!["A".to_string(), "B".to_string(), "C".to_string()]);
}

#[test]
fn start_appends_at_the_end() {
    let (mut d, _) = Data::load("data", FileRead::Content("A\nB\nC\n".to_string()));
    assert_eq!(d.start("D"), StartOutcome::Created);
    assert_eq!(
        d.list(),
        vec!["A".to_string(), "B".to_string(), "C".to_string(), "D".to_string()]
    );
}

#[test]
fn start_twice_stores_once() {
    let mut d = Data::new();
    assert_eq!(d.start("Foo"), StartOutcome::Created);
    assert_eq!(d.start("Foo"), StartOutcome::AlreadyExists);
    assert_eq!(d.list(), vec!["Foo".to_string()]);
}

#[test]
fn start_trim_equal_name_is_rejected() {
    let mut d = Data::new();
    assert_eq!(d.start(" Foo "), StartOutcome::Created);
    assert_eq!(d.start("Foo"), StartOutcome::AlreadyExists);
    assert_eq!(d.list(), vec!["Foo".to_string()]);
}

#[test]
fn untrimmed_stored_name_blocks_duplicate() {
    let (mut d, _) = Data::load("data", FileRead::Content(" Foo \n".to_string()));
    assert_eq!(d.start("Foo"), StartOutcome::AlreadyExists);
    assert_eq!(d.list(), vec![" Foo ".to_string()]);
}

#[test]
fn start_empty_name_is_rejected() {
    let mut d = Data::new();
    assert_eq!(d.start(""), StartOutcome::EmptyName);
    assert_eq!(d.start("   "), StartOutcome::EmptyName);
    assert_eq!(d.start(" \t\n "), StartOutcome::EmptyName);
    assert_eq!(d.list(), Vec::<String>::new());
}

#[test]
fn start_stores_trimmed_name() {
    let mut d = Data::new();
    assert_eq!(d.start("  Alpha  "), StartOutcome::Created);
    assert_eq!(d.list(), vec!["Alpha".to_string()]);
    assert_eq!(d.start("Alpha"), StartOutcome::AlreadyExists);
    assert_eq!(d.list(), vec!["Alpha".to_string()]);
}

#[test]
fn save_content_mirrors_store() {
    let mut d = Data::new();
    d.start("A");
    d.start("B");
    assert_eq!(d.save_content(), "A\nB\n");
}

#[test]
fn save_then_load_round_trip() {
    let mut d = Data::new();
    d.start("Alpha");
    d.start("Beta");
    d.start("Gamma");
    let saved = d.save_content();
    let (reloaded, status) = Data::load("data", FileRead::Content(saved));
    assert_eq!(status, LoadStatus::Loaded);
    assert_eq!(reloaded.list(), d.list());
}

#[test]
fn empty_store_saves_empty_text() {
    let d = Data::new();
    assert_eq!(d.save_content(), "");
}
