use merter::setup::{affirms, skips, Answer, Notice, Question, Setup, Stage};

fn text(line: &str) -> Answer {
    Answer::Text(line.to_string())
}

fn folder(path: &str, writable: bool) -> Answer {
    Answer::Folder { path: path.to_string(), writable }
}

#[test]
fn wizard_starts_by_asking_whether_to_overwrite() {
    let setup = Setup::new();
    assert_eq!(setup.stage, Stage::Ask(Question::Overwrite));
    assert_eq!(setup.settings.jsonrpc.url_1, "");
    assert_eq!(setup.settings.jsonrpc.latency_1, 0);
}

#[test]
fn yes_is_accepted_in_any_case() {
    for yes in ["y", "Y", "yes", "YES", "Yes", "yEs"] {
        assert!(affirms(yes), "{}", yes);
    }
    for no in ["", "n", "no", "ye", "yess", " y", "y ", "yea", "ja"] {
        assert!(!affirms(no), "{}", no);
    }
}

#[test]
fn only_a_lone_s_skips() {
    assert!(skips("s"));
    assert!(!skips("S"));
    assert!(!skips(""));
    assert!(!skips("ss"));
    assert!(!skips("skip"));
}

#[test]
fn refusal_ends_the_wizard() {
    let mut setup = Setup::new();
    assert_eq!(setup.answer(text("n")), None);
    assert_eq!(setup.stage, Stage::Declined);
    let before = setup.clone();
    assert_eq!(setup.answer(text("y")), None);
    assert_eq!(setup, before);
}

#[test]
fn complete_run_fills_every_setting() {
    let mut setup = Setup::new();
    assert_eq!(setup.answer(text("yes")), None);
    assert_eq!(setup.stage, Stage::Ask(Question::Url1));
    assert_eq!(setup.answer(text("https://one")), Some(Notice::UrlInvalid));
    assert_eq!(setup.stage, Stage::Ask(Question::Url2));
    assert_eq!(setup.answer(text("http://two")), Some(Notice::UrlInvalid));
    assert_eq!(setup.stage, Stage::Ask(Question::Latency1));
    assert_eq!(setup.answer(Answer::Millis(200)), None);
    assert_eq!(setup.stage, Stage::Ask(Question::Latency2));
    assert_eq!(setup.answer(Answer::Millis(500)), None);
    assert_eq!(setup.stage, Stage::Ask(Question::ScanKey));
    assert_eq!(setup.answer(text("scan-key")), None);
    assert_eq!(setup.stage, Stage::Ask(Question::MythXKey));
    assert_eq!(setup.answer(text("mythx-key")), None);
    assert_eq!(setup.stage, Stage::Ask(Question::FilePath));
    assert_eq!(setup.answer(folder("/tmp/contracts", true)), Some(Notice::PathInvalid));
    assert_eq!(setup.stage, Stage::Done);

    assert_eq!(setup.settings.jsonrpc.url_1, "https://one");
    assert_eq!(setup.settings.jsonrpc.url_2, "http://two");
    assert_eq!(setup.settings.jsonrpc.latency_1, 200);
    assert_eq!(setup.settings.jsonrpc.latency_2, 500);
    assert_eq!(setup.settings.scan.key, "scan-key");
    assert_eq!(setup.settings.mythx.key, "mythx-key");
    assert_eq!(setup.settings.storage.file_path, "/tmp/contracts");
    assert_eq!(setup.settings.storage.db_url, "");
}

#[test]
fn invalid_urls_are_asked_again() {
    let mut setup = Setup::new();
    setup.answer(text("y"));
    assert_eq!(setup.answer(text("node.example")), Some(Notice::UrlInvalid));
    assert_eq!(setup.stage, Stage::Ask(Question::Url1));
    assert_eq!(setup.settings.jsonrpc.url_1, "node.example");
    assert_eq!(setup.answer(text("https://one")), Some(Notice::UrlInvalid));
    assert_eq!(setup.stage, Stage::Ask(Question::Url2));
    assert_eq!(setup.answer(text("two")), Some(Notice::UrlInvalid));
    assert_eq!(setup.stage, Stage::Ask(Question::Url2));
    assert_eq!(setup.answer(text("https://two")), Some(Notice::UrlInvalid));
    assert_eq!(setup.stage, Stage::Ask(Question::Latency1));
}

#[test]
fn skipped_second_endpoint_has_no_latency_question() {
    let mut setup = Setup::new();
    setup.answer(text("y"));
    setup.answer(text("https://one"));
    assert_eq!(setup.answer(text("s")), None);
    assert_eq!(setup.stage, Stage::Ask(Question::Latency1));
    assert_eq!(setup.settings.jsonrpc.url_2, "s");
    assert_eq!(setup.answer(Answer::Millis(200)), None);
    assert_eq!(setup.stage, Stage::Ask(Question::ScanKey));
    assert_eq!(setup.settings.jsonrpc.latency_2, 0);
}

#[test]
fn unusable_folder_is_asked_again() {
    let mut setup = Setup::new();
    setup.answer(text("y"));
    setup.answer(text("https://one"));
    setup.answer(text("s"));
    setup.answer(Answer::Millis(1));
    setup.answer(text("a"));
    setup.answer(text("b"));
    assert_eq!(setup.answer(folder("/nowhere", false)), Some(Notice::PathInvalid));
    assert_eq!(setup.stage, Stage::Ask(Question::FilePath));
    assert_eq!(setup.settings.storage.file_path, "/nowhere");
    assert_eq!(setup.answer(folder("/tmp", true)), Some(Notice::PathInvalid));
    assert_eq!(setup.stage, Stage::Done);
    assert_eq!(setup.settings.storage.file_path, "/tmp");
}

#[test]
fn answer_of_the_wrong_kind_changes_nothing() {
    let mut setup = Setup::new();
    let before = setup.clone();
    assert_eq!(setup.answer(Answer::Millis(5)), None);
    assert_eq!(setup, before);
    assert_eq!(setup.answer(folder("/tmp", true)), None);
    assert_eq!(setup, before);

    setup.answer(text("y"));
    setup.answer(text("https://one"));
    setup.answer(text("s"));
    let before = setup.clone();
    assert_eq!(setup.answer(text("200")), None);
    assert_eq!(setup, before);
}

#[test]
fn finished_wizard_takes_no_more_answers() {
    let mut setup = Setup::new();
    setup.answer(text("y"));
    setup.answer(text("https://one"));
    setup.answer(text("s"));
    setup.answer(Answer::Millis(1));
    setup.answer(text("a"));
    setup.answer(text("b"));
    setup.answer(folder("/tmp", true));
    let before = setup.clone();
    assert_eq!(setup.answer(text("late")), None);
    assert_eq!(setup.answer(Answer::Millis(9)), None);
    assert_eq!(setup.answer(folder("/other", true)), None);
    assert_eq!(setup, before);
}
