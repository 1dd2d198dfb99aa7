use smexybot::config::Config;
use smexybot::persist::{plan, plan_with, LoadError, Loaded, SaveAction, SaveError, SavePlan, SaveState};
use smexybot::tag::{Tag, Timestamp};
use smexybot::tags::Tags;

fn s(text: &str) -> String {
    text.to_owned()
}

fn sample() -> Vec<(String, Vec<(String, Tag)>)> {
    let a = Tag::new(s("a"), s("x"), 1, Some(3), None, Some(Timestamp { secs: 1, nanos: 2 }));
    vec![(s("generic"), vec![(s("a"), a)]), (s("17"), vec![])]
}

#[test]
fn missing_file_means_an_empty_store() {
    let mut config = Config::new("tags.json");
    assert_eq!(config.load(Loaded::Missing), Ok(()));
    assert!(config.keys().is_empty());
    assert!(!config.is_unsaved());
}

#[test]
fn unusable_file_is_an_error() {
    let mut config = Config::new("tags.json");
    assert_eq!(config.load(Loaded::Unopened), Err(LoadError::Open));
    assert_eq!(config.load(Loaded::Unread), Err(LoadError::Read));
    assert_eq!(config.load(Loaded::Malformed), Err(LoadError::Parse));
    assert!(config.keys().is_empty());
    assert_eq!(LoadError::Open.message("tags.json"), "Failed to open file: tags.json");
    assert_eq!(LoadError::Read.message("tags.json"), "Failed to read from file: tags.json");
    assert_eq!(LoadError::Parse.message("tags.json"), "Failed to deserialize Config");
}

#[test]
fn parsed_namespaces_become_the_store() {
    let mut config = Config::new("tags.json");
    assert_eq!(config.load(Loaded::Parsed(sample())), Ok(()));
    assert!(!config.is_unsaved());
    let mut keys = config.keys();
    keys.sort();
    assert_eq!(keys, vec![s("17"), s("generic")]);
    assert_eq!(config.get("generic").unwrap().get("a").unwrap().uses, 3);
    assert!(config.get("17").unwrap().is_empty());
    let tags = Tags::new(config);
    assert_eq!(tags.get_tag(Some(17), "a").unwrap().content, "x");
}

#[test]
fn what_is_written_out_can_be_loaded_again() {
    let mut tags = Tags::new(Config::new("tags.json"));
    tags.create_tag_at(None, s("a"), s("x"), 1, Timestamp { secs: 1, nanos: 2 }).unwrap();
    tags.create_tag_at(Some(4), s("a"), s("y"), 2, Timestamp { secs: 3, nanos: 4 }).unwrap();
    tags.create_tag_at(Some(4), s("b"), s("z"), 2, Timestamp { secs: 5, nanos: 6 }).unwrap();
    tags.increment_use(Some(4), "b").unwrap();
    tags.delete_tag(None, "a", 1).unwrap();

    let snapshot = tags.config().snapshot();
    let mut again = Config::new("tags.json");
    again.load(Loaded::Parsed(snapshot)).unwrap();

    let mut keys = again.keys();
    keys.sort();
    let mut expected = tags.config().keys();
    expected.sort();
    assert_eq!(keys, expected);
    assert_eq!(keys, vec![s("4"), s("generic")]);
    for key in keys {
        let was = tags.config().get(&key).unwrap();
        let is = again.get(&key).unwrap();
        let mut names = is.keys();
        names.sort();
        let mut were = was.keys();
        were.sort();
        assert_eq!(names, were);
        for name in names {
            assert_eq!(is.get(&name), was.get(&name));
        }
    }
    assert!(again.get("generic").unwrap().is_empty());
    assert_eq!(again.get("4").unwrap().get("b").unwrap().uses, 1);
}

#[test]
fn snapshot_lists_every_namespace_and_tag() {
    let mut tags = Tags::new(Config::new("tags.json"));
    let a = tags.create_tag_at(None, s("a"), s("x"), 1, Timestamp { secs: 1, nanos: 2 }).unwrap();
    let b = tags.create_tag_at(Some(4), s("b"), s("y"), 2, Timestamp { secs: 3, nanos: 4 }).unwrap();
    let mut snapshot = tags.config().snapshot();
    snapshot.sort_by(|x, y| x.0.cmp(&y.0));
    assert_eq!(snapshot, vec![(s("4"), vec![(s("b"), b)]), (s("generic"), vec![(s("a"), a)])]);
}

#[test]
fn later_entries_of_a_snapshot_win() {
    let t = |content: &str| Tag::new(s("a"), s(content), 1, None, None, Some(Timestamp { secs: 0, nanos: 0 }));
    let mut config = Config::new("tags.json");
    let snapshot = vec![
        (s("generic"), vec![(s("a"), t("first")), (s("a"), t("second"))]),
        (s("9"), vec![(s("a"), t("nine"))]),
        (s("generic"), vec![(s("b"), t("third"))]),
    ];
    config.load(Loaded::Parsed(snapshot)).unwrap();
    assert_eq!(config.keys().len(), 2);
    assert!(config.get("generic").unwrap().get("a").is_none());
    assert_eq!(config.get("generic").unwrap().get("b").unwrap().content, "third");
    assert_eq!(config.get("9").unwrap().get("a").unwrap().content, "nine");
}

#[test]
fn save_goes_through_its_steps() {
    let mut state = SaveState::Idle;
    assert_eq!(state.action(), SaveAction::CreateTemp);
    state = state.advance(true).unwrap();
    assert_eq!(state, SaveState::TempFileCreated);
    assert_eq!(state.action(), SaveAction::WriteTemp);
    state = state.advance(true).unwrap();
    assert_eq!(state, SaveState::TempFileWritten);
    assert_eq!(state.action(), SaveAction::RenameOverTarget);
    state = state.advance(true).unwrap();
    assert_eq!(state, SaveState::RenamedOverTarget);
    assert_eq!(state.action(), SaveAction::Finish);
    assert_eq!(state.advance(true), Ok(SaveState::Idle));
    assert_eq!(state.advance(false), Ok(SaveState::Idle));
}

#[test]
fn a_failed_step_is_reported() {
    assert_eq!(SaveState::Idle.advance(false), Err(SaveError::Create));
    assert_eq!(SaveState::TempFileCreated.advance(false), Err(SaveError::Write));
    assert_eq!(SaveState::TempFileWritten.advance(false), Err(SaveError::Rename));
    assert_eq!(SaveError::Create.message("t.tmp"), "Failed to create file: t.tmp");
    assert_eq!(SaveError::Write.message("t.tmp"), "Failed to write to file: t.tmp");
    assert_eq!(SaveError::Rename.message("t.tmp"), "Failed to write new Config");
}

#[test]
fn temporary_file_is_named_after_the_file() {
    assert_eq!(
        plan_with("data/tags.json", "0123"),
        SavePlan { temp: s("data/tags.json-0123.tmp"), target: s("data/tags.json") }
    );
    assert_eq!(plan_with("", ""), SavePlan { temp: s("-.tmp"), target: s("") });
}

#[test]
fn temporary_file_gets_a_unique_suffix() {
    let first = plan("data/tags.json");
    let second = plan("data/tags.json");
    assert_eq!(first.target, "data/tags.json");
    assert_ne!(first.temp, second.temp);
    for p in [&first, &second] {
        assert!(p.temp.starts_with("data/tags.json-"));
        assert!(p.temp.ends_with(".tmp"));
        let unique = &p.temp["data/tags.json-".len()..p.temp.len() - ".tmp".len()];
        assert_eq!(unique.chars().count(), 36);
        assert!(unique.chars().all(|c| c == '-' || c.is_ascii_digit() || ('a'..='f').contains(&c)));
        assert_ne!(p.temp, p.target);
    }
    let config = Config::new("tags.json");
    let p = config.save_plan();
    assert_eq!(p.target, "tags.json");
    assert!(p.temp.starts_with("tags.json-") && p.temp.ends_with(".tmp"));
    assert_eq!(p.temp.len(), "tags.json-".len() + 36 + ".tmp".len());
}
