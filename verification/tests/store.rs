use smexybot::config::{get_database_location, Config};
use smexybot::model::{Invalid, TagError};
use smexybot::str_map::StrMap;
use smexybot::tag::{Tag, Timestamp};
use smexybot::tags::{verify_tag_name, Tags};

fn at(secs: i64) -> Timestamp {
    Timestamp { secs, nanos: 0 }
}

fn empty_store() -> Tags {
    Tags::new(Config::new("tags.json"))
}

fn s(text: &str) -> String {
    text.to_owned()
}

#[test]
fn welcome_from_creation_to_deletion() {
    let mut tags = empty_store();
    let made = tags.create_tag_at(None, s("welcome"), s("Hi!"), 1, at(10)).unwrap();
    assert_eq!(made.name, "welcome");
    assert_eq!(tags.list_tags(None), vec![s("welcome")]);

    let got = tags.get_tag(None, "welcome").unwrap();
    assert_eq!(got.content, "Hi!");
    assert_eq!(got.uses, 0);

    let used = tags.increment_use(None, "welcome").unwrap();
    assert_eq!(used.uses, 1);
    assert_eq!(tags.get_tag(None, "welcome").unwrap().uses, 1);

    assert_eq!(tags.delete_tag(None, "welcome", 2), Err(TagError::Permission));
    assert_eq!(tags.get_tag(None, "welcome").unwrap().uses, 1);
    assert_eq!(tags.delete_tag(None, "welcome", 1), Ok(()));
    assert_eq!(tags.list_tags(None), Vec::<String>::new());
}

#[test]
fn names_that_mention_everyone_are_refused() {
    let blocked = Err(TagError::Validation(Invalid::BlockedWords));
    assert_eq!(verify_tag_name("@everyone-ping"), blocked);
    assert_eq!(verify_tag_name("hi-@here"), blocked);
    assert_eq!(verify_tag_name("x@everyonex"), blocked);
    assert_eq!(verify_tag_name("@everyon"), Ok(()));
    assert_eq!(verify_tag_name("@her"), Ok(()));
    assert_eq!(verify_tag_name(""), Ok(()));

    let mut tags = empty_store();
    assert_eq!(tags.create_tag_at(None, s("@everyone-ping"), s("x"), 1, at(0)), Err(TagError::Validation(Invalid::BlockedWords)));
    assert!(!tags.is_unsaved());
    assert_eq!(tags.list_tags(None), Vec::<String>::new());
}

#[test]
fn names_over_a_hundred_characters_are_refused() {
    let long = "a".repeat(101);
    let fits = "a".repeat(100);
    assert_eq!(verify_tag_name(&long), Err(TagError::Validation(Invalid::NameTooLong)));
    assert_eq!(verify_tag_name(&fits), Ok(()));

    let mut tags = empty_store();
    assert_eq!(tags.create_tag_at(None, long, s("x"), 1, at(0)), Err(TagError::Validation(Invalid::NameTooLong)));
    assert!(tags.create_tag_at(None, fits, s("x"), 1, at(0)).is_ok());
}

#[test]
fn name_length_counts_characters() {
    // A hundred characters of two bytes each.
    let wide = "é".repeat(100);
    assert_eq!(wide.len(), 200);
    assert_eq!(verify_tag_name(&wide), Ok(()));
    let wider = "é".repeat(101);
    assert_eq!(verify_tag_name(&wider), Err(TagError::Validation(Invalid::NameTooLong)));
}

#[test]
fn blocked_words_come_before_length() {
    let name = format!("@here{}", "a".repeat(200));
    assert_eq!(verify_tag_name(&name), Err(TagError::Validation(Invalid::BlockedWords)));
}

#[test]
fn created_tag_is_found_with_what_it_was_made_with() {
    let mut tags = empty_store();
    let made = tags.create_tag_at(Some(42), s("rules"), s("Be kind."), 7, Timestamp { secs: 1_500_000_000, nanos: 123 }).unwrap();
    let expected = Tag {
        name: s("rules"),
        content: s("Be kind."),
        owner_id: 7,
        uses: 0,
        location: Some(s("42")),
        created_at: Timestamp { secs: 1_500_000_000, nanos: 123 },
    };
    assert_eq!(made, expected);
    assert_eq!(tags.get_tag(Some(42), "rules"), Ok(expected));
    assert!(tags.is_unsaved());
    // Not visible outside the community, nor from another one.
    assert_eq!(tags.get_tag(None, "rules"), Err(TagError::NotFound));
    assert_eq!(tags.get_tag(Some(43), "rules"), Err(TagError::NotFound));
}

#[test]
fn generic_tag_records_no_location() {
    let mut tags = empty_store();
    let made = tags.create_tag_at(None, s("faq"), s("Read it."), 3, at(5)).unwrap();
    assert_eq!(made.location, None);
    assert!(made.is_generic());
    let bound = tags.create_tag_at(Some(9), s("faq"), s("Ours."), 3, at(6)).unwrap();
    assert!(!bound.is_generic());
}

#[test]
fn empty_content_is_refused() {
    let mut tags = empty_store();
    assert_eq!(tags.create_tag_at(None, s("a"), s(""), 1, at(0)), Err(TagError::Validation(Invalid::EmptyContent)));
    // The content is looked at before the name.
    assert_eq!(tags.create_tag_at(None, s("@here"), s(""), 1, at(0)), Err(TagError::Validation(Invalid::EmptyContent)));
    tags.create_tag_at(None, s("a"), s("x"), 1, at(0)).unwrap();
    assert_eq!(tags.edit_tag(None, "a", s(""), 1), Err(TagError::Validation(Invalid::EmptyContent)));
    assert_eq!(tags.get_tag(None, "a").unwrap().content, "x");
}

#[test]
fn duplicate_is_refused_and_changes_nothing() {
    let mut tags = empty_store();
    let first = tags.create_tag_at(None, s("a"), s("one"), 1, at(1)).unwrap();
    tags.mark_saved();
    assert_eq!(tags.create_tag_at(None, s("a"), s("two"), 2, at(2)), Err(TagError::Duplicate));
    assert_eq!(tags.get_tag(None, "a"), Ok(first));
    assert!(!tags.is_unsaved());
    // Again, with the same outcome.
    assert_eq!(tags.create_tag_at(None, s("a"), s("two"), 2, at(2)), Err(TagError::Duplicate));
    // The same name in another namespace is no duplicate.
    assert!(tags.create_tag_at(Some(5), s("a"), s("two"), 2, at(2)).is_ok());
    assert_eq!(tags.create_tag_at(Some(5), s("a"), s("three"), 2, at(3)), Err(TagError::Duplicate));
}

#[test]
fn stranger_can_neither_edit_nor_delete() {
    let mut tags = empty_store();
    let made = tags.create_tag_at(Some(1), s("a"), s("mine"), 10, at(1)).unwrap();
    tags.mark_saved();
    assert_eq!(tags.edit_tag(Some(1), "a", s("yours"), 11), Err(TagError::Permission));
    assert_eq!(tags.delete_tag(Some(1), "a", 11), Err(TagError::Permission));
    assert_eq!(tags.get_tag(Some(1), "a"), Ok(made));
    assert!(!tags.is_unsaved());
}

#[test]
fn missing_tag_is_not_found() {
    let mut tags = empty_store();
    assert_eq!(tags.get_tag(None, "a"), Err(TagError::NotFound));
    assert_eq!(tags.edit_tag(None, "a", s("x"), 1), Err(TagError::NotFound));
    assert_eq!(tags.delete_tag(None, "a", 1), Err(TagError::NotFound));
    assert_eq!(tags.increment_use(None, "a"), Err(TagError::NotFound));
    assert!(!tags.is_unsaved());
}

#[test]
fn edit_replaces_the_content_only() {
    let mut tags = empty_store();
    let made = tags.create_tag_at(Some(1), s("a"), s("old"), 10, at(77)).unwrap();
    tags.increment_use(Some(1), "a").unwrap();
    tags.mark_saved();
    let edited = tags.edit_tag(Some(1), "a", s("new"), 10).unwrap();
    assert_eq!(edited, Tag { content: s("new"), uses: 1, ..made });
    assert_eq!(tags.get_tag(Some(1), "a"), Ok(edited));
    assert!(tags.is_unsaved());
}

#[test]
fn uses_add_up_whatever_happens_elsewhere() {
    let mut tags = empty_store();
    tags.create_tag_at(Some(1), s("a"), s("x"), 10, at(1)).unwrap();
    for round in 0..5u64 {
        tags.increment_use(Some(1), "a").unwrap();
        tags.create_tag_at(Some(2), format!("other{}", round), s("y"), 20, at(2)).unwrap();
        tags.increment_use(Some(2), &format!("other{}", round)).unwrap();
        tags.increment_use(Some(1), "a").unwrap();
        tags.delete_tag(Some(2), &format!("other{}", round), 20).unwrap();
    }
    assert_eq!(tags.get_tag(Some(1), "a").unwrap().uses, 10);
}

#[test]
fn use_of_a_generic_tag_inside_a_community_counts_on_the_generic_tag() {
    let mut tags = empty_store();
    tags.create_tag_at(None, s("a"), s("x"), 10, at(1)).unwrap();
    let used = tags.increment_use(Some(3), "a").unwrap();
    assert_eq!(used.uses, 1);
    assert_eq!(used.location, None);
    assert_eq!(tags.get_tag(None, "a").unwrap().uses, 1);
    assert_eq!(tags.get_tag(Some(4), "a").unwrap().uses, 1);
    assert!(tags.config().get("3").is_none());
}

#[test]
fn guild_tag_hides_generic_tag() {
    let mut tags = empty_store();
    tags.create_tag_at(None, s("a"), s("generic"), 1, at(1)).unwrap();
    tags.create_tag_at(None, s("b"), s("only generic"), 1, at(1)).unwrap();
    tags.create_tag_at(Some(8), s("a"), s("ours"), 2, at(2)).unwrap();
    tags.create_tag_at(Some(8), s("c"), s("only ours"), 2, at(2)).unwrap();

    assert_eq!(tags.get_tag(Some(8), "a").unwrap().content, "ours");
    assert_eq!(tags.get_tag(None, "a").unwrap().content, "generic");
    assert_eq!(tags.get_tag(Some(9), "a").unwrap().content, "generic");

    let seen = tags.get_possible_tags(Some(8));
    assert_eq!(seen.get("a").unwrap().content, "ours");
    assert_eq!(seen.get("b").unwrap().content, "only generic");
    assert_eq!(seen.get("c").unwrap().content, "only ours");
    assert_eq!(seen.keys().len(), 3);

    let outside = tags.get_possible_tags(None);
    assert_eq!(outside.get("a").unwrap().content, "generic");
    assert!(outside.get("c").is_none());
    assert_eq!(outside.keys().len(), 2);

    assert_eq!(tags.list_tags(Some(8)), vec![s("a"), s("b"), s("c")]);
    assert_eq!(tags.list_tags(None), vec![s("a"), s("b")]);
}

#[test]
fn deleting_the_guild_tag_uncovers_the_generic_one() {
    let mut tags = empty_store();
    tags.create_tag_at(None, s("a"), s("generic"), 1, at(1)).unwrap();
    tags.create_tag_at(Some(8), s("a"), s("ours"), 2, at(2)).unwrap();
    // The owner of the generic tag does not own the one that is visible here.
    assert_eq!(tags.delete_tag(Some(8), "a", 1), Err(TagError::Permission));
    assert_eq!(tags.delete_tag(Some(8), "a", 2), Ok(()));
    assert_eq!(tags.get_tag(Some(8), "a").unwrap().content, "generic");
    assert_eq!(tags.delete_tag(Some(8), "a", 1), Ok(()));
    assert_eq!(tags.get_tag(Some(8), "a"), Err(TagError::NotFound));
    assert_eq!(tags.get_tag(None, "a"), Err(TagError::NotFound));
}

#[test]
fn list_is_sorted() {
    let mut tags = empty_store();
    for name in ["pear", "apple", "fig", "apples", "Zebra", "éclair"] {
        tags.create_tag_at(None, s(name), s("x"), 1, at(1)).unwrap();
    }
    assert_eq!(tags.list_tags(None), vec![s("Zebra"), s("apple"), s("apples"), s("fig"), s("pear"), s("éclair")]);
    let mut expected: Vec<String> = tags.get_possible_tags(None).keys();
    expected.sort();
    assert_eq!(tags.list_tags(None), expected);
}

#[test]
fn put_tag_makes_the_namespace() {
    let mut config = Config::new("tags.json");
    assert!(config.get("12").is_none());
    let tag = Tag::new(s("a"), s("x"), 1, Some(4), Some(s("12")), Some(at(1)));
    config.put_tag("12", s("a"), tag.clone());
    assert_eq!(config.get("12").unwrap().get("a"), Some(&tag));
    assert!(config.is_unsaved());
    let tags = Tags::new(config);
    assert_eq!(tags.get_tag(Some(12), "a"), Ok(tag));
    assert!(tags.is_unsaved());
}

#[test]
fn locations_are_decimal_or_generic() {
    assert_eq!(get_database_location(None), "generic");
    assert_eq!(get_database_location(Some(0)), "0");
    assert_eq!(get_database_location(Some(42)), "42");
    assert_eq!(get_database_location(Some(u64::MAX)), "18446744073709551615");
}

#[test]
fn config_keeps_what_is_inserted() {
    let mut config = Config::new("tags.json");
    assert_eq!(config.name(), "tags.json");
    assert!(!config.is_unsaved());
    assert!(config.get("generic").is_none());
    assert!(config.keys().is_empty());

    let mut bucket: StrMap<Tag> = StrMap::new();
    let tag = Tag::new(s("a"), s("x"), 1, None, None, Some(at(1)));
    bucket.insert(s("a"), tag.clone());
    config.insert(s("generic"), bucket);
    assert!(config.is_unsaved());
    assert_eq!(config.get("generic").unwrap().get("a"), Some(&tag));
    assert_eq!(config.keys(), vec![s("generic")]);

    config.mark_saved();
    assert!(!config.is_unsaved());
    // A second insert under the same key replaces the first.
    config.insert(s("generic"), StrMap::new());
    assert!(config.get("generic").unwrap().is_empty());
    assert_eq!(config.keys().len(), 1);
}

#[test]
fn take_tag_removes_one_tag() {
    let mut config = Config::new("tags.json");
    let tag = Tag::new(s("a"), s("x"), 1, None, None, Some(at(1)));
    config.put_tag("generic", s("a"), tag.clone());
    config.put_tag("generic", s("b"), tag.clone());
    config.mark_saved();
    assert_eq!(config.take_tag("generic", "c"), None);
    assert_eq!(config.take_tag("nowhere", "a"), None);
    assert!(!config.is_unsaved());
    assert_eq!(config.take_tag("generic", "a"), Some(tag.clone()));
    assert!(config.is_unsaved());
    assert!(config.get("generic").unwrap().get("a").is_none());
    assert_eq!(config.get("generic").unwrap().get("b"), Some(&tag));
}
