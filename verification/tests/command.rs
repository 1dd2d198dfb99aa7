use smexybot::command::{
    create, delete, edit, info, invoke, list, parse_command, tag, CommandError, Reply, Subcommand,
    TagCommand,
};
use smexybot::config::Config;
use smexybot::model::{Invalid, TagError};
use smexybot::tag::{Tag, Timestamp};
use smexybot::tags::Tags;

fn words(text: &str) -> Vec<String> {
    text.split(' ').filter(|w| !w.is_empty()).map(|w| w.to_owned()).collect()
}

fn say(text: &str) -> Result<Reply, CommandError> {
    Ok(Reply::Say(text.to_owned()))
}

fn empty_store() -> Tags {
    Tags::new(Config::new("tags.json"))
}

#[test]
fn create_takes_name_and_content() {
    let mut tags = empty_store();
    assert_eq!(create(&mut tags, None, 1, words("welcome Hi there, friend!")), say("Tag \"welcome\" successfully created."));
    let made = tags.get_tag(None, "welcome").unwrap();
    assert_eq!(made.content, "Hi there, friend!");
    assert_eq!(made.owner_id, 1);
    assert_eq!(made.uses, 0);
    assert_eq!(made.location, None);
    assert!(made.created_at.secs > 1_600_000_000);
    assert!(tags.is_unsaved());
}

#[test]
fn create_puts_the_name_in_lower_case_without_blanks() {
    let mut tags = empty_store();
    let args = vec!["  HeLLo\t".to_owned(), "x".to_owned()];
    assert_eq!(create(&mut tags, Some(3), 1, args), say("Tag \"hello\" successfully created."));
    assert!(tags.get_tag(Some(3), "hello").is_ok());
    assert!(tags.get_tag(Some(3), "  HeLLo\t").is_err());
    assert!(tags.get_tag(Some(3), "HeLLo").is_err());
    assert_eq!(tags.get_tag(Some(3), "hello").unwrap().location, Some("3".to_owned()));
}

#[test]
fn create_errors() {
    let mut tags = empty_store();
    assert_eq!(create(&mut tags, None, 1, vec![]), Err(CommandError::MissingName(Subcommand::Create)));
    assert_eq!(create(&mut tags, None, 1, words("name")), Err(CommandError::Tag(TagError::Validation(Invalid::EmptyContent))));
    assert_eq!(create(&mut tags, None, 1, words("@everyone-ping x")), Err(CommandError::Tag(TagError::Validation(Invalid::BlockedWords))));
    assert_eq!(create(&mut tags, None, 1, vec!["a".repeat(101), "x".to_owned()]), Err(CommandError::Tag(TagError::Validation(Invalid::NameTooLong))));
    assert!(!tags.is_unsaved());
    assert!(create(&mut tags, None, 1, words("name x")).is_ok());
    assert_eq!(create(&mut tags, None, 2, words("NAME y")), Err(CommandError::Tag(TagError::Duplicate)));
    assert_eq!(tags.get_tag(None, "name").unwrap().content, "x");
}

#[test]
fn info_shows_the_tag() {
    let mut tags = empty_store();
    let made = tags.create_tag_at(None, "a".to_owned(), "x".to_owned(), 1, Timestamp { secs: 5, nanos: 6 }).unwrap();
    assert_eq!(info(&tags, None, words("A")), Ok(Reply::Card(made.clone())));
    assert_eq!(info(&tags, Some(2), words("a ignored")), Ok(Reply::Card(made)));
    assert_eq!(info(&tags, None, words("b")), Err(CommandError::Tag(TagError::NotFound)));
    assert_eq!(info(&tags, None, vec![]), Err(CommandError::MissingName(Subcommand::Info)));
}

#[test]
fn list_names_the_tags() {
    let mut tags = empty_store();
    assert_eq!(list(&tags, None, vec![]), say("No tags available."));
    tags.create_tag_at(None, "b".to_owned(), "x".to_owned(), 1, Timestamp { secs: 0, nanos: 0 }).unwrap();
    assert_eq!(list(&tags, None, vec![]), say("Available tags: b"));
    tags.create_tag_at(None, "a".to_owned(), "x".to_owned(), 1, Timestamp { secs: 0, nanos: 0 }).unwrap();
    tags.create_tag_at(Some(1), "c".to_owned(), "x".to_owned(), 1, Timestamp { secs: 0, nanos: 0 }).unwrap();
    assert_eq!(list(&tags, None, words("ignored")), say("Available tags: a, b"));
    assert_eq!(list(&tags, Some(1), vec![]), say("Available tags: a, b, c"));
}

#[test]
fn edit_replaces_content() {
    let mut tags = empty_store();
    create(&mut tags, None, 1, words("a old text")).unwrap();
    tags.mark_saved();
    assert_eq!(edit(&mut tags, None, 1, vec![]), Err(CommandError::MissingName(Subcommand::Edit)));
    assert_eq!(edit(&mut tags, None, 1, words("b new")), Err(CommandError::Tag(TagError::NotFound)));
    assert_eq!(edit(&mut tags, None, 2, words("a new")), Err(CommandError::Tag(TagError::Permission)));
    // Who may not edit is told so before the missing content is looked at.
    assert_eq!(edit(&mut tags, None, 2, words("a")), Err(CommandError::Tag(TagError::Permission)));
    assert_eq!(edit(&mut tags, None, 1, words("a")), Err(CommandError::Tag(TagError::Validation(Invalid::EmptyContent))));
    assert_eq!(tags.get_tag(None, "a").unwrap().content, "old text");
    assert!(!tags.is_unsaved());
    assert_eq!(edit(&mut tags, None, 1, words("A new text here")), say("Tag \"a\" successfully updated."));
    assert_eq!(tags.get_tag(None, "a").unwrap().content, "new text here");
    assert!(tags.is_unsaved());
}

#[test]
fn delete_removes_the_tag() {
    let mut tags = empty_store();
    create(&mut tags, Some(4), 1, words("a text")).unwrap();
    tags.mark_saved();
    assert_eq!(delete(&mut tags, Some(4), 1, vec![]), Err(CommandError::MissingName(Subcommand::Delete)));
    assert_eq!(delete(&mut tags, Some(4), 1, words("b")), Err(CommandError::Tag(TagError::NotFound)));
    assert_eq!(delete(&mut tags, None, 1, words("a")), Err(CommandError::Tag(TagError::NotFound)));
    assert_eq!(delete(&mut tags, Some(4), 2, words("a")), Err(CommandError::Tag(TagError::Permission)));
    assert!(tags.get_tag(Some(4), "a").is_ok());
    assert!(!tags.is_unsaved());
    assert_eq!(delete(&mut tags, Some(4), 1, words("A")), say("Tag \"a\" successfully deleted."));
    assert!(tags.get_tag(Some(4), "a").is_err());
    assert!(tags.is_unsaved());
}

#[test]
fn invoke_counts_and_answers_with_the_content() {
    let mut tags = empty_store();
    create(&mut tags, None, 1, words("a the content")).unwrap();
    tags.mark_saved();
    assert_eq!(invoke(&mut tags, None, "missing"), Err(CommandError::Tag(TagError::NotFound)));
    assert!(!tags.is_unsaved());
    assert_eq!(invoke(&mut tags, None, "a"), say("the content"));
    assert_eq!(invoke(&mut tags, Some(2), "a"), say("the content"));
    assert_eq!(tags.get_tag(None, "a").unwrap().uses, 2);
    assert!(tags.is_unsaved());
}

#[test]
fn invoke_stops_at_a_full_counter() {
    let mut config = Config::new("tags.json");
    let full = Tag::new("a".to_owned(), "x".to_owned(), 1, Some(u32::MAX), None, Some(Timestamp { secs: 0, nanos: 0 }));
    config.put_tag("generic", "a".to_owned(), full.clone());
    let almost = Tag::new("b".to_owned(), "y".to_owned(), 1, Some(u32::MAX - 1), None, Some(Timestamp { secs: 0, nanos: 0 }));
    config.put_tag("generic", "b".to_owned(), almost);
    config.mark_saved();
    let mut tags = Tags::new(config);

    assert_eq!(invoke(&mut tags, None, "a"), Err(CommandError::CounterFull));
    assert_eq!(tags.get_tag(None, "a"), Ok(full));
    assert!(!tags.is_unsaved());
    assert_eq!(tag(&mut tags, None, 1, vec!["a".to_owned()]), Err(CommandError::CounterFull));

    assert_eq!(invoke(&mut tags, None, "b"), say("y"));
    assert_eq!(tags.get_tag(None, "b").unwrap().uses, u32::MAX);
    assert_eq!(invoke(&mut tags, None, "b"), Err(CommandError::CounterFull));
}

#[test]
fn tag_command_dispatches() {
    let mut tags = empty_store();
    assert_eq!(tag(&mut tags, None, 1, vec![]), Err(CommandError::NoCommand));
    assert_eq!(tag(&mut tags, None, 1, words("create")), Err(CommandError::MissingName(Subcommand::Create)));
    assert_eq!(tag(&mut tags, None, 1, words("create greet Hello you")), say("Tag \"greet\" successfully created."));
    assert_eq!(tag(&mut tags, None, 1, words("list")), say("Available tags: greet"));
    match tag(&mut tags, None, 1, words("info greet")) {
        Ok(Reply::Card(t)) => {
            assert_eq!(t.name, "greet");
            assert_eq!(t.content, "Hello you");
            assert_eq!(t.uses, 0);
        },
        other => panic!("{:?}", other),
    }
    assert_eq!(tag(&mut tags, None, 1, words("GREET")), say("Hello you"));
    assert_eq!(tag(&mut tags, None, 1, words("greet and more")), say("Hello you"));
    assert_eq!(tags.get_tag(None, "greet").unwrap().uses, 2);
    assert_eq!(tag(&mut tags, None, 1, words("edit greet Bye")), say("Tag \"greet\" successfully updated."));
    assert_eq!(tag(&mut tags, None, 1, words("greet")), say("Bye"));
    assert_eq!(tag(&mut tags, None, 2, words("delete greet")), Err(CommandError::Tag(TagError::Permission)));
    assert_eq!(tag(&mut tags, None, 1, words("delete greet")), say("Tag \"greet\" successfully deleted."));
    assert_eq!(tag(&mut tags, None, 1, words("greet")), Err(CommandError::Tag(TagError::NotFound)));
    assert_eq!(tag(&mut tags, None, 1, words("list")), say("No tags available."));
}

#[test]
fn subcommands_are_told_by_their_exact_word() {
    let mut tags = empty_store();
    // "Create" is no subcommand: it is taken as the name of a tag.
    assert_eq!(tag(&mut tags, None, 1, words("Create a b")), Err(CommandError::Tag(TagError::NotFound)));
    tag(&mut tags, None, 1, words("create list x")).unwrap();
    // The subcommand wins over a tag of the same name.
    assert_eq!(tag(&mut tags, None, 1, words("list")), say("Available tags: list"));
    assert_eq!(tag(&mut tags, None, 1, words("LIST")), say("x"));
}

#[test]
fn first_word_picks_the_subcommand() {
    assert_eq!(parse_command("create"), TagCommand::Create);
    assert_eq!(parse_command("info"), TagCommand::Info);
    assert_eq!(parse_command("list"), TagCommand::List);
    assert_eq!(parse_command("edit"), TagCommand::Edit);
    assert_eq!(parse_command("delete"), TagCommand::Delete);
    assert_eq!(parse_command("Delete"), TagCommand::Invoke("delete".to_owned()));
    assert_eq!(parse_command("create "), TagCommand::Invoke("create ".to_owned()));
    assert_eq!(parse_command("ÄPFEL"), TagCommand::Invoke("äpfel".to_owned()));
    assert_eq!(parse_command(""), TagCommand::Invoke("".to_owned()));
}

#[test]
fn each_error_has_its_message() {
    let all = [
        (CommandError::NoCommand, "Either specify a tag name or use one of the available commands."),
        (CommandError::MissingName(Subcommand::Create), "Please specify a name for the tag."),
        (CommandError::MissingName(Subcommand::Info), "Please specify a name for the tag to get info on."),
        (CommandError::MissingName(Subcommand::Edit), "Please specify a tag to edit."),
        (CommandError::MissingName(Subcommand::Delete), "Please specify a tag to delete."),
        (CommandError::CounterFull, "Tag cannot be used any more."),
        (CommandError::Tag(TagError::Validation(Invalid::BlockedWords)), "Tag contains blocked words"),
        (CommandError::Tag(TagError::Validation(Invalid::NameTooLong)), "Tag name limit is 100 characters"),
        (CommandError::Tag(TagError::Validation(Invalid::EmptyContent)), "Please specify some content for the tag."),
        (CommandError::Tag(TagError::Duplicate), "Tag already exists."),
        (CommandError::Tag(TagError::NotFound), "Tag not found"),
        (CommandError::Tag(TagError::Permission), "You do not have permission to do that."),
    ];
    for (i, (e, text)) in all.iter().enumerate() {
        assert_eq!(e.message(), *text);
        for (j, (_, other)) in all.iter().enumerate() {
            if i != j {
                assert_ne!(text, other);
            }
        }
    }
}
