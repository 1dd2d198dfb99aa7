use smexybot::tag::{Author, Field, Tag, TagEmbed, Timestamp};
use std::time::{SystemTime, UNIX_EPOCH};

fn s(text: &str) -> String {
    text.to_owned()
}

#[test]
fn new_tag_defaults() {
    let tag = Tag::new(s("a"), s("x"), 5, None, None, Some(Timestamp { secs: 9, nanos: 8 }));
    assert_eq!(
        tag,
        Tag { name: s("a"), content: s("x"), owner_id: 5, uses: 0, location: None, created_at: Timestamp { secs: 9, nanos: 8 } }
    );
    let tag = Tag::new(s("a"), s("x"), 5, Some(17), Some(s("33")), Some(Timestamp { secs: -1, nanos: 0 }));
    assert_eq!(tag.uses, 17);
    assert_eq!(tag.location, Some(s("33")));
    assert_eq!(tag.created_at, Timestamp { secs: -1, nanos: 0 });
}

#[test]
fn new_tag_is_dated_now() {
    let before = SystemTime::now().duration_since(UNIX_EPOCH).unwrap().as_secs() as i64;
    let tag = Tag::new(s("a"), s("x"), 5, None, None, None);
    let after = SystemTime::now().duration_since(UNIX_EPOCH).unwrap().as_secs() as i64;
    assert!(before <= tag.created_at.secs);
    assert!(tag.created_at.secs <= after);
    assert!(tag.created_at.nanos < 1_000_000_000);
    assert!(tag.created_at.secs > 1_600_000_000);
}

#[test]
fn generic_means_no_location() {
    assert!(Tag::new(s("a"), s("x"), 5, None, None, None).is_generic());
    assert!(!Tag::new(s("a"), s("x"), 5, None, Some(s("1")), None).is_generic());
    assert!(!Tag::new(s("a"), s("x"), 5, None, Some(s("generic")), None).is_generic());
}

#[test]
fn clone_keeps_every_field() {
    let tag = Tag::new(s("a"), s("x"), 5, Some(2), Some(s("1")), Some(Timestamp { secs: 3, nanos: 4 }));
    assert_eq!(tag.clone(), tag);
}

#[test]
fn card_of_a_generic_tag() {
    let tag = Tag::new(s("welcome"), s("Hi!"), 1234567890123, Some(41), None, Some(Timestamp { secs: 3, nanos: 4 }));
    let card = tag.as_embed(None);
    assert_eq!(
        card,
        TagEmbed {
            title: s("welcome"),
            fields: vec![
                Field { name: s("Owner"), value: s("<@!1234567890123>") },
                Field { name: s("Uses"), value: s("41") },
            ],
            author: None,
            timestamp: Timestamp { secs: 3, nanos: 4 },
            footer: s("Generic"),
        }
    );
}

#[test]
fn card_of_a_guild_tag_with_author() {
    let tag = Tag::new(s("rules"), s("Be kind."), 0, None, Some(s("7")), Some(Timestamp { secs: 0, nanos: 0 }));
    let author = Author { name: s("ann"), avatar_url: Some(s("https://example.org/a.png")) };
    let card = tag.as_embed(Some(Author { name: s("ann"), avatar_url: Some(s("https://example.org/a.png")) }));
    assert_eq!(card.title, "rules");
    assert_eq!(card.fields[0].value, "<@!0>");
    assert_eq!(card.fields[1].value, "0");
    assert_eq!(card.author, Some(author));
    assert_eq!(card.footer, "Server-specific");
}
