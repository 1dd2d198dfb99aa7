//! The tag record: a named snippet of text with its owner, its use counter,
//! the community it belongs to and the moment it was made.

use crate::str_map::Duplicate;
use crate::text::{decimal, to_decimal};
use vstd::prelude::*;
use vstd::string::StringExecFns;

verus! {

/// A moment in time: whole seconds since the start of 1970 in UTC, and the
/// nanoseconds past that second.
#[derive(Clone, Copy, Debug, PartialEq, Eq, Structural)]
pub struct Timestamp {
    pub secs: i64,
    pub nanos: u32,
}

/// Reads the system clock with `chrono::Utc::now` and hands back its seconds
/// (`DateTime::timestamp`) and nanoseconds (`DateTime::timestamp_subsec_nanos`).
/// Nothing is claimed of the result. The call panics where the system clock
/// stands before 1970.
#[verifier::external_body]
pub(crate) fn now() -> (t: Timestamp) {
    let t = chrono::Utc::now();
    Timestamp { secs: t.timestamp(), nanos: t.timestamp_subsec_nanos() }
}

/// A named snippet of text.
#[derive(Debug, PartialEq, Eq)]
pub struct Tag {
    /// The name under which the tag is looked up.
    pub name: String,
    /// The text that the tag stands for.
    pub content: String,
    /// Who made the tag.
    pub owner_id: u64,
    /// How often the tag was invoked.
    pub uses: u32,
    /// The community that the tag belongs to; `None` for a tag that is
    /// visible everywhere.
    pub location: Option<String>,
    /// When the tag was made.
    pub created_at: Timestamp,
}

/// What a tag stands for.
pub struct TagView {
    pub name: Seq<char>,
    pub content: Seq<char>,
    pub owner_id: u64,
    pub uses: u32,
    pub location: Option<Seq<char>>,
    pub created_at: Timestamp,
}

/// The view of an optional string.
pub open spec fn view_opt(s: Option<String>) -> Option<Seq<char>> {
    match s {
        Some(s) => Some(s@),
        None => None,
    }
}

impl View for Tag {
    type V = TagView;

    open spec fn view(&self) -> TagView {
        TagView {
            name: self.name@,
            content: self.content@,
            owner_id: self.owner_id,
            uses: self.uses,
            location: view_opt(self.location),
            created_at: self.created_at,
        }
    }
}

impl Clone for Tag {
    fn clone(&self) -> (copy: Self)
        ensures
            copy == *self,
    {
        Tag {
            name: self.name.clone(),
            content: self.content.clone(),
            owner_id: self.owner_id,
            uses: self.uses,
            location: match &self.location {
                Some(l) => Some(l.clone()),
                None => None,
            },
            created_at: self.created_at,
        }
    }
}

impl Duplicate for Tag {
    fn duplicate(&self) -> (copy: Self) {
        self.clone()
    }
}

/// Who is shown as the author of a tag.
#[derive(Debug, PartialEq, Eq)]
pub struct Author {
    pub name: String,
    pub avatar_url: Option<String>,
}

/// One titled line of a tag's card.
#[derive(Debug, PartialEq, Eq)]
pub struct Field {
    pub name: String,
    pub value: String,
}

/// A tag laid out as a card for display.
#[derive(Debug, PartialEq, Eq)]
pub struct TagEmbed {
    pub title: String,
    pub fields: Vec<Field>,
    pub author: Option<Author>,
    pub timestamp: Timestamp,
    pub footer: String,
}

/// How the owner of a tag is mentioned on its card.
pub open spec fn owner_mention(owner_id: u64) -> Seq<char> {
    "<@!"@ + decimal(owner_id as nat) + ">"@
}

/// The footer of a tag's card.
pub open spec fn footer_text(generic: bool) -> Seq<char> {
    if generic {
        "Generic"@
    } else {
        "Server-specific"@
    }
}

impl Tag {
    /// Makes a tag. The counter starts at `uses`, or at 0 where none is
    /// given; the tag is dated `created_at`, or now where none is given.
    pub fn new(
        name: String,
        content: String,
        owner_id: u64,
        uses: Option<u32>,
        location: Option<String>,
        created_at: Option<Timestamp>,
    ) -> (tag: Tag)
        ensures
            tag.name == name,
            tag.content == content,
            tag.owner_id == owner_id,
            tag.uses == (match uses {
                Some(n) => n,
                None => 0,
            }),
            tag.location == location,
            created_at matches Some(t) ==> tag.created_at == t,
    {
        Tag {
            name,
            content,
            owner_id,
            uses: match uses {
                Some(n) => n,
                None => 0,
            },
            location,
            created_at: match created_at {
                Some(t) => t,
                None => now(),
            },
        }
    }

    /// Whether the tag is visible everywhere, and not bound to one community.
    pub fn is_generic(&self) -> (generic: bool)
        ensures
            generic == (self@.location is None),
    {
        self.location.is_none()
    }

    /// Lays the tag out as a card: its name as the title, its owner and its
    /// counter as two fields, the moment it was made, and a footer that
    /// says whether it is generic. `author` is shown where one is given.
    pub fn as_embed(&self, author: Option<Author>) -> (card: TagEmbed)
        ensures
            card.title@ == self@.name,
            card.fields@.len() == 2,
            card.fields@[0].name@ == "Owner"@,
            card.fields@[0].value@ == owner_mention(self.owner_id),
            card.fields@[1].name@ == "Uses"@,
            card.fields@[1].value@ == decimal(self.uses as nat),
            card.author == author,
            card.timestamp == self.created_at,
            card.footer@ == footer_text(self@.location is None),
    {
        let mut mention = "<@!".to_owned();
        mention.append(to_decimal(self.owner_id).as_str());
        mention.append(">");
        let mut fields: Vec<Field> = Vec::new();
        fields.push(Field { name: "Owner".to_owned(), value: mention });
        fields.push(Field { name: "Uses".to_owned(), value: to_decimal(self.uses as u64) });
        let footer = if self.is_generic() {
            "Generic"
        } else {
            "Server-specific"
        };
        TagEmbed {
            title: self.name.clone(),
            fields,
            author,
            timestamp: self.created_at,
            footer: footer.to_owned(),
        }
    }
}

} // verus!
