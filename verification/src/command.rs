//! The `tag` command: its subcommands, what each takes from the words that
//! follow it, and what it answers.

use crate::model::{
    create_error, deleted, edit_error, edited, fresh_tag, listing, location_key, owner_error, used,
    visible, with_tag, Invalid, StoreView, TagError,
};
use crate::str_map::same_text;
use crate::tag::{Tag, TagView, Timestamp};
use crate::tags::Tags;
use crate::text::{join, joined, views};
use vstd::prelude::*;
use vstd::string::StringExecFns;

verus! {

/// What `str::trim` makes of a string.
pub uninterp spec fn trimmed(s: Seq<char>) -> Seq<char>;

/// What `str::to_lowercase` makes of a string.
pub uninterp spec fn lowercased(s: Seq<char>) -> Seq<char>;

/// `str::trim`: the string without the white space at its two ends. The
/// result is what `trimmed` names.
#[verifier::external_body]
fn trim(s: &str) -> (r: &str)
    ensures
        r@ == trimmed(s@),
{
    s.trim()
}

/// `str::to_lowercase`: the string with every character in lower case. The
/// result is what `lowercased` names.
#[verifier::external_body]
fn to_lowercase(s: &str) -> (r: String)
    ensures
        r@ == lowercased(s@),
{
    s.to_lowercase()
}

/// The name that a word of a command stands for.
pub open spec fn normalized(word: Seq<char>) -> Seq<char> {
    lowercased(trimmed(word))
}

/// The subcommands of the `tag` command that take a name.
#[derive(Clone, Copy, Debug, PartialEq, Eq, Structural)]
pub enum Subcommand {
    Create,
    Info,
    Edit,
    Delete,
}

/// What the first word of the `tag` command asks for.
#[derive(Debug, PartialEq, Eq)]
pub enum TagCommand {
    /// Make a tag.
    Create,
    /// Show a tag.
    Info,
    /// List the tags.
    List,
    /// Give a tag a new content.
    Edit,
    /// Delete a tag.
    Delete,
    /// Use the tag of this name.
    Invoke(String),
}

/// What a `TagCommand` stands for.
pub enum TagCommandView {
    Create,
    Info,
    List,
    Edit,
    Delete,
    Invoke(Seq<char>),
}

impl View for TagCommand {
    type V = TagCommandView;

    open spec fn view(&self) -> TagCommandView {
        match self {
            TagCommand::Create => TagCommandView::Create,
            TagCommand::Info => TagCommandView::Info,
            TagCommand::List => TagCommandView::List,
            TagCommand::Edit => TagCommandView::Edit,
            TagCommand::Delete => TagCommandView::Delete,
            TagCommand::Invoke(name) => TagCommandView::Invoke(name@),
        }
    }
}

/// What a first word asks for: one of the five subcommands where it is
/// their exact name, else the use of the tag that the word names in any
/// case of letters.
pub open spec fn command_of(word: Seq<char>) -> TagCommandView {
    if word == "create"@ {
        TagCommandView::Create
    } else if word == "info"@ {
        TagCommandView::Info
    } else if word == "list"@ {
        TagCommandView::List
    } else if word == "edit"@ {
        TagCommandView::Edit
    } else if word == "delete"@ {
        TagCommandView::Delete
    } else {
        TagCommandView::Invoke(lowercased(word))
    }
}

/// Reads what a first word asks for.
pub fn parse_command(word: &str) -> (command: TagCommand)
    ensures
        command@ == command_of(word@),
{
    if same_text(word, "create") {
        TagCommand::Create
    } else if same_text(word, "info") {
        TagCommand::Info
    } else if same_text(word, "list") {
        TagCommand::List
    } else if same_text(word, "edit") {
        TagCommand::Edit
    } else if same_text(word, "delete") {
        TagCommand::Delete
    } else {
        TagCommand::Invoke(to_lowercase(word))
    }
}

/// Why a command was not carried out.
#[derive(Clone, Copy, Debug, PartialEq, Eq, Structural)]
pub enum CommandError {
    /// Nothing followed the command.
    NoCommand,
    /// The subcommand was not told which tag it is about.
    MissingName(Subcommand),
    /// The counter of the tag cannot be raised any further.
    CounterFull,
    /// The store turned the operation down.
    Tag(TagError),
}

/// The answer to a command.
#[derive(Debug, PartialEq, Eq)]
pub enum Reply {
    /// A line of text.
    Say(String),
    /// The card of a tag.
    Card(Tag),
}

/// What an answer stands for.
pub enum ReplyView {
    Say(Seq<char>),
    Card(TagView),
}

impl View for Reply {
    type V = ReplyView;

    open spec fn view(&self) -> ReplyView {
        match self {
            Reply::Say(s) => ReplyView::Say(s@),
            Reply::Card(t) => ReplyView::Card(t@),
        }
    }
}

/// The message that tells a user of an error.
pub open spec fn message_text(e: CommandError) -> Seq<char> {
    match e {
        CommandError::NoCommand => "Either specify a tag name or use one of the available commands."@,
        CommandError::MissingName(Subcommand::Create) => "Please specify a name for the tag."@,
        CommandError::MissingName(Subcommand::Info) => "Please specify a name for the tag to get info on."@,
        CommandError::MissingName(Subcommand::Edit) => "Please specify a tag to edit."@,
        CommandError::MissingName(Subcommand::Delete) => "Please specify a tag to delete."@,
        CommandError::CounterFull => "Tag cannot be used any more."@,
        CommandError::Tag(TagError::Validation(Invalid::BlockedWords)) => "Tag contains blocked words"@,
        CommandError::Tag(TagError::Validation(Invalid::NameTooLong)) => "Tag name limit is 100 characters"@,
        CommandError::Tag(TagError::Validation(Invalid::EmptyContent)) => "Please specify some content for the tag."@,
        CommandError::Tag(TagError::Duplicate) => "Tag already exists."@,
        CommandError::Tag(TagError::NotFound) => "Tag not found"@,
        CommandError::Tag(TagError::Permission) => "You do not have permission to do that."@,
    }
}

/// Different errors have different messages.
pub proof fn law_messages_differ(a: CommandError, b: CommandError)
    requires
        a != b,
    ensures
        message_text(a) != message_text(b),
{
    reveal_strlit("Either specify a tag name or use one of the available commands.");
    reveal_strlit("Please specify a name for the tag.");
    reveal_strlit("Please specify a name for the tag to get info on.");
    reveal_strlit("Please specify a tag to edit.");
    reveal_strlit("Please specify a tag to delete.");
    reveal_strlit("Tag cannot be used any more.");
    reveal_strlit("Tag contains blocked words");
    reveal_strlit("Tag name limit is 100 characters");
    reveal_strlit("Please specify some content for the tag.");
    reveal_strlit("Tag already exists.");
    reveal_strlit("Tag not found");
    reveal_strlit("You do not have permission to do that.");
    // No two of the messages have the same length.
    assert(message_text(a).len() != message_text(b).len());
}

impl CommandError {
    /// The message that tells a user of the error.
    pub fn message(&self) -> (text: String)
        ensures
            text@ == message_text(*self),
    {
        let text = match self {
            CommandError::NoCommand => "Either specify a tag name or use one of the available commands.",
            CommandError::MissingName(Subcommand::Create) => "Please specify a name for the tag.",
            CommandError::MissingName(Subcommand::Info) => "Please specify a name for the tag to get info on.",
            CommandError::MissingName(Subcommand::Edit) => "Please specify a tag to edit.",
            CommandError::MissingName(Subcommand::Delete) => "Please specify a tag to delete.",
            CommandError::CounterFull => "Tag cannot be used any more.",
            CommandError::Tag(TagError::Validation(Invalid::BlockedWords)) => "Tag contains blocked words",
            CommandError::Tag(TagError::Validation(Invalid::NameTooLong)) => "Tag name limit is 100 characters",
            CommandError::Tag(TagError::Validation(Invalid::EmptyContent)) => "Please specify some content for the tag.",
            CommandError::Tag(TagError::Duplicate) => "Tag already exists.",
            CommandError::Tag(TagError::NotFound) => "Tag not found",
            CommandError::Tag(TagError::Permission) => "You do not have permission to do that.",
        };
        text.to_owned()
    }
}

/// The store did not change.
pub open spec fn untouched(before: Tags, after: Tags) -> bool {
    &&& after@ == before@
    &&& after.unsaved() == before.unsaved()
    &&& after.file_name() == before.file_name()
}

/// The store changed to `now` and is due to be written out.
pub open spec fn changed_to(before: Tags, after: Tags, now: StoreView) -> bool {
    &&& after@ == now
    &&& after.unsaved()
    &&& after.file_name() == before.file_name()
}

/// The answer to a tag that was made.
pub open spec fn created_reply(name: Seq<char>) -> Seq<char> {
    "Tag \""@ + name + "\" successfully created."@
}

/// The answer to a tag that got a new content.
pub open spec fn updated_reply(name: Seq<char>) -> Seq<char> {
    "Tag \""@ + name + "\" successfully updated."@
}

/// The answer to a tag that was deleted.
pub open spec fn deleted_reply(name: Seq<char>) -> Seq<char> {
    "Tag \""@ + name + "\" successfully deleted."@
}

/// The answer that lists `names`.
pub open spec fn list_reply(names: Seq<Seq<char>>) -> Seq<char> {
    if names.len() == 0 {
        "No tags available."@
    } else {
        "Available tags: "@ + joined(names, ", "@)
    }
}

/// The content that the words after a name stand for.
pub open spec fn content_of(args: Seq<String>) -> Seq<char> {
    joined(views(args.drop_first()), " "@)
}

/// What `create` does: the first word is the name, the words after it are
/// the content.
pub open spec fn create_post(
    before: Tags,
    after: Tags,
    guild: Option<u64>,
    author: u64,
    args: Seq<String>,
    r: Result<Reply, CommandError>,
) -> bool {
    if args.len() == 0 {
        r == Err::<Reply, CommandError>(CommandError::MissingName(Subcommand::Create)) && untouched(
            before,
            after,
        )
    } else {
        let name = normalized(args[0]@);
        let content = content_of(args);
        match create_error(before@, guild, name, content) {
            Some(e) => r == Err::<Reply, CommandError>(CommandError::Tag(e)) && untouched(
                before,
                after,
            ),
            None => {
                &&& r is Ok
                &&& r->Ok_0@ == ReplyView::Say(created_reply(name))
                &&& exists|at: Timestamp|
                    changed_to(
                        before,
                        after,
                        with_tag(
                            before@,
                            location_key(guild),
                            name,
                            #[trigger] fresh_tag(guild, name, content, author, at),
                        ),
                    )
            },
        }
    }
}

/// What `info` does: the first word is the name of the tag to show.
pub open spec fn info_post(
    tags: Tags,
    guild: Option<u64>,
    args: Seq<String>,
    r: Result<Reply, CommandError>,
) -> bool {
    if args.len() == 0 {
        r == Err::<Reply, CommandError>(CommandError::MissingName(Subcommand::Info))
    } else {
        let name = normalized(args[0]@);
        if visible(tags@, guild).contains_key(name) {
            r is Ok && r->Ok_0@ == ReplyView::Card(visible(tags@, guild)[name])
        } else {
            r == Err::<Reply, CommandError>(CommandError::Tag(TagError::NotFound))
        }
    }
}

/// What `list` does.
pub open spec fn list_post(tags: Tags, guild: Option<u64>, r: Result<Reply, CommandError>) -> bool {
    r is Ok && r->Ok_0@ == ReplyView::Say(list_reply(listing(visible(tags@, guild))))
}

/// What `edit` does: the first word is the name, the words after it are
/// the new content.
pub open spec fn edit_post(
    before: Tags,
    after: Tags,
    guild: Option<u64>,
    author: u64,
    args: Seq<String>,
    r: Result<Reply, CommandError>,
) -> bool {
    if args.len() == 0 {
        r == Err::<Reply, CommandError>(CommandError::MissingName(Subcommand::Edit)) && untouched(
            before,
            after,
        )
    } else {
        let name = normalized(args[0]@);
        let content = content_of(args);
        match edit_error(before@, guild, name, content, author) {
            Some(e) => r == Err::<Reply, CommandError>(CommandError::Tag(e)) && untouched(
                before,
                after,
            ),
            None => {
                &&& r is Ok
                &&& r->Ok_0@ == ReplyView::Say(updated_reply(name))
                &&& changed_to(before, after, edited(before@, guild, name, content))
            },
        }
    }
}

/// What `delete` does: the first word is the name of the tag to delete.
pub open spec fn delete_post(
    before: Tags,
    after: Tags,
    guild: Option<u64>,
    author: u64,
    args: Seq<String>,
    r: Result<Reply, CommandError>,
) -> bool {
    if args.len() == 0 {
        r == Err::<Reply, CommandError>(CommandError::MissingName(Subcommand::Delete))
            && untouched(before, after)
    } else {
        let name = normalized(args[0]@);
        match owner_error(before@, guild, name, author) {
            Some(e) => r == Err::<Reply, CommandError>(CommandError::Tag(e)) && untouched(
                before,
                after,
            ),
            None => {
                &&& r is Ok
                &&& r->Ok_0@ == ReplyView::Say(deleted_reply(name))
                &&& changed_to(before, after, deleted(before@, guild, name))
            },
        }
    }
}

/// What `invoke` does with the tag that is visible under `name`.
pub open spec fn invoke_post(
    before: Tags,
    after: Tags,
    guild: Option<u64>,
    name: Seq<char>,
    r: Result<Reply, CommandError>,
) -> bool {
    if !visible(before@, guild).contains_key(name) {
        r == Err::<Reply, CommandError>(CommandError::Tag(TagError::NotFound)) && untouched(
            before,
            after,
        )
    } else if visible(before@, guild)[name].uses == u32::MAX {
        r == Err::<Reply, CommandError>(CommandError::CounterFull) && untouched(before, after)
    } else {
        &&& r is Ok
        &&& r->Ok_0@ == ReplyView::Say(visible(before@, guild)[name].content)
        &&& changed_to(before, after, used(before@, guild, name))
    }
}

/// What the `tag` command does: its first word picks a subcommand, which
/// gets the words after it; any other first word is the name of a tag to
/// use, in any case of letters.
pub open spec fn tag_post(
    before: Tags,
    after: Tags,
    guild: Option<u64>,
    author: u64,
    args: Seq<String>,
    r: Result<Reply, CommandError>,
) -> bool {
    if args.len() == 0 {
        r == Err::<Reply, CommandError>(CommandError::NoCommand) && untouched(before, after)
    } else {
        let rest = args.drop_first();
        match command_of(args[0]@) {
            TagCommandView::Create => create_post(before, after, guild, author, rest, r),
            TagCommandView::Info => info_post(before, guild, rest, r) && untouched(before, after),
            TagCommandView::List => list_post(before, guild, r) && untouched(before, after),
            TagCommandView::Edit => edit_post(before, after, guild, author, rest, r),
            TagCommandView::Delete => delete_post(before, after, guild, author, rest, r),
            TagCommandView::Invoke(name) => invoke_post(before, after, guild, name, r),
        }
    }
}

/// The name that the first word of `args` stands for, if there is a word.
fn name_of(args: &Vec<String>) -> (name: Option<String>)
    ensures
        match name {
            Some(n) => args.len() > 0 && n@ == normalized(args@[0]@),
            None => args.len() == 0,
        },
{
    if args.len() == 0 {
        None
    } else {
        Some(to_lowercase(trim(args[0].as_str())))
    }
}

/// The words of `args` after the first.
fn rest_of(args: Vec<String>) -> (rest: Vec<String>)
    requires
        args.len() > 0,
    ensures
        rest@ == args@.drop_first(),
{
    let mut rest = args;
    let _ = rest.remove(0);
    assert(rest@ =~= args@.drop_first());
    rest
}

/// The text `head`, `name` and `tail` one after another.
fn around(head: &str, name: &str, tail: &str) -> (text: String)
    ensures
        text@ == head@ + name@ + tail@,
{
    let mut text = head.to_owned();
    text.append(name);
    text.append(tail);
    text
}

/// Makes a tag for `author`: the first word is its name, the words after it
/// are its content.
pub fn create(tags: &mut Tags, guild: Option<u64>, author: u64, args: Vec<String>) -> (r: Result<
    Reply,
    CommandError,
>)
    ensures
        create_post(*old(tags), *final(tags), guild, author, args@, r),
{
    let name = match name_of(&args) {
        Some(name) => name,
        None => {
            return Err(CommandError::MissingName(Subcommand::Create));
        },
    };
    let rest = rest_of(args);
    let content = join(&rest, " ");
    match tags.create_tag(guild, name.clone(), content, author) {
        Ok(tag) => {
            assert(fresh_tag(guild, name@, content@, author, tag.created_at) == tag@);
            Ok(Reply::Say(around("Tag \"", name.as_str(), "\" successfully created.")))
        },
        Err(e) => Err(CommandError::Tag(e)),
    }
}

/// Shows the tag whose name is the first word.
pub fn info(tags: &Tags, guild: Option<u64>, args: Vec<String>) -> (r: Result<Reply, CommandError>)
    ensures
        info_post(*tags, guild, args@, r),
{
    let name = match name_of(&args) {
        Some(name) => name,
        None => {
            return Err(CommandError::MissingName(Subcommand::Info));
        },
    };
    match tags.get_tag(guild, name.as_str()) {
        Ok(tag) => Ok(Reply::Card(tag)),
        Err(e) => Err(CommandError::Tag(e)),
    }
}

/// Lists the names of the tags that are visible from a place.
pub fn list(tags: &Tags, guild: Option<u64>, _args: Vec<String>) -> (r: Result<Reply, CommandError>)
    ensures
        list_post(*tags, guild, r),
{
    let names = tags.list_tags(guild);
    let text = if names.len() == 0 {
        "No tags available.".to_owned()
    } else {
        let mut text = "Available tags: ".to_owned();
        text.append(join(&names, ", ").as_str());
        text
    };
    Ok(Reply::Say(text))
}

/// Gives a tag a new content on behalf of `author`: the first word is the
/// tag's name, the words after it are the content.
pub fn edit(tags: &mut Tags, guild: Option<u64>, author: u64, args: Vec<String>) -> (r: Result<
    Reply,
    CommandError,
>)
    ensures
        edit_post(*old(tags), *final(tags), guild, author, args@, r),
{
    let name = match name_of(&args) {
        Some(name) => name,
        None => {
            return Err(CommandError::MissingName(Subcommand::Edit));
        },
    };
    let rest = rest_of(args);
    let content = join(&rest, " ");
    match tags.edit_tag(guild, name.as_str(), content, author) {
        Ok(_) => Ok(Reply::Say(around("Tag \"", name.as_str(), "\" successfully updated."))),
        Err(e) => Err(CommandError::Tag(e)),
    }
}

/// Deletes a tag on behalf of `author`: the first word is the tag's name.
pub fn delete(tags: &mut Tags, guild: Option<u64>, author: u64, args: Vec<String>) -> (r: Result<
    Reply,
    CommandError,
>)
    ensures
        delete_post(*old(tags), *final(tags), guild, author, args@, r),
{
    let name = match name_of(&args) {
        Some(name) => name,
        None => {
            return Err(CommandError::MissingName(Subcommand::Delete));
        },
    };
    match tags.delete_tag(guild, name.as_str(), author) {
        Ok(()) => Ok(Reply::Say(around("Tag \"", name.as_str(), "\" successfully deleted."))),
        Err(e) => Err(CommandError::Tag(e)),
    }
}

/// Uses the tag that is visible under `name`: counts the use and answers
/// with the tag's content.
pub fn invoke(tags: &mut Tags, guild: Option<u64>, name: &str) -> (r: Result<Reply, CommandError>)
    ensures
        invoke_post(*old(tags), *final(tags), guild, name@, r),
{
    match tags.get_tag(guild, name) {
        Ok(tag) => {
            if tag.uses == u32::MAX {
                return Err(CommandError::CounterFull);
            }
        },
        Err(e) => {
            return Err(CommandError::Tag(e));
        },
    }
    match tags.increment_use(guild, name) {
        Ok(tag) => Ok(Reply::Say(tag.content)),
        Err(e) => Err(CommandError::Tag(e)),
    }
}

/// The `tag` command: carries out the subcommand that the first word
/// names, or uses the tag of that name.
pub fn tag(tags: &mut Tags, guild: Option<u64>, author: u64, args: Vec<String>) -> (r: Result<
    Reply,
    CommandError,
>)
    ensures
        tag_post(*old(tags), *final(tags), guild, author, args@, r),
{
    if args.len() == 0 {
        return Err(CommandError::NoCommand);
    }
    let command = parse_command(args[0].as_str());
    let rest = rest_of(args);
    match command {
        TagCommand::Create => create(tags, guild, author, rest),
        TagCommand::Info => info(tags, guild, rest),
        TagCommand::List => list(tags, guild, rest),
        TagCommand::Edit => edit(tags, guild, author, rest),
        TagCommand::Delete => delete(tags, guild, author, rest),
        TagCommand::Invoke(name) => invoke(tags, guild, name.as_str()),
    }
}

} // verus!
