//! What the store means: a map from namespace keys to maps from tag names
//! to tags, the tags that are visible from a place, and what each operation
//! does to the store. The laws at the end are proved of these definitions.

use crate::tag::{TagView, Timestamp};
use crate::text::{
    ascending, decimal, digit, is_digit, lemma_decimal_digits, lemma_decimal_injective, occurs_in,
};
use vstd::prelude::*;

verus! {

/// The tags of one namespace, by name.
pub type TagsView = Map<Seq<char>, TagView>;

/// The whole store: the tags of each namespace, by the namespace's key.
pub type StoreView = Map<Seq<char>, TagsView>;

/// The longest tag name that is accepted, in characters.
pub const MAX_NAME_CHARS: usize = 100;

/// Why a name or a content was turned down.
#[derive(Clone, Copy, Debug, PartialEq, Eq, Structural)]
pub enum Invalid {
    /// The name holds a mention of everyone.
    BlockedWords,
    /// The name has more than `MAX_NAME_CHARS` characters.
    NameTooLong,
    /// The content is empty.
    EmptyContent,
}

/// Why an operation on the store failed.
#[derive(Clone, Copy, Debug, PartialEq, Eq, Structural)]
pub enum TagError {
    /// A name or a content was turned down.
    Validation(Invalid),
    /// The namespace already has a tag of that name.
    Duplicate,
    /// No tag of that name is visible.
    NotFound,
    /// The tag belongs to someone else.
    Permission,
}

/// The key of the namespace whose tags are visible everywhere.
pub open spec fn generic_key() -> Seq<char> {
    "generic"@
}

/// The key of the namespace that a place writes to: the community's number
/// in decimal, or the generic namespace outside any community.
pub open spec fn location_key(guild: Option<u64>) -> Seq<char> {
    match guild {
        Some(g) => decimal(g as nat),
        None => generic_key(),
    }
}

/// The location that a tag made at a place records.
pub open spec fn location_of(guild: Option<u64>) -> Option<Seq<char>> {
    match guild {
        Some(g) => Some(decimal(g as nat)),
        None => None,
    }
}

/// The tags of the namespace `key`; none where the store has no such
/// namespace.
pub open spec fn bucket(m: StoreView, key: Seq<char>) -> TagsView {
    if m.contains_key(key) {
        m[key]
    } else {
        Map::empty()
    }
}

/// The tags that are visible from a place: the generic ones and, inside a
/// community, its own, which hide generic tags of the same name.
pub open spec fn visible(m: StoreView, guild: Option<u64>) -> TagsView {
    match guild {
        Some(_) => bucket(m, generic_key()).union_prefer_right(bucket(m, location_key(guild))),
        None => bucket(m, generic_key()),
    }
}

/// The key of the namespace that holds the tag which is visible under `name`
/// from a place.
pub open spec fn home(m: StoreView, guild: Option<u64>, name: Seq<char>) -> Seq<char> {
    if bucket(m, location_key(guild)).contains_key(name) {
        location_key(guild)
    } else {
        generic_key()
    }
}

/// The store with `tag` stored under `name` in the namespace `key`.
pub open spec fn with_tag(m: StoreView, key: Seq<char>, name: Seq<char>, tag: TagView) -> StoreView {
    m.insert(key, bucket(m, key).insert(name, tag))
}

/// The store without the tag `name` of the namespace `key`.
pub open spec fn without_tag(m: StoreView, key: Seq<char>, name: Seq<char>) -> StoreView {
    m.insert(key, bucket(m, key).remove(name))
}

/// Whether a name can be given to a tag.
pub open spec fn name_check(name: Seq<char>) -> Result<(), TagError> {
    if occurs_in(name, "@everyone"@) || occurs_in(name, "@here"@) {
        Err(TagError::Validation(Invalid::BlockedWords))
    } else if name.len() > MAX_NAME_CHARS {
        Err(TagError::Validation(Invalid::NameTooLong))
    } else {
        Ok(())
    }
}

/// Why a tag cannot be made at a place, if it cannot.
pub open spec fn create_error(
    m: StoreView,
    guild: Option<u64>,
    name: Seq<char>,
    content: Seq<char>,
) -> Option<TagError> {
    if content.len() == 0 {
        Some(TagError::Validation(Invalid::EmptyContent))
    } else if name_check(name) is Err {
        Some(name_check(name)->Err_0)
    } else if bucket(m, location_key(guild)).contains_key(name) {
        Some(TagError::Duplicate)
    } else {
        None
    }
}

/// The tag that is made at a place.
pub open spec fn fresh_tag(
    guild: Option<u64>,
    name: Seq<char>,
    content: Seq<char>,
    owner_id: u64,
    created_at: Timestamp,
) -> TagView {
    TagView { name, content, owner_id, uses: 0, location: location_of(guild), created_at }
}

/// Why the tag that is visible under `name` cannot be changed or deleted by
/// `requester`, if it cannot.
pub open spec fn owner_error(
    m: StoreView,
    guild: Option<u64>,
    name: Seq<char>,
    requester: u64,
) -> Option<TagError> {
    if !visible(m, guild).contains_key(name) {
        Some(TagError::NotFound)
    } else if visible(m, guild)[name].owner_id != requester {
        Some(TagError::Permission)
    } else {
        None
    }
}

/// Why the content of the tag that is visible under `name` cannot be
/// replaced by `content` on behalf of `requester`, if it cannot.
pub open spec fn edit_error(
    m: StoreView,
    guild: Option<u64>,
    name: Seq<char>,
    content: Seq<char>,
    requester: u64,
) -> Option<TagError> {
    if owner_error(m, guild, name, requester) is Some {
        owner_error(m, guild, name, requester)
    } else if content.len() == 0 {
        Some(TagError::Validation(Invalid::EmptyContent))
    } else {
        None
    }
}

/// The store after the tag that is visible under `name` got a new content.
pub open spec fn edited(
    m: StoreView,
    guild: Option<u64>,
    name: Seq<char>,
    content: Seq<char>,
) -> StoreView {
    with_tag(
        m,
        home(m, guild, name),
        name,
        TagView { content, ..visible(m, guild)[name] },
    )
}

/// The store after the tag that is visible under `name` was deleted.
pub open spec fn deleted(m: StoreView, guild: Option<u64>, name: Seq<char>) -> StoreView {
    without_tag(m, home(m, guild, name), name)
}

/// The store after the tag that is visible under `name` was used once more.
pub open spec fn used(m: StoreView, guild: Option<u64>, name: Seq<char>) -> StoreView {
    with_tag(
        m,
        home(m, guild, name),
        name,
        TagView { uses: (visible(m, guild)[name].uses + 1) as u32, ..visible(m, guild)[name] },
    )
}

/// The names of `tags` in ascending dictionary order.
pub open spec fn listing(tags: TagsView) -> Seq<Seq<char>> {
    choose|names: Seq<Seq<char>>| ascending(names) && names.to_set() == tags.dom()
}

/// The generic key is no decimal numeral.
pub proof fn lemma_generic_key_is_no_number(n: nat)
    ensures
        decimal(n) != generic_key(),
{
    reveal_strlit("generic");
    lemma_decimal_digits(n);
    assert(generic_key()[0] == 'g');
    assert(!is_digit('g')) by {
        assert forall|d: nat| d < 10 implies digit(d) != 'g' by {}
    }
    assert(is_digit(decimal(n)[0]));
}

/// Different places write to different namespaces.
pub proof fn lemma_location_key_injective(a: Option<u64>, b: Option<u64>)
    requires
        location_key(a) == location_key(b),
    ensures
        a == b,
{
    match (a, b) {
        (Some(x), Some(y)) => {
            lemma_decimal_injective(x as nat, y as nat);
        },
        (Some(x), None) => {
            lemma_generic_key_is_no_number(x as nat);
        },
        (None, Some(y)) => {
            lemma_generic_key_is_no_number(y as nat);
        },
        (None, None) => {},
    }
}

/// A tag that was made at a place is visible from that place afterwards,
/// with the name, the content and the owner it was made with, and with no
/// uses counted.
pub proof fn law_created_tag_is_visible(
    m: StoreView,
    guild: Option<u64>,
    name: Seq<char>,
    content: Seq<char>,
    owner_id: u64,
    created_at: Timestamp,
)
    requires
        create_error(m, guild, name, content) is None,
    ensures
        ({
            let tag = fresh_tag(guild, name, content, owner_id, created_at);
            let after = with_tag(m, location_key(guild), name, tag);
            &&& visible(after, guild).contains_key(name)
            &&& visible(after, guild)[name] == tag
            &&& tag.name == name
            &&& tag.content == content
            &&& tag.owner_id == owner_id
            &&& tag.uses == 0
        }),
{
}

/// Making a tag under a name that the namespace already has fails as a
/// duplicate, whenever the name and the content are acceptable in
/// themselves.
pub proof fn law_duplicate_is_refused(
    m: StoreView,
    guild: Option<u64>,
    name: Seq<char>,
    content: Seq<char>,
)
    requires
        bucket(m, location_key(guild)).contains_key(name),
        content.len() > 0,
        name_check(name) is Ok,
    ensures
        create_error(m, guild, name, content) == Some(TagError::Duplicate),
{
}

/// Who does not own a visible tag can neither change nor delete it.
pub proof fn law_stranger_is_refused(
    m: StoreView,
    guild: Option<u64>,
    name: Seq<char>,
    content: Seq<char>,
    requester: u64,
)
    requires
        visible(m, guild).contains_key(name),
        visible(m, guild)[name].owner_id != requester,
    ensures
        owner_error(m, guild, name, requester) == Some(TagError::Permission),
        edit_error(m, guild, name, content, requester) == Some(TagError::Permission),
{
}

/// Inside a community, its own tag hides a generic tag of the same name.
pub proof fn law_guild_tag_wins(m: StoreView, guild: u64, name: Seq<char>)
    requires
        bucket(m, location_key(Some(guild))).contains_key(name),
    ensures
        visible(m, Some(guild)).contains_key(name),
        visible(m, Some(guild))[name] == bucket(m, location_key(Some(guild)))[name],
{
}

/// Outside a community, and inside one that has no tag of the name, the
/// generic tag is the visible one.
pub proof fn law_generic_tag_shows_through(m: StoreView, guild: Option<u64>, name: Seq<char>)
    requires
        bucket(m, generic_key()).contains_key(name),
        guild is Some ==> !bucket(m, location_key(guild)).contains_key(name),
    ensures
        visible(m, guild).contains_key(name),
        visible(m, guild)[name] == bucket(m, generic_key())[name],
{
}

/// What is visible from a place depends on the generic namespace and on
/// the place's own namespace, and on no other.
pub proof fn law_other_namespaces_do_not_show(
    m: StoreView,
    guild: Option<u64>,
    key: Seq<char>,
    tags: TagsView,
)
    requires
        key != generic_key(),
        key != location_key(guild),
    ensures
        visible(m.insert(key, tags), guild) == visible(m, guild),
{
}

/// What stays of a tag for as long as it exists: its name, its owner, its
/// location and its date.
pub open spec fn same_identity(a: TagView, b: TagView) -> bool {
    &&& a.name == b.name
    &&& a.owner_id == b.owner_id
    &&& a.location == b.location
    &&& a.created_at == b.created_at
}

/// The store `after` continues the store `before`: every tag that both
/// have in one namespace under one name is the same tag, and its counter
/// has not gone down.
pub open spec fn continues(before: StoreView, after: StoreView) -> bool {
    forall|key: Seq<char>, name: Seq<char>|
        bucket(before, key).contains_key(name) && #[trigger] bucket(after, key).contains_key(name)
            ==> same_identity(bucket(before, key)[name], bucket(after, key)[name]) && bucket(
            before,
            key,
        )[name].uses <= bucket(after, key)[name].uses
}

/// A tag that is made leaves every other tag as it was.
pub proof fn law_create_continues(m: StoreView, guild: Option<u64>, name: Seq<char>, tag: TagView)
    requires
        !bucket(m, location_key(guild)).contains_key(name),
    ensures
        continues(m, with_tag(m, location_key(guild), name, tag)),
        forall|key: Seq<char>, other: Seq<char>|
            bucket(m, key).contains_key(other) ==> #[trigger] bucket(
                with_tag(m, location_key(guild), name, tag),
                key,
            ).contains_key(other) && bucket(with_tag(m, location_key(guild), name, tag), key)[other]
                == bucket(m, key)[other],
{
}

/// A new content leaves every tag the tag it was, in the namespace it was
/// in.
pub proof fn law_edit_continues(
    m: StoreView,
    guild: Option<u64>,
    name: Seq<char>,
    content: Seq<char>,
)
    requires
        visible(m, guild).contains_key(name),
    ensures
        continues(m, edited(m, guild, name, content)),
        forall|key: Seq<char>| #[trigger]
            bucket(edited(m, guild, name, content), key).dom() == bucket(m, key).dom(),
{
    let after = edited(m, guild, name, content);
    assert forall|key: Seq<char>| #[trigger] bucket(after, key).dom() == bucket(m, key).dom() by {
        assert(bucket(after, key).dom() =~= bucket(m, key).dom());
    }
}

/// A use leaves every tag the tag it was, in the namespace it was in, and
/// lowers no counter.
pub proof fn law_use_continues(m: StoreView, guild: Option<u64>, name: Seq<char>)
    requires
        visible(m, guild).contains_key(name),
        visible(m, guild)[name].uses < u32::MAX,
    ensures
        continues(m, used(m, guild, name)),
        forall|key: Seq<char>| #[trigger]
            bucket(used(m, guild, name), key).dom() == bucket(m, key).dom(),
{
    let after = used(m, guild, name);
    assert forall|key: Seq<char>| #[trigger] bucket(after, key).dom() == bucket(m, key).dom() by {
        assert(bucket(after, key).dom() =~= bucket(m, key).dom());
    }
}

/// A deletion leaves every other tag as it was.
pub proof fn law_delete_continues(m: StoreView, guild: Option<u64>, name: Seq<char>)
    requires
        visible(m, guild).contains_key(name),
    ensures
        continues(m, deleted(m, guild, name)),
        forall|key: Seq<char>, other: Seq<char>|
            bucket(m, key).contains_key(other) && !(key == home(m, guild, name) && other == name)
                ==> #[trigger] bucket(deleted(m, guild, name), key).contains_key(other) && bucket(
                deleted(m, guild, name),
                key,
            )[other] == bucket(m, key)[other],
{
}

/// One step of a history of the store, seen from one place and one tag
/// name: a use of the tag, or a change to the tags of some namespace.
pub enum Step {
    /// The tag is used once.
    Use,
    /// The namespace `key` gets the tags `tags`.
    Rewrite { key: Seq<char>, tags: TagsView },
}

/// Whether a step leaves alone the namespaces that a place sees.
pub open spec fn keeps_clear(step: Step, guild: Option<u64>) -> bool {
    match step {
        Step::Use => true,
        Step::Rewrite { key, tags } => key != generic_key() && key != location_key(guild),
    }
}

/// The store after the steps of `steps`, one after another.
pub open spec fn run(m: StoreView, guild: Option<u64>, name: Seq<char>, steps: Seq<Step>) -> StoreView
    decreases steps.len(),
{
    if steps.len() == 0 {
        m
    } else {
        let before = run(m, guild, name, steps.drop_last());
        match steps.last() {
            Step::Use => used(before, guild, name),
            Step::Rewrite { key, tags } => before.insert(key, tags),
        }
    }
}

/// How many of the steps are uses.
pub open spec fn uses_among(steps: Seq<Step>) -> nat
    decreases steps.len(),
{
    if steps.len() == 0 {
        0
    } else {
        uses_among(steps.drop_last()) + if steps.last() is Use {
            1nat
        } else {
            0nat
        }
    }
}

/// However uses of a visible tag are mixed with changes to namespaces that
/// the place does not see, the tag's counter rises by the number of uses,
/// and nothing else about the tag changes.
pub proof fn law_uses_add_up(m: StoreView, guild: Option<u64>, name: Seq<char>, steps: Seq<Step>)
    requires
        visible(m, guild).contains_key(name),
        forall|i: int| 0 <= i < steps.len() ==> keeps_clear(#[trigger] steps[i], guild),
        visible(m, guild)[name].uses + uses_among(steps) <= u32::MAX,
    ensures
        visible(run(m, guild, name, steps), guild).contains_key(name),
        visible(run(m, guild, name, steps), guild)[name] == (TagView {
            uses: (visible(m, guild)[name].uses + uses_among(steps)) as u32,
            ..visible(m, guild)[name]
        }),
        home(run(m, guild, name, steps), guild, name) == home(m, guild, name),
    decreases steps.len(),
{
    if steps.len() > 0 {
        let earlier = steps.drop_last();
        assert forall|i: int| 0 <= i < earlier.len() implies keeps_clear(
            #[trigger] earlier[i],
            guild,
        ) by {
            assert(earlier[i] == steps[i]);
        }
        law_uses_add_up(m, guild, name, earlier);
        let before = run(m, guild, name, earlier);
        match steps.last() {
            Step::Use => {},
            Step::Rewrite { key, tags } => {
                assert(keeps_clear(steps[steps.len() - 1], guild));
                law_other_namespaces_do_not_show(before, guild, key, tags);
            },
        }
    }
}

/// The only change that a use makes to what a place sees is the counter of
/// the tag that was used.
pub proof fn law_use_counts_once(m: StoreView, guild: Option<u64>, name: Seq<char>)
    requires
        visible(m, guild).contains_key(name),
        visible(m, guild)[name].uses < u32::MAX,
    ensures
        visible(used(m, guild, name), guild) == visible(m, guild).insert(
            name,
            TagView {
                uses: (visible(m, guild)[name].uses + 1) as u32,
                ..visible(m, guild)[name]
            },
        ),
{
    let after = used(m, guild, name);
    assert(visible(after, guild) =~= visible(m, guild).insert(
        name,
        TagView { uses: (visible(m, guild)[name].uses + 1) as u32, ..visible(m, guild)[name] },
    ));
}

/// A new content changes the content of the visible tag and nothing else:
/// its name, its owner, its counter, its location and its date stay.
pub proof fn law_edit_keeps_the_rest(
    m: StoreView,
    guild: Option<u64>,
    name: Seq<char>,
    content: Seq<char>,
)
    requires
        visible(m, guild).contains_key(name),
    ensures
        visible(edited(m, guild, name, content), guild) == visible(m, guild).insert(
            name,
            TagView { content, ..visible(m, guild)[name] },
        ),
        home(edited(m, guild, name, content), guild, name) == home(m, guild, name),
{
    let after = edited(m, guild, name, content);
    assert(visible(after, guild) =~= visible(m, guild).insert(
        name,
        TagView { content, ..visible(m, guild)[name] },
    ));
}

/// After a tag was deleted, its namespace has no tag of that name; the
/// other tags of the namespace, and all other namespaces, stay.
pub proof fn law_delete_removes_one(m: StoreView, guild: Option<u64>, name: Seq<char>)
    requires
        visible(m, guild).contains_key(name),
    ensures
        ({
            let key = home(m, guild, name);
            let after = deleted(m, guild, name);
            &&& !bucket(after, key).contains_key(name)
            &&& bucket(after, key) == bucket(m, key).remove(name)
            &&& forall|other: Seq<char>| other != key ==> bucket(after, other) == bucket(m, other)
        }),
{
}

} // verus!
