//! The store and its operations: what is visible from a place, and how
//! tags are made, changed, deleted, used and listed.

use crate::config::{get_database_location, Config, TagMap};
use crate::model::{
    bucket, create_error, deleted, edit_error, edited, fresh_tag, home, listing, location_key,
    name_check, owner_error, used, visible, with_tag, Invalid, StoreView, TagError,
    MAX_NAME_CHARS,
};
use crate::str_map::{Duplicate, StrMap};
use crate::tag::{now, Tag, Timestamp};
use crate::text::{ascending, contains, lemma_ascending_unique, sorted, views};
use vstd::prelude::*;
use vstd::string::StrSliceExecFns;

verus! {

/// Turns down the names that no tag can have: those that mention everyone,
/// and those that are too long.
pub fn verify_tag_name(name: &str) -> (r: Result<(), TagError>)
    ensures
        r == name_check(name@),
{
    if contains(name, "@everyone") || contains(name, "@here") {
        return Err(TagError::Validation(Invalid::BlockedWords));
    }
    if name.unicode_len() > MAX_NAME_CHARS {
        return Err(TagError::Validation(Invalid::NameTooLong));
    }
    Ok(())
}

/// The store of tags.
pub struct Tags {
    config: Config,
}

impl View for Tags {
    type V = StoreView;

    closed spec fn view(&self) -> StoreView {
        self.config@
    }
}

impl Tags {
    /// Whether the store was changed since it was last written out.
    pub closed spec fn unsaved(&self) -> bool {
        self.config.unsaved()
    }

    /// The name of the file that keeps the store.
    pub closed spec fn file_name(&self) -> Seq<char> {
        self.config.file_name()
    }

    /// A store over the namespaces of `config`.
    pub fn new(config: Config) -> (tags: Tags)
        ensures
            tags@ == config@,
            tags.unsaved() == config.unsaved(),
            tags.file_name() == config.file_name(),
    {
        Tags { config }
    }

    /// The namespaces of the store.
    pub fn config(&self) -> (config: &Config)
        ensures
            config@ == self@,
            config.unsaved() == self.unsaved(),
            config.file_name() == self.file_name(),
    {
        &self.config
    }

    /// Whether the store was changed since it was last written out.
    pub fn is_unsaved(&self) -> (unsaved: bool)
        ensures
            unsaved == self.unsaved(),
    {
        self.config.is_unsaved()
    }

    /// Records that the store as it stands was written out.
    pub fn mark_saved(&mut self)
        ensures
            final(self)@ == old(self)@,
            final(self).file_name() == old(self).file_name(),
            !final(self).unsaved(),
    {
        self.config.mark_saved();
    }

    /// A copy of the tags of the namespace `key`.
    fn copy_of(&self, key: &str) -> (tags: TagMap)
        ensures
            tags@ == bucket(self@, key@),
    {
        match self.config.get(key) {
            Some(tags) => tags.duplicate(),
            None => StrMap::new(),
        }
    }

    /// The tags that are visible from a place: the generic ones and, inside
    /// a community, its own, which hide generic tags of the same name.
    pub fn get_possible_tags(&self, guild: Option<u64>) -> (tags: TagMap)
        ensures
            tags@ == visible(self@, guild),
    {
        let mut tags = self.copy_of("generic");
        match guild {
            Some(_) => {
                let key = get_database_location(guild);
                tags.overlay(self.copy_of(key.as_str()));
            },
            None => {},
        }
        tags
    }

    /// The tag that is visible under `name` from a place, and the key of
    /// the namespace that holds it.
    fn find(&self, guild: Option<u64>, name: &str) -> (found: Option<(&Tag, String)>)
        ensures
            match found {
                Some((tag, key)) => {
                    &&& visible(self@, guild).contains_key(name@)
                    &&& tag@ == visible(self@, guild)[name@]
                    &&& key@ == home(self@, guild, name@)
                    &&& bucket(self@, key@).contains_key(name@)
                    &&& bucket(self@, key@)[name@] == tag@
                },
                None => !visible(self@, guild).contains_key(name@),
            },
    {
        let key = get_database_location(guild);
        if let Some(tags) = self.config.get(key.as_str()) {
            if let Some(tag) = tags.get(name) {
                return Some((tag, key));
            }
        }
        if let Some(tags) = self.config.get("generic") {
            if let Some(tag) = tags.get(name) {
                return Some((tag, "generic".to_owned()));
            }
        }
        None
    }

    /// The tag that is visible under `name` from a place.
    pub fn get_tag(&self, guild: Option<u64>, name: &str) -> (r: Result<Tag, TagError>)
        ensures
            match r {
                Ok(tag) => visible(self@, guild).contains_key(name@) && tag@ == visible(
                    self@,
                    guild,
                )[name@],
                Err(e) => e == TagError::NotFound && !visible(self@, guild).contains_key(name@),
            },
    {
        match self.find(guild, name) {
            Some((tag, _)) => Ok(tag.clone()),
            None => Err(TagError::NotFound),
        }
    }

    /// Makes a tag at a place, dated `created_at`. The content must not be
    /// empty, the name must be one that a tag can have, and the namespace
    /// that the place writes to must not have a tag of that name yet. On
    /// failure the store stays as it is.
    pub fn create_tag_at(
        &mut self,
        guild: Option<u64>,
        name: String,
        content: String,
        owner_id: u64,
        created_at: Timestamp,
    ) -> (r: Result<Tag, TagError>)
        ensures
            final(self).file_name() == old(self).file_name(),
            match r {
                Ok(tag) => {
                    &&& create_error(old(self)@, guild, name@, content@) is None
                    &&& tag@ == fresh_tag(guild, name@, content@, owner_id, created_at)
                    &&& final(self)@ == with_tag(old(self)@, location_key(guild), name@, tag@)
                    &&& final(self).unsaved()
                },
                Err(e) => {
                    &&& create_error(old(self)@, guild, name@, content@) == Some(e)
                    &&& final(self)@ == old(self)@
                    &&& final(self).unsaved() == old(self).unsaved()
                },
            },
    {
        if content.as_str().unicode_len() == 0 {
            return Err(TagError::Validation(Invalid::EmptyContent));
        }
        match verify_tag_name(name.as_str()) {
            Err(e) => {
                return Err(e);
            },
            Ok(()) => {},
        }
        let key = get_database_location(guild);
        let taken = match self.config.get(key.as_str()) {
            Some(tags) => tags.contains_key(name.as_str()),
            None => false,
        };
        if taken {
            return Err(TagError::Duplicate);
        }
        let location = match guild {
            Some(_) => Some(key.clone()),
            None => None,
        };
        let tag = Tag::new(name.clone(), content, owner_id, None, location, Some(created_at));
        self.config.put_tag(key.as_str(), name, tag.clone());
        Ok(tag)
    }

    /// Makes a tag at a place, dated now. See `create_tag_at`.
    pub fn create_tag(
        &mut self,
        guild: Option<u64>,
        name: String,
        content: String,
        owner_id: u64,
    ) -> (r: Result<Tag, TagError>)
        ensures
            final(self).file_name() == old(self).file_name(),
            match r {
                Ok(tag) => {
                    &&& create_error(old(self)@, guild, name@, content@) is None
                    &&& tag@ == fresh_tag(guild, name@, content@, owner_id, tag.created_at)
                    &&& final(self)@ == with_tag(old(self)@, location_key(guild), name@, tag@)
                    &&& final(self).unsaved()
                },
                Err(e) => {
                    &&& create_error(old(self)@, guild, name@, content@) == Some(e)
                    &&& final(self)@ == old(self)@
                    &&& final(self).unsaved() == old(self).unsaved()
                },
            },
    {
        let created_at = now();
        self.create_tag_at(guild, name, content, owner_id, created_at)
    }

    /// Gives the tag that is visible under `name` a new content, on behalf
    /// of `requester`, who must own it. On failure the store stays as it is.
    pub fn edit_tag(
        &mut self,
        guild: Option<u64>,
        name: &str,
        content: String,
        requester: u64,
    ) -> (r: Result<Tag, TagError>)
        ensures
            final(self).file_name() == old(self).file_name(),
            match r {
                Ok(tag) => {
                    &&& edit_error(old(self)@, guild, name@, content@, requester) is None
                    &&& final(self)@ == edited(old(self)@, guild, name@, content@)
                    &&& tag@ == visible(final(self)@, guild)[name@]
                    &&& final(self).unsaved()
                },
                Err(e) => {
                    &&& edit_error(old(self)@, guild, name@, content@, requester) == Some(e)
                    &&& final(self)@ == old(self)@
                    &&& final(self).unsaved() == old(self).unsaved()
                },
            },
    {
        let (mut tag, key) = match self.find(guild, name) {
            Some((tag, key)) => (tag.clone(), key),
            None => {
                return Err(TagError::NotFound);
            },
        };
        if tag.owner_id != requester {
            return Err(TagError::Permission);
        }
        if content.as_str().unicode_len() == 0 {
            return Err(TagError::Validation(Invalid::EmptyContent));
        }
        tag.content = content;
        self.config.put_tag(key.as_str(), name.to_owned(), tag.clone());
        Ok(tag)
    }

    /// Deletes the tag that is visible under `name`, on behalf of
    /// `requester`, who must own it. On failure the store stays as it is.
    pub fn delete_tag(&mut self, guild: Option<u64>, name: &str, requester: u64) -> (r: Result<
        (),
        TagError,
    >)
        ensures
            final(self).file_name() == old(self).file_name(),
            match r {
                Ok(()) => {
                    &&& owner_error(old(self)@, guild, name@, requester) is None
                    &&& final(self)@ == deleted(old(self)@, guild, name@)
                    &&& final(self).unsaved()
                },
                Err(e) => {
                    &&& owner_error(old(self)@, guild, name@, requester) == Some(e)
                    &&& final(self)@ == old(self)@
                    &&& final(self).unsaved() == old(self).unsaved()
                },
            },
    {
        let key = match self.find(guild, name) {
            Some((tag, key)) => {
                if tag.owner_id != requester {
                    return Err(TagError::Permission);
                }
                key
            },
            None => {
                return Err(TagError::NotFound);
            },
        };
        let _ = self.config.take_tag(key.as_str(), name);
        Ok(())
    }

    /// Whether the counter of the tag that is visible under `name` can
    /// still be raised; true where no such tag is visible.
    pub open spec fn can_count(&self, guild: Option<u64>, name: Seq<char>) -> bool {
        visible(self@, guild).contains_key(name) ==> visible(self@, guild)[name].uses < u32::MAX
    }

    /// Counts one more use of the tag that is visible under `name`, and
    /// returns the tag as it then stands. Where no such tag is visible the
    /// store stays as it is.
    pub fn increment_use(&mut self, guild: Option<u64>, name: &str) -> (r: Result<Tag, TagError>)
        requires
            old(self).can_count(guild, name@),
        ensures
            final(self).file_name() == old(self).file_name(),
            match r {
                Ok(tag) => {
                    &&& visible(old(self)@, guild).contains_key(name@)
                    &&& final(self)@ == used(old(self)@, guild, name@)
                    &&& tag@ == visible(final(self)@, guild)[name@]
                    &&& tag@.uses == visible(old(self)@, guild)[name@].uses + 1
                    &&& final(self).unsaved()
                },
                Err(e) => {
                    &&& e == TagError::NotFound
                    &&& !visible(old(self)@, guild).contains_key(name@)
                    &&& final(self)@ == old(self)@
                    &&& final(self).unsaved() == old(self).unsaved()
                },
            },
    {
        let (mut tag, key) = match self.find(guild, name) {
            Some((tag, key)) => (tag.clone(), key),
            None => {
                return Err(TagError::NotFound);
            },
        };
        tag.uses = tag.uses + 1;
        self.config.put_tag(key.as_str(), name.to_owned(), tag.clone());
        Ok(tag)
    }

    /// The names of the tags that are visible from a place, in ascending
    /// dictionary order.
    pub fn list_tags(&self, guild: Option<u64>) -> (names: Vec<String>)
        ensures
            ascending(views(names@)),
            views(names@).to_set() == visible(self@, guild).dom(),
            views(names@) == listing(visible(self@, guild)),
    {
        let tags = self.get_possible_tags(guild);
        let names = tags.keys();
        let names = sorted(&names);
        proof {
            lemma_ascending_unique(views(names@), listing(visible(self@, guild)));
        }
        names
    }

}

} // verus!
