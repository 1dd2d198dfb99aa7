//! The namespaces of the store under the name of the file that keeps them,
//! and whether they were changed since they were last written out.

use crate::model::{bucket, location_key, with_tag, without_tag, StoreView};
use crate::persist::{is_unique_suffix, plan, temp_name, LoadError, Loaded, SavePlan};
use crate::str_map::{reversed, same_entries, stored, law_same_entries_same_map, StrMap};
use crate::tag::Tag;
use crate::text::{to_decimal, views};
use vstd::prelude::*;

verus! {

/// The tags of one namespace, by name.
pub type TagMap = StrMap<Tag>;

/// The tags of one namespace as a plain list of names and tags.
pub type TagList = Vec<(String, Tag)>;

/// The whole store as plain lists: the key of each namespace with its
/// tags. This is what is written to the file and read from it.
pub type Snapshot = Vec<(String, TagList)>;

/// The store that a snapshot stands for: its namespaces stored one after
/// another, and the tags of each stored one after another, so that of two
/// with one key the later stays.
pub open spec fn restored(snapshot: Seq<(String, TagList)>) -> StoreView
    decreases snapshot.len(),
{
    if snapshot.len() == 0 {
        Map::empty()
    } else {
        restored(snapshot.drop_last()).insert(snapshot.last().0@, stored(snapshot.last().1@))
    }
}

/// Whether two snapshots agree namespace by namespace and tag by tag: in
/// the characters of the keys and the names, and in what the tags stand
/// for.
pub open spec fn same_snapshot(a: Seq<(String, TagList)>, b: Seq<(String, TagList)>) -> bool {
    &&& a.len() == b.len()
    &&& forall|i: int|
        0 <= i < a.len() ==> (#[trigger] a[i]).0@ == b[i].0@ && same_entries(a[i].1@, b[i].1@)
}

/// A snapshot that is copied faithfully stands for the same store: what
/// `snapshot` hands out can be written down and read again, and `load`
/// brings the store back.
pub proof fn law_faithful_copy_restores(a: Seq<(String, TagList)>, b: Seq<(String, TagList)>)
    requires
        same_snapshot(a, b),
    ensures
        restored(a) == restored(b),
    decreases a.len(),
{
    if a.len() > 0 {
        let n = a.len() - 1;
        assert(same_snapshot(a.drop_last(), b.drop_last())) by {
            assert forall|i: int| 0 <= i < n implies (#[trigger] a.drop_last()[i]).0@
                == b.drop_last()[i].0@ && same_entries(a.drop_last()[i].1@, b.drop_last()[i].1@) by {
                assert(a[i].0@ == b[i].0@ && same_entries(a[i].1@, b[i].1@));
            }
        }
        law_faithful_copy_restores(a.drop_last(), b.drop_last());
        assert(a[n].0@ == b[n].0@ && same_entries(a[n].1@, b[n].1@));
        law_same_entries_same_map(a[n].1@, b[n].1@);
    }
}

/// A copy of a list of tags.
fn copy_list(list: &Vec<(String, Tag)>) -> (copy: TagList)
    ensures
        copy@ == list@,
{
    let mut copy: TagList = Vec::new();
    let mut i: usize = 0;
    while i < list.len()
        invariant
            i <= list.len(),
            copy@ == list@.take(i as int),
        decreases list.len() - i,
    {
        let name = list[i].0.clone();
        let tag = list[i].1.clone();
        copy.push((name, tag));
        assert(copy@ =~= list@.take(i + 1));
        i += 1;
    }
    assert(list@.take(i as int) =~= list@);
    copy
}

/// The key of the namespace that a place writes to.
pub fn get_database_location(guild: Option<u64>) -> (key: String)
    ensures
        key@ == location_key(guild),
{
    match guild {
        Some(g) => to_decimal(g),
        None => "generic".to_owned(),
    }
}

/// The namespaces of the store, each with its tags.
pub struct Config {
    name: String,
    tags: StrMap<TagMap>,
    unsaved: bool,
}

impl View for Config {
    type V = StoreView;

    closed spec fn view(&self) -> StoreView {
        self.tags@
    }
}

impl Config {
    /// The name of the file that keeps the store.
    pub closed spec fn file_name(&self) -> Seq<char> {
        self.name@
    }

    /// Whether the store was changed since it was last written out.
    pub closed spec fn unsaved(&self) -> bool {
        self.unsaved
    }

    /// An empty store that is kept in the file `name`.
    pub fn new(name: &str) -> (config: Config)
        ensures
            config@ == StoreView::empty(),
            config.file_name() == name@,
            !config.unsaved(),
    {
        Config { name: name.to_owned(), tags: StrMap::new(), unsaved: false }
    }

    /// The name of the file that keeps the store.
    pub fn name(&self) -> (name: &str)
        ensures
            name@ == self.file_name(),
    {
        self.name.as_str()
    }

    /// Whether the store was changed since it was last written out.
    pub fn is_unsaved(&self) -> (unsaved: bool)
        ensures
            unsaved == self.unsaved(),
    {
        self.unsaved
    }

    /// Records that the store as it stands was written out.
    pub fn mark_saved(&mut self)
        ensures
            final(self)@ == old(self)@,
            final(self).file_name() == old(self).file_name(),
            !final(self).unsaved(),
    {
        self.unsaved = false;
    }

    /// Takes over what was found where the store is kept. A missing file
    /// leaves the store as it is; a snapshot that was read replaces the
    /// namespaces of the store; anything else is an error, and the store
    /// stays as it is.
    pub fn load(&mut self, found: Loaded) -> (r: Result<(), LoadError>)
        ensures
            final(self).file_name() == old(self).file_name(),
            final(self).unsaved() == old(self).unsaved(),
            match found {
                Loaded::Missing => r is Ok && final(self)@ == old(self)@,
                Loaded::Unopened => r == Err::<(), LoadError>(LoadError::Open) && final(self)@
                    == old(self)@,
                Loaded::Unread => r == Err::<(), LoadError>(LoadError::Read) && final(self)@
                    == old(self)@,
                Loaded::Malformed => r == Err::<(), LoadError>(LoadError::Parse) && final(self)@
                    == old(self)@,
                Loaded::Parsed(snapshot) => r is Ok && final(self)@ == restored(snapshot@),
            },
    {
        match found {
            Loaded::Missing => Ok(()),
            Loaded::Unopened => Err(LoadError::Open),
            Loaded::Unread => Err(LoadError::Read),
            Loaded::Malformed => Err(LoadError::Parse),
            Loaded::Parsed(snapshot) => {
                let ghost all = snapshot@;
                let mut tags: StrMap<TagMap> = StrMap::new();
                let mut rest = reversed(snapshot);
                while rest.len() > 0
                    invariant
                        rest.len() <= all.len(),
                        rest@ == all.reverse().take(rest.len() as int),
                        tags@ == restored(all.take(all.len() - rest.len())),
                    decreases rest.len(),
                {
                    let ghost n = all.len() - rest.len();
                    let ghost before = rest@;
                    let namespace = rest.pop().unwrap();
                    proof {
                        let next = all.take(n + 1);
                        assert(next.drop_last() =~= all.take(n));
                        assert(next.last() == all[n]);
                        assert(namespace == before[before.len() - 1]);
                        assert(rest@ =~= all.reverse().take(rest.len() as int));
                    }
                    tags.insert(namespace.0, StrMap::from_entries(namespace.1));
                }
                assert(all.take(all.len() as int) =~= all);
                self.tags = tags;
                Ok(())
            },
        }
    }

    /// The store as plain lists, as it is to be written out.
    pub fn snapshot(&self) -> (out: Snapshot)
        ensures
            restored(out@) == self@,
    {
        let namespaces = self.tags.entries();
        let mut out: Snapshot = Vec::new();
        let mut i: usize = 0;
        while i < namespaces.len()
            invariant
                i <= namespaces.len(),
                restored(out@) == stored(namespaces@.take(i as int)),
            decreases namespaces.len() - i,
        {
            let ghost before = out@;
            let key = namespaces[i].0.clone();
            let list = copy_list(namespaces[i].1.entries());
            out.push((key, list));
            proof {
                let next = namespaces@.take(i + 1);
                assert(next.drop_last() =~= namespaces@.take(i as int));
                assert(next.last() == namespaces@[i as int]);
                assert(out@.drop_last() =~= before);
                assert(out@.last().0@ == next.last().0@);
            }
            i += 1;
        }
        assert(namespaces@.take(i as int) =~= namespaces@);
        out
    }

    /// The two file names by which the store is written out: a temporary
    /// file with a unique name beside the file, and the file itself.
    pub fn save_plan(&self) -> (p: SavePlan)
        ensures
            p.target@ == self.file_name(),
            exists|unique: Seq<char>|
                is_unique_suffix(unique) && p.temp@ == #[trigger] temp_name(
                    self.file_name(),
                    unique,
                ),
    {
        plan(self.name.as_str())
    }

    /// The tags of the namespace `key`, if the store has that namespace.
    pub fn get(&self, key: &str) -> (tags: Option<&TagMap>)
        ensures
            match tags {
                Some(t) => self@.contains_key(key@) && t@ == self@[key@],
                None => !self@.contains_key(key@),
            },
    {
        self.tags.get(key)
    }

    /// Makes `value` the tags of the namespace `key`.
    pub fn insert(&mut self, key: String, value: TagMap)
        ensures
            final(self)@ == old(self)@.insert(key@, value@),
            final(self).file_name() == old(self).file_name(),
            final(self).unsaved(),
    {
        self.tags.insert(key, value);
        self.unsaved = true;
    }

    /// The keys of the namespaces, each once, in no particular order.
    pub fn keys(&self) -> (keys: Vec<String>)
        ensures
            views(keys@).no_duplicates(),
            views(keys@).to_set() == self@.dom(),
    {
        self.tags.keys()
    }

    /// Stores `tag` under `name` in the namespace `key`, which is made where
    /// the store does not have it yet.
    pub fn put_tag(&mut self, key: &str, name: String, tag: Tag)
        ensures
            final(self)@ == with_tag(old(self)@, key@, name@, tag@),
            final(self).file_name() == old(self).file_name(),
            final(self).unsaved(),
    {
        let ghost before = self@;
        let mut tags = match self.tags.remove(key) {
            Some(tags) => tags,
            None => StrMap::new(),
        };
        assert(tags@ == bucket(before, key@));
        tags.insert(name, tag);
        self.tags.insert(key.to_owned(), tags);
        self.unsaved = true;
        assert(self@ =~= with_tag(before, key@, name@, tag@));
    }

    /// Takes the tag `name` out of the namespace `key` and returns it, if
    /// the namespace has it.
    pub fn take_tag(&mut self, key: &str, name: &str) -> (tag: Option<Tag>)
        ensures
            match tag {
                Some(t) => {
                    &&& bucket(old(self)@, key@).contains_key(name@)
                    &&& t@ == bucket(old(self)@, key@)[name@]
                    &&& final(self)@ == without_tag(old(self)@, key@, name@)
                    &&& final(self).unsaved()
                },
                None => {
                    &&& !bucket(old(self)@, key@).contains_key(name@)
                    &&& final(self)@ == old(self)@
                    &&& final(self).unsaved() == old(self).unsaved()
                },
            },
            final(self).file_name() == old(self).file_name(),
    {
        let ghost before = self@;
        match self.tags.remove(key) {
            Some(mut tags) => {
                let tag = tags.remove(name);
                self.tags.insert(key.to_owned(), tags);
                match tag {
                    Some(t) => {
                        self.unsaved = true;
                        assert(self@ =~= without_tag(before, key@, name@));
                        Some(t)
                    },
                    None => {
                        assert(tags@ =~= before[key@]);
                        assert(self@ =~= before);
                        None
                    },
                }
            },
            None => {
                assert(self@ =~= before);
                None
            },
        }
    }
}

} // verus!
