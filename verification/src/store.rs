//! The store: resources by key, with the bookkeeping that tells the caller
//! when the store is to be written out.

use crate::error::{DatabaseError, ErrorView};
use crate::json::{json_read, member_views, object_text, read_json, render_object, Json, JsonView};
use crate::resource::{
    decode_resource, decoded_resource, encode_resource, encoded_resource, list_view, Payload,
    Resource, ResourceView,
};
use vstd::prelude::*;
use vstd::string::*;

verus! {

/// The file that a store is kept in when no other path is given.
pub const DB_FILE: &'static str = "db.json";

/// The path of a store that lives in memory only and is never written out.
pub const IN_MEMORY: &'static str = "";

/// Whether some entry of `entries` has the key `key`.
pub open spec fn has_key<V>(entries: Seq<(Seq<char>, ResourceView<V>)>, key: Seq<char>) -> bool {
    exists|i: int| 0 <= i < entries.len() && (#[trigger] entries[i]).0 == key
}

/// The place of an entry with the key `key`.
pub open spec fn place_of<V>(entries: Seq<(Seq<char>, ResourceView<V>)>, key: Seq<char>) -> int {
    choose|i: int| 0 <= i < entries.len() && (#[trigger] entries[i]).0 == key
}

/// No key occurs twice.
pub open spec fn distinct_keys<V>(entries: Seq<(Seq<char>, ResourceView<V>)>) -> bool {
    forall|i: int, j: int|
        0 <= i < entries.len() && 0 <= j < entries.len() && i != j ==> (#[trigger] entries[i]).0
            != (#[trigger] entries[j]).0
}

/// The mapping that a list of entries stands for.
pub open spec fn as_map<V>(entries: Seq<(Seq<char>, ResourceView<V>)>) -> Map<
    Seq<char>,
    ResourceView<V>,
> {
    Map::new(
        |key: Seq<char>| has_key(entries, key),
        |key: Seq<char>| entries[place_of(entries, key)].1,
    )
}

/// The entries after `key` was set to `resource`: in place where the key was
/// there, at the end where it was not.
pub open spec fn put<V>(
    entries: Seq<(Seq<char>, ResourceView<V>)>,
    key: Seq<char>,
    resource: ResourceView<V>,
) -> Seq<(Seq<char>, ResourceView<V>)> {
    if has_key(entries, key) {
        entries.update(place_of(entries, key), (key, resource))
    } else {
        entries.push((key, resource))
    }
}

/// The entries without the one for `key`.
pub open spec fn without<V>(entries: Seq<(Seq<char>, ResourceView<V>)>, key: Seq<char>) -> Seq<
    (Seq<char>, ResourceView<V>),
> {
    if has_key(entries, key) {
        entries.remove(place_of(entries, key))
    } else {
        entries
    }
}

/// Where keys are distinct, an entry's place is the place of its key.
pub proof fn lemma_place<V>(entries: Seq<(Seq<char>, ResourceView<V>)>, i: int)
    requires
        distinct_keys(entries),
        0 <= i < entries.len(),
    ensures
        has_key(entries, entries[i].0),
        place_of(entries, entries[i].0) == i,
        as_map(entries).contains_key(entries[i].0),
        as_map(entries)[entries[i].0] == entries[i].1,
{
}

/// Setting a key keeps keys distinct and inserts into the mapping.
pub proof fn lemma_put<V>(
    entries: Seq<(Seq<char>, ResourceView<V>)>,
    key: Seq<char>,
    resource: ResourceView<V>,
)
    requires
        distinct_keys(entries),
    ensures
        distinct_keys(put(entries, key, resource)),
        as_map(put(entries, key, resource)) == as_map(entries).insert(key, resource),
{
    let after = put(entries, key, resource);
    if has_key(entries, key) {
        let at = place_of(entries, key);
        assert forall|k: Seq<char>| has_key(after, k) == (k == key || has_key(entries, k)) by {
            if has_key(after, k) {
                let i = place_of(after, k);
                assert(entries[i].0 == after[i].0);
            }
            if has_key(entries, k) {
                let i = place_of(entries, k);
                assert(after[i].0 == k);
            }
            if k == key {
                assert(after[at].0 == k);
            }
        }
        assert forall|k: Seq<char>| has_key(after, k) implies as_map(after)[k] == as_map(
            entries,
        ).insert(key, resource)[k] by {
            let i = place_of(after, k);
            assert(entries[i].0 == k);
            lemma_place(entries, i);
        }
    } else {
        assert forall|k: Seq<char>| has_key(after, k) == (k == key || has_key(entries, k)) by {
            if has_key(after, k) {
                let i = place_of(after, k);
                if i < entries.len() {
                    assert(entries[i].0 == k);
                }
            }
            if has_key(entries, k) {
                let i = place_of(entries, k);
                assert(after[i].0 == k);
            }
            if k == key {
                assert(after[entries.len() as int].0 == k);
            }
        }
        assert forall|k: Seq<char>| has_key(after, k) implies as_map(after)[k] == as_map(
            entries,
        ).insert(key, resource)[k] by {
            let i = place_of(after, k);
            if i < entries.len() {
                assert(entries[i].0 == k);
                lemma_place(entries, i);
            }
        }
    }
    assert(as_map(after) =~= as_map(entries).insert(key, resource));
}

/// Dropping a key keeps keys distinct and removes from the mapping.
pub proof fn lemma_without<V>(entries: Seq<(Seq<char>, ResourceView<V>)>, key: Seq<char>)
    requires
        distinct_keys(entries),
    ensures
        distinct_keys(without(entries, key)),
        as_map(without(entries, key)) == as_map(entries).remove(key),
{
    let after = without(entries, key);
    if has_key(entries, key) {
        let at = place_of(entries, key);
        assert forall|i: int| 0 <= i < after.len() implies #[trigger] after[i] == entries[if i
            < at {
            i
        } else {
            i + 1
        }] by {}
        assert forall|k: Seq<char>| has_key(after, k) == (k != key && has_key(entries, k)) by {
            if has_key(after, k) {
                let i = place_of(after, k);
                let j = if i < at { i } else { i + 1 };
                assert(entries[j].0 == k);
            }
            if k != key && has_key(entries, k) {
                let j = place_of(entries, k);
                let i = if j < at { j } else { j - 1 };
                assert(after[i].0 == k);
            }
        }
        assert(distinct_keys(after)) by {
            assert forall|i: int, j: int|
                0 <= i < after.len() && 0 <= j < after.len() && i != j implies (
            #[trigger] after[i]).0 != (#[trigger] after[j]).0 by {
                let i2 = if i < at { i } else { i + 1 };
                let j2 = if j < at { j } else { j + 1 };
                assert(after[i] == entries[i2]);
                assert(after[j] == entries[j2]);
            }
        }
        assert forall|k: Seq<char>| has_key(after, k) implies as_map(after)[k] == as_map(
            entries,
        ).remove(key)[k] by {
            let i = place_of(after, k);
            let j = if i < at { i } else { i + 1 };
            assert(entries[j].0 == k);
            lemma_place(entries, j);
        }
        assert(as_map(after) =~= as_map(entries).remove(key));
    } else {
        assert(as_map(after) =~= as_map(entries).remove(key));
    }
}

/// What is stored under `key`, if anything is.
pub open spec fn found<V>(store: Map<Seq<char>, ResourceView<V>>, key: Seq<char>) -> Option<
    ResourceView<V>,
> {
    if store.contains_key(key) {
        Some(store[key])
    } else {
        None
    }
}

/// What appending `items` to the list under `key` gives: the longer list, or
/// the reason why there is none.
pub open spec fn append_outcome<V>(
    store: Map<Seq<char>, ResourceView<V>>,
    key: Seq<char>,
    items: Seq<V>,
) -> Result<ResourceView<V>, ErrorView> {
    match found(store, key) {
        None => Err(ErrorView::KeyNotFound(key)),
        Some(ResourceView::Single(_)) => Err(ErrorView::InvalidResourceType(key)),
        Some(ResourceView::List(stored)) => Ok(ResourceView::List(stored + items)),
    }
}

/// What removing `item` from the list under `key` gives: the list without
/// any element equal to `item`, or the reason why there is none.
pub open spec fn remove_outcome<V>(
    store: Map<Seq<char>, ResourceView<V>>,
    key: Seq<char>,
    item: V,
) -> Result<ResourceView<V>, ErrorView> {
    match found(store, key) {
        None => Err(ErrorView::KeyNotFound(key)),
        Some(ResourceView::Single(_)) => Err(ErrorView::InvalidResourceType(key)),
        Some(ResourceView::List(stored)) => Ok(
            ResourceView::List(stored.filter(|v: V| v != item)),
        ),
    }
}

/// The entries after each pair of `pairs` was set in turn.
pub open spec fn put_all<V>(
    entries: Seq<(Seq<char>, ResourceView<V>)>,
    pairs: Seq<(Seq<char>, ResourceView<V>)>,
) -> Seq<(Seq<char>, ResourceView<V>)>
    decreases pairs.len(),
{
    if pairs.len() == 0 {
        entries
    } else {
        put(put_all(entries, pairs.drop_last()), pairs.last().0, pairs.last().1)
    }
}

/// Each entry's key with the JSON text of its resource: all or none.
pub open spec fn entry_texts<T: Payload>(entries: Seq<(Seq<char>, ResourceView<T::V>)>) -> Option<
    Seq<(Seq<char>, Seq<char>)>,
> {
    if forall|i: int|
        0 <= i < entries.len() ==> encoded_resource::<T>((#[trigger] entries[i]).1) is Some {
        Some(
            entries.map_values(
                |e: (Seq<char>, ResourceView<T::V>)| (e.0, encoded_resource::<T>(e.1).unwrap()),
            ),
        )
    } else {
        None
    }
}

/// The snapshot of a store: one JSON object that holds, under each key, the
/// tagged JSON text of its resource, in the order of the entries.
pub open spec fn snapshot_text<T: Payload>(
    entries: Seq<(Seq<char>, ResourceView<T::V>)>,
) -> Option<Seq<char>> {
    match entry_texts::<T>(entries) {
        Some(members) => object_text(members),
        None => None,
    }
}

/// Each member's key with the resource that its text stands for: all or none.
pub open spec fn member_resources<T: Payload>(members: Seq<(Seq<char>, Seq<char>)>) -> Option<
    Seq<(Seq<char>, ResourceView<T::V>)>,
> {
    if forall|i: int|
        0 <= i < members.len() ==> decoded_resource::<T>((#[trigger] members[i]).1) is Some {
        Some(
            members.map_values(
                |m: (Seq<char>, Seq<char>)| (m.0, decoded_resource::<T>(m.1).unwrap()),
            ),
        )
    } else {
        None
    }
}

/// The entries that a snapshot holds. A text that is no JSON object, or in
/// which some member is no resource, holds none.
pub open spec fn snapshot_entries<T: Payload>(content: Seq<char>) -> Seq<
    (Seq<char>, ResourceView<T::V>),
> {
    match json_read(content) {
        Some(JsonView::Object(members)) => match member_resources::<T>(members) {
            Some(pairs) => put_all(Seq::empty(), pairs),
            None => Seq::empty(),
        },
        _ => Seq::empty(),
    }
}

/// The detail of the error that `snapshot` gives.
pub open spec fn snapshot_failure() -> Seq<char> {
    "a stored value has no JSON text"@
}

/// The views of a list of stored entries.
pub open spec fn entry_views<T: View>(entries: Seq<(String, Resource<T>)>) -> Seq<
    (Seq<char>, ResourceView<T::V>),
> {
    entries.map_values(|e: (String, Resource<T>)| (e.0@, e.1@))
}

/// A store of resources by key. It stands for a mapping from keys to
/// resources; the entries are kept in the order in which their keys first
/// came, and no key is kept twice.
pub struct Database<T: Payload> {
    entries: Vec<(String, Resource<T>)>,
    file_path: String,
    unsaved: bool,
}

impl<T: Payload> View for Database<T> {
    type V = Map<Seq<char>, ResourceView<T::V>>;

    open spec fn view(&self) -> Map<Seq<char>, ResourceView<T::V>> {
        as_map(self.entries())
    }
}

/// The items of `items` that differ from `item`, in their order.
pub fn without_item<T: Payload>(items: Vec<T>, item: &T) -> (r: Vec<T>)
    ensures
        list_view(r@) == list_view(items@).filter(|v: T::V| v != item@),
{
    let ghost all = list_view(items@);
    let ghost differs = |v: T::V| v != item@;
    let mut kept: Vec<T> = Vec::new();
    assert(all.take(0).filter(differs) =~= Seq::<T::V>::empty()) by {
        reveal(Seq::filter);
    }
    assert(list_view(kept@) =~= Seq::<T::V>::empty());
    for x in it: items
        invariant
            all == list_view(it.seq()),
            differs == |v: T::V| v != item@,
            list_view(kept@) == all.take(it.index() as int).filter(differs),
    {
        proof {
            let i = it.index() as int;
            assert(all.take(i + 1).drop_last() =~= all.take(i));
            assert(all.take(i + 1).last() == x@);
            reveal(Seq::filter);
        }
        let ghost before = list_view(kept@);
        if !x.same(item) {
            kept.push(x);
            assert(list_view(kept@) =~= before.push(x@));
        }
    }
    assert(all.take(all.len() as int) =~= all);
    kept
}

fn is_list<T: Payload>(resource: &Resource<T>) -> (r: bool)
    ensures
        r == (resource@ is List),
{
    match resource {
        Resource::List(_) => true,
        Resource::Single(_) => false,
    }
}

impl<T: Payload> Database<T> {
    /// No key is kept twice. Every store that this module hands out is
    /// well formed, and every operation keeps it so.
    pub closed spec fn wf(&self) -> bool {
        distinct_keys(entry_views(self.entries@))
    }

    /// The entries, in the order in which their keys first came.
    pub closed spec fn entries(&self) -> Seq<(Seq<char>, ResourceView<T::V>)> {
        entry_views(self.entries@)
    }

    /// The path of the file that the store is kept in; empty for a store
    /// that lives in memory only.
    pub closed spec fn path(&self) -> Seq<char> {
        self.file_path@
    }

    /// Whether the store is kept in a file and changed since it was last
    /// written out.
    pub closed spec fn owes_save(&self) -> bool {
        self.unsaved
    }

    /// Whether the store is kept in a file at all.
    pub open spec fn persistent(&self) -> bool {
        self.path().len() > 0
    }

    /// An empty store for the file at `file_path`, or at `DB_FILE` where no
    /// path is given. The path `IN_MEMORY` makes a store that is never
    /// written out.
    pub fn new(file_path: Option<&str>) -> (r: Self)
        ensures
            r.wf(),
            r@ == Map::<Seq<char>, ResourceView<T::V>>::empty(),
            r.entries() == Seq::<(Seq<char>, ResourceView<T::V>)>::empty(),
            r.path() == match file_path {
                Some(path) => path@,
                None => DB_FILE@,
            },
            !r.owes_save(),
    {
        let path = match file_path {
            Some(path) => String::from_str(path),
            None => String::from_str(DB_FILE),
        };
        let r = Database { entries: Vec::new(), file_path: path, unsaved: false };
        assert(r@ =~= Map::<Seq<char>, ResourceView<T::V>>::empty());
        assert(r.entries() =~= Seq::<(Seq<char>, ResourceView<T::V>)>::empty());
        r
    }

    fn find(&self, key: &str) -> (r: Option<usize>)
        requires
            self.wf(),
        ensures
            match r {
                Some(i) => i < self.entries().len() && self.entries()[i as int].0 == key@
                    && has_key(self.entries(), key@) && place_of(self.entries(), key@) == i,
                None => !has_key(self.entries(), key@),
            },
    {
        let mut i: usize = 0;
        while i < self.entries.len()
            invariant
                self.wf(),
                i <= self.entries.len(),
                forall|j: int| 0 <= j < i ==> (#[trigger] self.entries()[j]).0 != key@,
            decreases self.entries.len() - i,
        {
            if self.entries[i].0.as_str().eq(key) {
                proof {
                    lemma_place(self.entries(), i as int);
                }
                return Some(i);
            }
            i += 1;
        }
        None
    }

    fn upsert(&mut self, key: String, resource: Resource<T>)
        requires
            old(self).wf(),
        ensures
            final(self).wf(),
            final(self)@ == old(self)@.insert(key@, resource@),
            final(self).entries() == put(old(self).entries(), key@, resource@),
            final(self).path() == old(self).path(),
            final(self).owes_save() == old(self).persistent(),
    {
        proof {
            lemma_put(self.entries(), key@, resource@);
        }
        let ghost before = self.entries();
        let ghost key_view = key@;
        let ghost resource_view = resource@;
        match self.find(key.as_str()) {
            Some(i) => {
                self.entries[i] = (key, resource);
                assert(self.entries() =~= before.update(i as int, (key_view, resource_view)));
            },
            None => {
                self.entries.push((key, resource));
                assert(self.entries() =~= before.push((key_view, resource_view)));
            },
        }
        self.unsaved = !self.file_path.as_str().is_empty();
    }

    /// Stores `resource` under `key`, in place of what was there.
    pub fn create(&mut self, key: String, resource: Resource<T>)
        requires
            old(self).wf(),
        ensures
            final(self).wf(),
            final(self)@ == old(self)@.insert(key@, resource@),
            final(self).entries() == put(old(self).entries(), key@, resource@),
            final(self).path() == old(self).path(),
            final(self).owes_save() == old(self).persistent(),
    {
        self.upsert(key, resource)
    }

    /// A copy of what is stored under `key`.
    pub fn read(&self, key: &str) -> (r: Option<Resource<T>>)
        requires
            self.wf(),
        ensures
            r is Some == found(self@, key@) is Some,
            r matches Some(resource) ==> found(self@, key@) == Some(resource@),
    {
        match self.find(key) {
            Some(i) => Some(self.entries[i].1.duplicate()),
            None => None,
        }
    }

    /// Stores `resource` under `key`, in place of what was there.
    pub fn update(&mut self, key: String, resource: Resource<T>)
        requires
            old(self).wf(),
        ensures
            final(self).wf(),
            final(self)@ == old(self)@.insert(key@, resource@),
            final(self).entries() == put(old(self).entries(), key@, resource@),
            final(self).path() == old(self).path(),
            final(self).owes_save() == old(self).persistent(),
    {
        self.upsert(key, resource)
    }

    /// Drops what is stored under `key`, if anything is.
    pub fn delete(&mut self, key: &str)
        requires
            old(self).wf(),
        ensures
            final(self).wf(),
            final(self)@ == old(self)@.remove(key@),
            final(self).entries() == without(old(self).entries(), key@),
            final(self).path() == old(self).path(),
            final(self).owes_save() == old(self).persistent(),
    {
        proof {
            lemma_without(self.entries(), key@);
        }
        let ghost before = self.entries();
        match self.find(key) {
            Some(i) => {
                self.entries.remove(i);
                assert(self.entries() =~= before.remove(i as int));
            },
            None => {},
        }
        self.unsaved = !self.file_path.as_str().is_empty();
    }
    /// Appends `new_items`, in order, to the list stored under `key`.
    pub fn append_to_list(&mut self, key: &str, new_items: Vec<T>) -> (r: Result<
        (),
        DatabaseError,
    >)
        requires
            old(self).wf(),
        ensures
            final(self).wf(),
            final(self).path() == old(self).path(),
            match append_outcome(old(self)@, key@, list_view(new_items@)) {
                Ok(longer) => {
                    &&& r is Ok
                    &&& final(self)@ == old(self)@.insert(key@, longer)
                    &&& final(self).entries() == put(old(self).entries(), key@, longer)
                    &&& final(self).owes_save() == old(self).persistent()
                },
                Err(reason) => {
                    &&& r matches Err(error)
                    &&& error@ == reason
                    &&& final(self)@ == old(self)@
                    &&& final(self).entries() == old(self).entries()
                    &&& final(self).owes_save() == old(self).owes_save()
                },
            },
    {
        let ghost before = self.entries();
        let ghost added = list_view(new_items@);
        let mut new_items = new_items;
        match self.find(key) {
            None => Err(DatabaseError::KeyNotFound(String::from_str(key))),
            Some(i) => {
                proof {
                    lemma_place(before, i as int);
                }
                if !is_list(&self.entries[i].1) {
                    return Err(DatabaseError::InvalidResourceType(String::from_str(key)));
                }
                match &mut self.entries[i].1 {
                    Resource::List(list) => {
                        let ghost stored = list_view(list@);
                        list.append(&mut new_items);
                        assert(list_view(list@) =~= stored + added);
                    },
                    Resource::Single(_) => {},
                }
                proof {
                    let longer = append_outcome(as_map(before), key@, added)->Ok_0;
                    assert(self.entries() =~= before.update(i as int, (key@, longer)));
                    lemma_put(before, key@, longer);
                }
                self.unsaved = !self.file_path.as_str().is_empty();
                Ok(())
            },
        }
    }
    /// Removes every element equal to `item` from the list stored under `key`.
    pub fn remove_from_list(&mut self, key: &str, item: T) -> (r: Result<(), DatabaseError>)
        requires
            old(self).wf(),
        ensures
            final(self).wf(),
            final(self).path() == old(self).path(),
            match remove_outcome(old(self)@, key@, item@) {
                Ok(shorter) => {
                    &&& r is Ok
                    &&& final(self)@ == old(self)@.insert(key@, shorter)
                    &&& final(self).entries() == put(old(self).entries(), key@, shorter)
                    &&& final(self).owes_save() == old(self).persistent()
                },
                Err(reason) => {
                    &&& r matches Err(error)
                    &&& error@ == reason
                    &&& final(self)@ == old(self)@
                    &&& final(self).entries() == old(self).entries()
                    &&& final(self).owes_save() == old(self).owes_save()
                },
            },
    {
        let ghost before = self.entries();
        match self.find(key) {
            None => Err(DatabaseError::KeyNotFound(String::from_str(key))),
            Some(i) => {
                proof {
                    lemma_place(before, i as int);
                }
                if !is_list(&self.entries[i].1) {
                    return Err(DatabaseError::InvalidResourceType(String::from_str(key)));
                }
                match &mut self.entries[i].1 {
                    Resource::List(list) => {
                        let mut stored: Vec<T> = Vec::new();
                        core::mem::swap(list, &mut stored);
                        *list = without_item(stored, &item);
                    },
                    Resource::Single(_) => {},
                }
                proof {
                    let shorter = remove_outcome(as_map(before), key@, item@)->Ok_0;
                    assert(self.entries() =~= before.update(i as int, (key@, shorter)));
                    lemma_put(before, key@, shorter);
                }
                self.unsaved = !self.file_path.as_str().is_empty();
                Ok(())
            },
        }
    }
    /// The store that the snapshot `content` holds, for the file at
    /// `file_path`, or at `DB_FILE` where no path is given. A snapshot that
    /// cannot be read gives an empty store.
    pub fn load(file_path: Option<&str>, content: &str) -> (r: Self)
        ensures
            r.wf(),
            r.entries() == snapshot_entries::<T>(content@),
            r.path() == match file_path {
                Some(path) => path@,
                None => DB_FILE@,
            },
            !r.owes_save(),
    {
        let mut store = Self::new(file_path);
        match read_json(content) {
            Some(Json::Object(members)) => {
                let ghost all = member_views(members@);
                let ghost mut pairs: Seq<(Seq<char>, ResourceView<T::V>)> = Seq::empty();
                let mut i: usize = 0;
                while i < members.len()
                    invariant
                        i <= members.len(),
                        all == member_views(members@),
                        json_read(content@) == Some(JsonView::Object(all)),
                        store.wf(),
                        store.path() == match file_path {
                            Some(path) => path@,
                            None => DB_FILE@,
                        },
                        pairs.len() == i,
                        forall|j: int|
                            0 <= j < i ==> decoded_resource::<T>((#[trigger] all[j]).1) == Some(
                                pairs[j].1,
                            ) && pairs[j].0 == all[j].0,
                        store.entries() == put_all(Seq::empty(), pairs),
                    decreases members.len() - i,
                {
                    match decode_resource::<T>(members[i].1.as_str()) {
                        Some(resource) => {
                            proof {
                                let next = pairs.push((all[i as int].0, resource@));
                                assert(next.drop_last() =~= pairs);
                                pairs = next;
                            }
                            store.upsert(members[i].0.clone(), resource);
                        },
                        None => {
                            assert(decoded_resource::<T>(all[i as int].1) is None);
                            return Self::new(file_path);
                        },
                    }
                    i += 1;
                }
                proof {
                    let wanted = all.map_values(
                        |m: (Seq<char>, Seq<char>)| (m.0, decoded_resource::<T>(m.1).unwrap()),
                    );
                    assert(wanted =~= pairs);
                }
                store.unsaved = false;
                store
            },
            _ => store,
        }
    }

    /// The snapshot of the store as it stands.
    pub fn snapshot(&self) -> (r: Result<String, DatabaseError>)
        requires
            self.wf(),
        ensures
            match snapshot_text::<T>(self.entries()) {
                Some(text) => r matches Ok(written) && written@ == text,
                None => r matches Err(error) && error@ == ErrorView::Json(snapshot_failure()),
            },
    {
        let ghost all = self.entries();
        let mut members: Vec<(String, String)> = Vec::new();
        let mut i: usize = 0;
        while i < self.entries.len()
            invariant
                i <= self.entries.len(),
                all == self.entries(),
                members.len() == i,
                forall|j: int|
                    0 <= j < i ==> encoded_resource::<T>((#[trigger] all[j]).1) == Some(
                        members@[j].1@,
                    ) && members@[j].0@ == all[j].0,
            decreases self.entries.len() - i,
        {
            match encode_resource::<T>(&self.entries[i].1) {
                Some(text) => {
                    members.push((self.entries[i].0.clone(), text));
                },
                None => {
                    assert(encoded_resource::<T>(all[i as int].1) is None);
                    return Err(
                        DatabaseError::Json(String::from_str("a stored value has no JSON text")),
                    );
                },
            }
            i += 1;
        }
        proof {
            let wanted = all.map_values(
                |e: (Seq<char>, ResourceView<T::V>)| (e.0, encoded_resource::<T>(e.1).unwrap()),
            );
            assert(wanted =~= member_views(members@));
        }
        match render_object(&members) {
            Some(text) => Ok(text),
            None => Err(DatabaseError::Json(String::from_str("a stored value has no JSON text"))),
        }
    }

    /// Whether the store is kept in a file and changed since it was last
    /// written out: the caller then owes it a write of the snapshot.
    pub fn needs_save(&self) -> (r: bool)
        ensures
            r == self.owes_save(),
    {
        self.unsaved
    }

    /// Records that the store was written out as it stands.
    pub fn mark_saved(&mut self)
        ensures
            final(self).wf() == old(self).wf(),
            final(self)@ == old(self)@,
            final(self).entries() == old(self).entries(),
            final(self).path() == old(self).path(),
            !final(self).owes_save(),
    {
        self.unsaved = false;
    }

    /// The path of the file that the store is kept in.
    pub fn file_path(&self) -> (r: &str)
        ensures
            r@ == self.path(),
    {
        self.file_path.as_str()
    }
}

} // verus!
