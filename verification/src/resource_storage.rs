//! The resource store: at most one value per type, independent of any row.

use crate::ecs_errors::ECSError;
use crate::type_key::same_key;
use crate::type_key::type_key;
use std::any::Any;
use std::any::TypeId;
use vstd::prelude::*;

verus! {

/// A boxed value whose type has been erased. The verifier cannot express
/// `dyn Any`, so the box is opaque to it.
#[verifier::external_body]
#[derive(Debug)]
struct ErasedBox {
    inner: Box<dyn Any>,
}

/// Moves `value` into a box, `Box::new(value)`, and erases its type.
#[verifier::external_body]
fn box_up<T: 'static>(value: T) -> (boxed: ErasedBox) {
    ErasedBox { inner: Box::new(value) }
}

/// Calls `<dyn Any>::downcast_ref::<T>`: the value as a `T`, or nothing when
/// it is of another type.
#[verifier::external_body]
fn unbox_ref<'b, T: 'static>(boxed: &'b ErasedBox) -> (value: Option<&'b T>) {
    boxed.inner.downcast_ref::<T>()
}

/// Calls `<dyn Any>::downcast_mut::<T>`: the value as a `T`, or nothing when
/// it is of another type.
#[verifier::external_body]
fn unbox_mut<'b, T: 'static>(boxed: &'b mut ErasedBox) -> (value: Option<&'b mut T>) {
    boxed.inner.downcast_mut::<T>()
}

/// One resource: the token of its type and the boxed value.
#[derive(Debug)]
pub struct Resource {
    key: TypeId,
    value: ErasedBox,
}

impl Resource {
    /// The token of the type this resource was made from.
    pub closed spec fn key(&self) -> TypeId {
        self.key
    }

    /// Wraps `value` as a resource of type `T`.
    pub fn new<T: 'static>(value: T) -> (resource: Resource) {
        Resource { key: type_key::<T>(), value: box_up(value) }
    }

    /// The token of the type this resource was made from.
    pub fn type_key(&self) -> (key: TypeId)
        ensures
            key == self.key(),
    {
        self.key
    }

    /// The value as a `T`, or nothing when it is of another type.
    pub fn get<T: 'static>(&self) -> (value: Option<&T>) {
        unbox_ref::<T>(&self.value)
    }

    /// The value as a `T` that can be changed, or nothing when it is of
    /// another type. The resource keeps its type.
    pub fn get_mut<T: 'static>(&mut self) -> (value: Option<&mut T>)
        ensures
            final(self).key() == old(self).key(),
    {
        unbox_mut::<T>(&mut self.value)
    }
}

/// The keys of a list of resources, in the list's order.
pub open spec fn keys_of(entries: Seq<Resource>) -> Seq<TypeId> {
    Seq::new(entries.len(), |i: int| entries[i].key())
}

/// The list of resources as a map from type to resource.
pub open spec fn as_map(entries: Seq<Resource>) -> Map<TypeId, Resource> {
    Map::new(
        |key: TypeId| keys_of(entries).contains(key),
        |key: TypeId| entries[keys_of(entries).index_of(key)],
    )
}

/// In a list without a type twice, the entry at position `i` is the one that
/// the map holds under the entry's type.
pub proof fn lemma_entry_at(entries: Seq<Resource>, i: int)
    requires
        keys_of(entries).no_duplicates(),
        0 <= i < entries.len(),
    ensures
        as_map(entries).contains_key(entries[i].key()),
        as_map(entries)[entries[i].key()] == entries[i],
{
    let keys = keys_of(entries);
    assert(keys[i] == entries[i].key());
    let j = keys.index_of(entries[i].key());
    assert(keys[j] == keys[i]);
}

/// A type that the map holds sits at some position of the list.
pub proof fn lemma_entry_of(entries: Seq<Resource>, key: TypeId) -> (i: int)
    requires
        keys_of(entries).no_duplicates(),
        as_map(entries).contains_key(key),
    ensures
        0 <= i < entries.len(),
        entries[i].key() == key,
        as_map(entries)[key] == entries[i],
{
    let i = keys_of(entries).index_of(key);
    assert(keys_of(entries)[i] == key);
    i
}

/// Appending a resource of a type that is not stored yet inserts it into the
/// map.
pub proof fn lemma_append(entries: Seq<Resource>, resource: Resource)
    requires
        keys_of(entries).no_duplicates(),
        !as_map(entries).contains_key(resource.key()),
    ensures
        keys_of(entries.push(resource)).no_duplicates(),
        as_map(entries.push(resource)) == as_map(entries).insert(resource.key(), resource),
{
    let after = entries.push(resource);
    let target = as_map(entries).insert(resource.key(), resource);
    assert forall|a: int, b: int|
        0 <= a < after.len() && 0 <= b < after.len() && a != b implies keys_of(after)[a]
        != keys_of(after)[b] by {
        if a < entries.len() {
            assert(keys_of(entries)[a] == keys_of(after)[a]);
        }
        if b < entries.len() {
            assert(keys_of(entries)[b] == keys_of(after)[b]);
        }
    }
    assert(keys_of(after)[entries.len() as int] == resource.key());
    assert forall|key: TypeId| as_map(after).contains_key(key) == target.contains_key(key) by {
        if as_map(after).contains_key(key) {
            let j = lemma_entry_of(after, key);
            if j < entries.len() {
                assert(keys_of(entries)[j] == key);
            }
        }
        if as_map(entries).contains_key(key) {
            let j = lemma_entry_of(entries, key);
            assert(keys_of(after)[j] == key);
        }
    }
    assert forall|key: TypeId| as_map(after).contains_key(key) implies as_map(after)[key]
        == target[key] by {
        let j = lemma_entry_of(after, key);
        if j < entries.len() {
            assert(keys_of(entries)[j] == key);
            lemma_entry_at(entries, j);
        }
    }
    assert(as_map(after) =~= target);
}

/// Overwriting the resource at position `i` by one of the same type replaces
/// it in the map.
pub proof fn lemma_overwrite(entries: Seq<Resource>, i: int, resource: Resource)
    requires
        keys_of(entries).no_duplicates(),
        0 <= i < entries.len(),
        entries[i].key() == resource.key(),
    ensures
        keys_of(entries.update(i, resource)).no_duplicates(),
        as_map(entries.update(i, resource)) == as_map(entries).insert(resource.key(), resource),
{
    let after = entries.update(i, resource);
    let target = as_map(entries).insert(resource.key(), resource);
    assert(keys_of(after) =~= keys_of(entries));
    assert(keys_of(entries)[i] == resource.key());
    assert forall|key: TypeId| as_map(after).contains_key(key) implies as_map(after)[key]
        == target[key] by {
        let j = lemma_entry_of(after, key);
        lemma_entry_at(entries, j);
    }
    assert(as_map(after) =~= target);
}

/// Taking the resource at position `i` out of the list removes its type from
/// the map.
pub proof fn lemma_take_out(entries: Seq<Resource>, i: int)
    requires
        keys_of(entries).no_duplicates(),
        0 <= i < entries.len(),
    ensures
        keys_of(entries.remove(i)).no_duplicates(),
        as_map(entries.remove(i)) == as_map(entries).remove(entries[i].key()),
{
    let after = entries.remove(i);
    let gone = entries[i].key();
    let target = as_map(entries).remove(gone);
    assert(keys_of(entries)[i] == gone);
    assert forall|a: int| 0 <= a < after.len() implies #[trigger] keys_of(after)[a] == keys_of(
        entries,
    )[if a < i {
        a
    } else {
        a + 1
    }] by {}
    assert forall|key: TypeId| as_map(after).contains_key(key) == target.contains_key(key) by {
        if as_map(after).contains_key(key) {
            let j = lemma_entry_of(after, key);
            let j0 = if j < i {
                j
            } else {
                j + 1
            };
            assert(keys_of(entries)[j0] == key);
        }
        if target.contains_key(key) {
            let j = lemma_entry_of(entries, key);
            let j1 = if j < i {
                j
            } else {
                j - 1
            };
            assert(keys_of(after)[j1] == key);
        }
    }
    assert forall|key: TypeId| as_map(after).contains_key(key) implies as_map(after)[key]
        == target[key] by {
        let j = lemma_entry_of(after, key);
        let j0 = if j < i {
            j
        } else {
            j + 1
        };
        lemma_entry_at(entries, j0);
    }
    assert(as_map(after) =~= target);
}

/// Whether `after` stores the same types as `before` does, none twice, and
/// the same resource under every type but `key`.
pub open spec fn same_but(before: Seq<Resource>, after: Seq<Resource>, key: TypeId) -> bool {
    &&& keys_of(after).no_duplicates()
    &&& as_map(after).dom() == as_map(before).dom()
    &&& forall|other: TypeId|
        other != key && as_map(before).contains_key(other) ==> #[trigger] as_map(after)[other]
            == as_map(before)[other]
}

/// Changing one resource in place, without changing its type, leaves the
/// stored types and all other resources as they were.
pub proof fn lemma_update_in_place(entries: Seq<Resource>, i: int, changed: Resource)
    requires
        keys_of(entries).no_duplicates(),
        0 <= i < entries.len(),
        changed.key() == entries[i].key(),
    ensures
        same_but(entries, entries.update(i, changed), changed.key()),
{
    lemma_overwrite(entries, i, changed);
    assert(as_map(entries.update(i, changed)).dom() =~= as_map(entries).dom()) by {
        lemma_entry_at(entries, i);
    }
}

/// The resource store.
#[derive(Debug)]
pub struct ResourceStorage {
    data: Vec<Resource>,
}

impl View for ResourceStorage {
    type V = Map<TypeId, Resource>;

    closed spec fn view(&self) -> Map<TypeId, Resource> {
        as_map(self.data@)
    }
}

impl Default for ResourceStorage {
    /// A store without resources.
    fn default() -> (store: Self)
        ensures
            store.wf(),
            store@ == Map::<TypeId, Resource>::empty(),
    {
        let store = ResourceStorage { data: Vec::new() };
        assert(store@ =~= Map::<TypeId, Resource>::empty());
        store
    }
}

impl ResourceStorage {
    /// The invariant of the store: no type is stored twice.
    pub closed spec fn wf(&self) -> bool {
        keys_of(self.data@).no_duplicates()
    }

    /// Every resource is stored under its own type.
    pub proof fn law_stored_under_own_type(&self, key: TypeId)
        requires
            self.wf(),
            self@.contains_key(key),
        ensures
            self@[key].key() == key,
    {
        let _ = lemma_entry_of(self.data@, key);
    }

    /// The position of the resource of type `key`, if there is one.
    fn find(&self, key: TypeId) -> (found: Option<usize>)
        requires
            self.wf(),
        ensures
            match found {
                Some(i) => {
                    &&& i < self.data@.len()
                    &&& self.data@[i as int].key() == key
                    &&& self@.contains_key(key)
                    &&& self@[key] == self.data@[i as int]
                },
                None => !self@.contains_key(key),
            },
    {
        let mut i: usize = 0;
        while i < self.data.len()
            invariant
                self.wf(),
                i <= self.data@.len(),
                forall|j: int| 0 <= j < i ==> self.data@[j].key() != key,
            decreases self.data@.len() - i,
        {
            if same_key(self.data[i].type_key(), key) {
                proof {
                    lemma_entry_at(self.data@, i as int);
                }
                return Some(i);
            }
            i = i + 1;
        }
        proof {
            if self@.contains_key(key) {
                let _ = lemma_entry_of(self.data@, key);
            }
        }
        None
    }

    /// Whether a resource of type `key` is stored.
    pub fn contains_key(&self, key: &TypeId) -> (yes: bool)
        requires
            self.wf(),
        ensures
            yes == self@.contains_key(*key),
    {
        self.find(*key).is_some()
    }

    /// The resource of type `key`, if one is stored.
    pub fn entry(&self, key: &TypeId) -> (found: Option<&Resource>)
        requires
            self.wf(),
        ensures
            match found {
                Some(resource) => {
                    &&& self@.contains_key(*key)
                    &&& self@[*key] == *resource
                    &&& resource.key() == *key
                },
                None => !self@.contains_key(*key),
            },
    {
        match self.find(*key) {
            Some(i) => Some(&self.data[i]),
            None => None,
        }
    }

    /// Stores `resource` under its type, in place of the resource of that
    /// type if there is one.
    pub fn replace_entry(&mut self, resource: Resource)
        requires
            old(self).wf(),
        ensures
            final(self).wf(),
            final(self)@ == old(self)@.insert(resource.key(), resource),
    {
        match self.find(resource.type_key()) {
            Some(i) => {
                proof {
                    lemma_overwrite(self.data@, i as int, resource);
                }
                self.data[i] = resource;
            },
            None => {
                proof {
                    lemma_append(self.data@, resource);
                }
                self.data.push(resource);
            },
        }
    }

    /// Stores `resource` under its type.
    ///
    /// Fails with `ResourceAlreadyRegistered`, and changes nothing, when a
    /// resource of that type is stored already.
    pub fn insert_entry(&mut self, resource: Resource) -> (outcome: Result<(), ECSError>)
        requires
            old(self).wf(),
        ensures
            final(self).wf(),
            old(self)@.contains_key(resource.key()) ==> {
                &&& outcome == Err::<(), ECSError>(ECSError::ResourceAlreadyRegistered)
                &&& final(self)@ == old(self)@
            },
            !old(self)@.contains_key(resource.key()) ==> {
                &&& outcome is Ok
                &&& final(self)@ == old(self)@.insert(resource.key(), resource)
            },
    {
        if self.contains_key(&resource.type_key()) {
            return Err(ECSError::ResourceAlreadyRegistered);
        }
        self.replace_entry(resource);
        Ok(())
    }

    /// Removes the resource of type `key`. Returns whether there was one.
    pub fn remove_entry(&mut self, key: &TypeId) -> (removed: bool)
        requires
            old(self).wf(),
        ensures
            final(self).wf(),
            removed == old(self)@.contains_key(*key),
            final(self)@ == old(self)@.remove(*key),
    {
        match self.find(*key) {
            Some(i) => {
                proof {
                    lemma_take_out(self.data@, i as int);
                }
                let _ = self.data.remove(i);
                true
            },
            None => {
                assert(self@ =~= old(self)@.remove(*key));
                false
            },
        }
    }

    /// Whether a resource of type `T` is stored.
    pub fn contains<T: 'static>(&self) -> (yes: bool)
        requires
            self.wf(),
        ensures
            exists|key: TypeId| yes == #[trigger] self@.contains_key(key),
    {
        let key = type_key::<T>();
        self.contains_key(&key)
    }

    /// Stores `data` as the resource of type `T`.
    ///
    /// Fails with `ResourceAlreadyRegistered`, and changes nothing, when a
    /// resource of type `T` is stored already.
    pub fn insert<T: 'static>(&mut self, data: T) -> (outcome: Result<(), ECSError>)
        requires
            old(self).wf(),
        ensures
            final(self).wf(),
            outcome matches Err(e) ==> e == ECSError::ResourceAlreadyRegistered,
            outcome is Err ==> final(self)@ == old(self)@,
            exists|resource: Resource|
                #![trigger resource.key()]
                {
                    &&& outcome is Err == old(self)@.contains_key(resource.key())
                    &&& outcome is Ok ==> final(self)@ == old(self)@.insert(
                        resource.key(),
                        resource,
                    )
                },
    {
        let resource = Resource::new(data);
        let ghost stored = resource;
        let outcome = self.insert_entry(resource);
        assert(outcome is Ok ==> self@ == old(self)@.insert(stored.key(), stored));
        outcome
    }

    /// Stores `data` as the resource of type `T`, in place of the resource
    /// of that type if there is one.
    pub fn replace<T: 'static>(&mut self, data: T)
        requires
            old(self).wf(),
        ensures
            final(self).wf(),
            exists|resource: Resource|
                final(self)@ == #[trigger] old(self)@.insert(resource.key(), resource),
    {
        let resource = Resource::new(data);
        let ghost stored = resource;
        self.replace_entry(resource);
        assert(self@ == old(self)@.insert(stored.key(), stored));
    }

    /// The resource of type `T`, if one is stored.
    pub fn get<T: 'static>(&self) -> (value: Option<&T>)
        requires
            self.wf(),
        ensures
            exists|key: TypeId| #[trigger] self@.get(key) is None ==> value is None,
    {
        let key = type_key::<T>();
        let found = self.entry(&key);
        assert(self@.get(key) is None ==> found is None);
        match found {
            Some(resource) => resource.get::<T>(),
            None => None,
        }
    }

    /// The resource of type `T`, if one is stored, for changing it in place.
    /// Which types are stored does not change, nor does any other resource.
    pub fn get_mut<T: 'static>(&mut self) -> (value: Option<&mut T>)
        requires
            old(self).wf(),
        ensures
            final(self).wf(),
            final(self)@.dom() == old(self)@.dom(),
            exists|key: TypeId|
                {
                    &&& #[trigger] old(self)@.get(key) is None ==> {
                        &&& value is None
                        &&& final(self)@ == old(self)@
                    }
                    &&& forall|other: TypeId|
                        other != key && old(self)@.contains_key(other) ==> final(self)@[other]
                            == old(self)@[other]
                },
    {
        let key = type_key::<T>();
        match self.find(key) {
            Some(i) => {
                proof {
                    let before = self.data@;
                    assert forall|changed: Resource| changed.key() == key implies same_but(
                        before,
                        #[trigger] before.update(i as int, changed),
                        key,
                    ) by {
                        lemma_update_in_place(before, i as int, changed);
                    }
                    assert(self@.get(key) is Some);
                }
                self.data[i].get_mut::<T>()
            },
            None => {
                assert(old(self)@.get(key) is None);
                None
            },
        }
    }

    /// Removes the resource of type `T`. Returns whether there was one.
    pub fn remove<T: 'static>(&mut self) -> (removed: bool)
        requires
            old(self).wf(),
        ensures
            final(self).wf(),
            exists|key: TypeId|
                {
                    &&& removed == old(self)@.contains_key(key)
                    &&& final(self)@ == #[trigger] old(self)@.remove(key)
                },
    {
        let key = type_key::<T>();
        let removed = self.remove_entry(&key);
        assert(self@ == old(self)@.remove(key));
        removed
    }
}

} // verus!
