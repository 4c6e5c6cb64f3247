//! A resource store whose `add` overwrites what is stored.

use crate::resource_storage::Resource;
use crate::resource_storage::ResourceStorage;
use std::any::TypeId;
use vstd::prelude::*;

verus! {

/// A store of at most one value per type.
#[derive(Debug)]
pub struct Resources {
    store: ResourceStorage,
}

impl View for Resources {
    type V = Map<TypeId, Resource>;

    closed spec fn view(&self) -> Map<TypeId, Resource> {
        self.store@
    }
}

impl Default for Resources {
    /// A store without resources.
    fn default() -> (resources: Self)
        ensures
            resources.wf(),
            resources@ == Map::<TypeId, Resource>::empty(),
    {
        Resources { store: ResourceStorage::default() }
    }
}

impl Resources {
    /// The invariant of the store.
    pub closed spec fn wf(&self) -> bool {
        self.store.wf()
    }

    /// The resource of type `key`, if one is stored.
    pub fn entry(&self, key: &TypeId) -> (found: Option<&Resource>)
        requires
            self.wf(),
        ensures
            match found {
                Some(resource) => self@.contains_key(*key) && self@[*key] == *resource
                    && resource.key() == *key,
                None => !self@.contains_key(*key),
            },
    {
        self.store.entry(key)
    }

    /// Stores `data` as the resource of type `T`, in place of the resource
    /// of that type if there is one.
    pub fn add<T: 'static>(&mut self, data: T)
        requires
            old(self).wf(),
        ensures
            final(self).wf(),
            exists|resource: Resource|
                final(self)@ == #[trigger] old(self)@.insert(resource.key(), resource),
    {
        assert(self@ == self.store@);
        self.store.replace(data);
    }

    /// The resource of type `T`, if one is stored.
    pub fn get_ref<T: 'static>(&self) -> (value: Option<&T>)
        requires
            self.wf(),
        ensures
            exists|key: TypeId| #[trigger] self@.get(key) is None ==> value is None,
    {
        assert(self@ == self.store@);
        self.store.get::<T>()
    }

    /// The resource of type `T`, if one is stored, for changing it in place.
    /// Which types are stored does not change, nor does any other resource.
    pub fn get_mut<T: 'static>(&mut self) -> (value: Option<&mut T>)
        requires
            old(self).wf(),
        ensures
            final(self).wf(),
            final(self)@.dom() == old(self)@.dom(),
            exists|key: TypeId|
                {
                    &&& #[trigger] old(self)@.get(key) is None ==> {
                        &&& value is None
                        &&& final(self)@ == old(self)@
                    }
                    &&& forall|other: TypeId|
                        other != key && old(self)@.contains_key(other) ==> final(self)@[other]
                            == old(self)@[other]
                },
    {
        assert(self@ == self.store@);
        self.store.get_mut::<T>()
    }

    /// Removes the resource of type `T`, if one is stored.
    pub fn remove<T: 'static>(&mut self)
        requires
            old(self).wf(),
        ensures
            final(self).wf(),
            exists|key: TypeId| final(self)@ == #[trigger] old(self)@.remove(key),
    {
        assert(self@ == self.store@);
        let _ = self.store.remove::<T>();
    }
}

} // verus!
