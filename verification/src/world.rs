//! The world: one component table and one resource store behind a single
//! handle.

use crate::component::Component;
use crate::ecs_errors::failure;
use crate::ecs_errors::ECSError;
use crate::entity_storage::query::Query;
use crate::entity_storage::EntityStorage;
use crate::resource_storage::Resource;
use crate::resource_storage::ResourceStorage;
use crate::table::TableView;
use std::any::TypeId;
use vstd::prelude::*;

verus! {

/// A component table together with a resource store.
#[derive(Debug)]
pub struct World {
    resource_storage: ResourceStorage,
    entity_storage: EntityStorage,
}

impl Default for World {
    /// A world without component types, rows or resources.
    fn default() -> (world: Self)
        ensures
            world.wf(),
            world.table() == TableView::empty(),
            world.resource_map() == Map::<TypeId, Resource>::empty(),
    {
        World {
            resource_storage: ResourceStorage::default(),
            entity_storage: EntityStorage::default(),
        }
    }
}

impl World {
    /// The world's component table.
    pub closed spec fn entities(&self) -> EntityStorage {
        self.entity_storage
    }

    /// The world's resource store.
    pub closed spec fn resources(&self) -> ResourceStorage {
        self.resource_storage
    }

    /// The view of the world's component table.
    pub open spec fn table(&self) -> TableView {
        self.entities()@
    }

    /// The stored resources, each under its type.
    pub open spec fn resource_map(&self) -> Map<TypeId, Resource> {
        self.resources()@
    }

    /// The invariant of a world: both of its parts are well formed.
    pub open spec fn wf(&self) -> bool {
        self.entities().wf() && self.resources().wf()
    }

    /// A world without component types, rows or resources.
    pub fn new() -> (world: Self)
        ensures
            world.wf(),
            world.table() == TableView::empty(),
            world.resource_map() == Map::<TypeId, Resource>::empty(),
    {
        World::default()
    }

    /// Stores `resource` as the resource of type `T`.
    ///
    /// Fails with `ResourceAlreadyRegistered`, and changes nothing, when a
    /// resource of type `T` is stored already.
    pub fn add_resource<T: 'static>(&mut self, resource: T) -> (outcome: Result<(), ECSError>)
        requires
            old(self).wf(),
        ensures
            final(self).wf(),
            final(self).entities() == old(self).entities(),
            outcome matches Err(e) ==> e == ECSError::ResourceAlreadyRegistered,
            outcome is Err ==> final(self).resource_map() == old(self).resource_map(),
            exists|stored: Resource|
                #![trigger stored.key()]
                {
                    &&& outcome is Err == old(self).resource_map().contains_key(stored.key())
                    &&& outcome is Ok ==> final(self).resource_map()
                        == old(self).resource_map().insert(stored.key(), stored)
                },
    {
        self.resource_storage.insert(resource)
    }

    /// The resource of type `T`, if one is stored, for changing it in place.
    /// Which types are stored does not change, nor does any other resource.
    pub fn get_resource_mut<T: 'static>(&mut self) -> (value: Option<&mut T>)
        requires
            old(self).wf(),
        ensures
            final(self).wf(),
            final(self).entities() == old(self).entities(),
            final(self).resource_map().dom() == old(self).resource_map().dom(),
            exists|key: TypeId|
                {
                    &&& #[trigger] old(self).resource_map().get(key) is None ==> {
                        &&& value is None
                        &&& final(self).resource_map() == old(self).resource_map()
                    }
                    &&& forall|other: TypeId|
                        other != key && old(self).resource_map().contains_key(other)
                            ==> final(self).resource_map()[other]
                            == old(self).resource_map()[other]
                },
    {
        assert(self.resource_map() == self.resource_storage@);
        self.resource_storage.get_mut::<T>()
    }

    /// The resource of type `T`, if one is stored.
    pub fn get_resource<T: 'static>(&self) -> (value: Option<&T>)
        requires
            self.wf(),
        ensures
            exists|key: TypeId| #[trigger] self.resource_map().get(key) is None ==> value is None,
    {
        assert(self.resource_map() == self.resource_storage@);
        self.resource_storage.get::<T>()
    }

    /// Removes the resource of type `T`, if one is stored.
    pub fn remove_resource<T: 'static>(&mut self)
        requires
            old(self).wf(),
        ensures
            final(self).wf(),
            final(self).entities() == old(self).entities(),
            exists|key: TypeId|
                final(self).resource_map() == #[trigger] old(self).resource_map().remove(key),
    {
        assert(self.resource_map() == self.resource_storage@);
        let _ = self.resource_storage.remove::<T>();
    }

    /// Whether a resource of type `T` is stored.
    pub fn contains_resource<T: 'static>(&self) -> (yes: bool)
        requires
            self.wf(),
        ensures
            exists|key: TypeId| yes == #[trigger] self.resource_map().contains_key(key),
    {
        assert(self.resource_map() == self.resource_storage@);
        self.resource_storage.contains::<T>()
    }

    /// Stores `resource` as the resource of type `T`, in place of the
    /// resource of that type if there is one.
    pub fn replace_resource<T: 'static>(&mut self, resource: T)
        requires
            old(self).wf(),
        ensures
            final(self).wf(),
            final(self).entities() == old(self).entities(),
            exists|stored: Resource|
                final(self).resource_map() == #[trigger] old(self).resource_map().insert(
                    stored.key(),
                    stored,
                ),
    {
        assert(self.resource_map() == self.resource_storage@);
        self.resource_storage.replace(resource);
    }

    /// Registers the component type `T`, unless it is registered already or
    /// 32 types are: then nothing changes.
    pub fn register_component<T: 'static>(&mut self)
        requires
            old(self).wf(),
        ensures
            final(self).wf(),
            final(self).resources() == old(self).resources(),
            exists|key: TypeId|
                final(self).table() == #[trigger] old(self).table().register_if_new(key),
    {
        assert(self.table() == self.entity_storage@);
        self.entity_storage.register_component::<T>();
    }

    /// Chooses the row for the next entity, the first free row or else a new
    /// one, and hands out the table so that components can be attached in a
    /// chain.
    pub fn create_entity(&mut self) -> (table: &mut EntityStorage)
        requires
            old(self).wf(),
        ensures
            table.wf(),
            table@ == old(self).table().create_row(),
            final(self).entities() == *final(table),
            final(self).resources() == old(self).resources(),
    {
        self.entity_storage.create_entity()
    }

    /// Attaches `component_data` as a component of type `T` to row
    /// `entity_id`.
    ///
    /// Fails with `ComponentNotRegistered` when `T` is not registered, and
    /// otherwise with `EntityDoesNotExist` when `entity_id` is not an
    /// allocated row. A failure changes nothing.
    pub fn add_component_to_entity<T: 'static>(
        &mut self,
        entity_id: usize,
        component_data: T,
    ) -> (outcome: Result<(), ECSError>)
        requires
            old(self).wf(),
        ensures
            final(self).wf(),
            final(self).resources() == old(self).resources(),
            exists|component: Component|
                {
                    &&& final(self).table() == #[trigger] old(self).table().attach_to_row(
                        entity_id as int,
                        component,
                    )
                    &&& failure(outcome) == old(self).table().row_error(
                        entity_id as int,
                        component.key(),
                    )
                },
    {
        assert(self.table() == self.entity_storage@);
        self.entity_storage.add_component_to_entity(entity_id, component_data)
    }

    /// Deletes row `entity_id`: the row is free for the next entity.
    ///
    /// Fails with `EntityDoesNotExist` when `entity_id` is not an allocated
    /// row.
    pub fn remove_entity(&mut self, entity_id: usize) -> (outcome: Result<(), ECSError>)
        requires
            old(self).wf(),
        ensures
            final(self).wf(),
            final(self).resources() == old(self).resources(),
            final(self).table() == old(self).table().delete_row(entity_id as int),
            failure(outcome) == old(self).table().delete_error(entity_id as int),
    {
        self.entity_storage.remove_entity(entity_id)
    }

    /// Removes the component type `T` from row `entity_id`.
    ///
    /// Fails with `ComponentNotRegistered` when `T` is not registered, and
    /// otherwise with `EntityDoesNotExist` when `entity_id` is not an
    /// allocated row. A failure changes nothing.
    pub fn remove_entity_component<T: 'static>(
        &mut self,
        entity_id: usize,
    ) -> (outcome: Result<(), ECSError>)
        requires
            old(self).wf(),
        ensures
            final(self).wf(),
            final(self).resources() == old(self).resources(),
            exists|key: TypeId|
                {
                    &&& final(self).table() == #[trigger] old(self).table().detach(
                        entity_id as int,
                        key,
                    )
                    &&& failure(outcome) == old(self).table().row_error(entity_id as int, key)
                },
    {
        assert(self.table() == self.entity_storage@);
        self.entity_storage.remove_entity_component::<T>(entity_id)
    }

    /// A query on the world's table, with an empty filter.
    pub fn query(&self) -> (query: Query<'_>)
        requires
            self.wf(),
        ensures
            query.wf(),
            *query.storage() == self.entities(),
            query.filter() == 0,
            query.types() == Seq::<TypeId>::empty(),
    {
        Query::new(&self.entity_storage)
    }
}

} // verus!
