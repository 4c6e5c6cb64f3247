//! The component table under a compact interface whose queries answer with a
//! pair of lists.

pub mod query;

use crate::component::Component;
use crate::ecs_errors::failure;
use crate::ecs_errors::ECSError;
use crate::entity_storage::EntityStorage;
use crate::table::TableView;
use std::any::TypeId;
use vstd::prelude::*;

verus! {

/// A component table.
#[derive(Debug)]
pub struct Entities {
    table: EntityStorage,
}

impl View for Entities {
    type V = TableView;

    closed spec fn view(&self) -> TableView {
        self.table@
    }
}

impl Default for Entities {
    /// A table without types and without rows.
    fn default() -> (entities: Self)
        ensures
            entities.wf(),
            entities@ == TableView::empty(),
    {
        Entities { table: EntityStorage::default() }
    }
}

impl Entities {
    /// The invariant that every operation keeps.
    pub open spec fn wf(&self) -> bool {
        self@.wf()
    }

    /// The table that this handle owns.
    pub closed spec fn storage(&self) -> EntityStorage {
        self.table
    }

    /// The table that this handle owns.
    pub fn as_storage(&self) -> (table: &EntityStorage)
        ensures
            *table == self.storage(),
            table@ == self@,
    {
        &self.table
    }

    /// Registers the component type `T`, unless it is registered already or
    /// 32 types are: then nothing changes.
    pub fn register_component<T: 'static>(&mut self)
        requires
            old(self).wf(),
        ensures
            final(self).wf(),
            exists|key: TypeId| final(self)@ == #[trigger] old(self)@.register_if_new(key),
    {
        self.table.register_component::<T>();
    }

    /// Chooses the row for the next entity: the first free row, or a new row
    /// at the end when every row is live. Moves the cursor to it and hands
    /// the table back so that components can be attached in a chain.
    pub fn create_entity(&mut self) -> (entities: &mut Self)
        requires
            old(self).wf(),
        ensures
            entities.wf(),
            entities@ == old(self)@.create_row(),
            *final(self) == *final(entities),
    {
        let _ = self.table.create_row();
        self
    }

    /// Attaches `data` as a component of type `T` to the cursor row, and
    /// hands the table back for the next attachment.
    ///
    /// Fails with `ComponentNotRegistered` when `T` is not registered, and
    /// otherwise with `CreateComponentNeverCalled` when the cursor does not
    /// point at an allocated row. A failure changes nothing.
    pub fn with_component<T: 'static>(&mut self, data: T) -> (outcome: Result<&mut Self, ECSError>)
        requires
            old(self).wf(),
        ensures
            outcome matches Ok(entities) ==> entities.wf() && *final(self) == *final(entities),
            outcome is Err ==> final(self).wf() && final(self)@ == old(self)@,
            exists|component: Component|
                {
                    &&& failure(outcome) == #[trigger] old(self)@.attach_error(component)
                    &&& outcome matches Ok(entities) ==> entities@ == old(self)@.attach(component)
                },
    {
        let component = Component::new(data);
        let ghost attached = component;
        match self.table.attach_component(component) {
            Ok(()) => {
                assert(old(self)@.attach_error(attached) is None);
                Ok(self)
            },
            Err(e) => {
                assert(old(self)@.attach_error(attached) == Some(e));
                Err(e)
            },
        }
    }

    /// The mask bit of `type_id`, if it is registered.
    pub fn get_bitmask(&self, type_id: &TypeId) -> (mask: Option<u32>)
        requires
            self.wf(),
        ensures
            mask == self@.bit_of(*type_id),
    {
        self.table.get_bitmask(type_id)
    }

    /// Removes the component type `T` from row `index`: its bit is cleared
    /// if it is set.
    ///
    /// Fails with `ComponentNotRegistered` when `T` is not registered, and
    /// otherwise with `EntityDoesNotExist` when `index` is not an allocated
    /// row. A failure changes nothing.
    pub fn remove_entity_component<T: 'static>(
        &mut self,
        index: usize,
    ) -> (outcome: Result<(), ECSError>)
        requires
            old(self).wf(),
        ensures
            final(self).wf(),
            exists|key: TypeId|
                {
                    &&& final(self)@ == #[trigger] old(self)@.detach(index as int, key)
                    &&& failure(outcome) == old(self)@.row_error(index as int, key)
                },
    {
        self.table.remove_entity_component::<T>(index)
    }

    /// Attaches `data` as a component of type `T` to row `index`.
    ///
    /// Fails with `ComponentNotRegistered` when `T` is not registered, and
    /// otherwise with `EntityDoesNotExist` when `index` is not an allocated
    /// row. A failure changes nothing.
    pub fn add_component_to_entity<T: 'static>(
        &mut self,
        index: usize,
        data: T,
    ) -> (outcome: Result<(), ECSError>)
        requires
            old(self).wf(),
        ensures
            final(self).wf(),
            exists|component: Component|
                {
                    &&& final(self)@ == #[trigger] old(self)@.attach_to_row(index as int, component)
                    &&& failure(outcome) == old(self)@.row_error(index as int, component.key())
                },
    {
        self.table.add_component_to_entity(index, data)
    }

    /// Deletes row `index`: its mask becomes zero, and the row is free for
    /// the next `create_entity`.
    ///
    /// Fails with `EntityDoesNotExist` when `index` is not an allocated row.
    pub fn remove_entity(&mut self, index: usize) -> (outcome: Result<(), ECSError>)
        requires
            old(self).wf(),
        ensures
            final(self).wf(),
            final(self)@ == old(self)@.delete_row(index as int),
            failure(outcome) == old(self)@.delete_error(index as int),
    {
        self.table.remove_entity(index)
    }
}

} // verus!
