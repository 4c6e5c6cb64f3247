//! Access to the components of one row.

use crate::component::Component;
use crate::ecs_errors::failure;
use crate::ecs_errors::ECSError;
use crate::entity_storage::EntityStorage;
use crate::table::TableView;
use crate::type_key::type_key;
use std::any::TypeId;
use std::cell::Ref;
use std::cell::RefMut;
use vstd::prelude::*;

verus! {

/// One row of a table, as a query hands it out.
pub struct QueryEntity<'a> {
    /// The row's index, which is the entity's identifier.
    pub id: usize,
    /// The table that the row belongs to.
    pub entities: &'a EntityStorage,
}

impl<'a> QueryEntity<'a> {
    /// The view of the table that the row belongs to.
    pub open spec fn table(&self) -> TableView {
        self.entities@
    }

    /// The accessor is usable when its table is well formed.
    pub open spec fn wf(&self) -> bool {
        self.table().wf()
    }

    /// An accessor for row `id` of `entities`.
    pub fn new(id: usize, entities: &'a EntityStorage) -> (entity: Self)
        ensures
            entity.id == id,
            entity.entities == entities,
    {
        Self { id, entities }
    }

    /// The component of type `key` that the row carries.
    ///
    /// Fails with `ComponentNotRegistered` when `key` is not registered, and
    /// otherwise with `ComponentDoesNotExist` when the row is not allocated
    /// or does not carry the type.
    pub fn component(&self, key: TypeId) -> (outcome: Result<&'a Component, ECSError>)
        requires
            self.wf(),
        ensures
            failure(outcome) == self.table().lookup_error(self.id as int, key),
            outcome matches Ok(component) ==> self.table().component_at(self.id as int, key)
                == Some(*component),
    {
        match self.entities.position(&key) {
            None => Err(ECSError::ComponentNotRegistered),
            Some(k) => match self.entities.component_in(k, self.id) {
                Some(component) => Ok(component),
                None => Err(ECSError::ComponentDoesNotExist),
            },
        }
    }

    /// A shared view of the row's component of type `T`.
    ///
    /// Fails as `component` does; where the row carries the component, fails
    /// with `ComponentBorrowed` while the component is exclusively borrowed.
    pub fn get_component<T: 'static>(&self) -> (outcome: Result<Ref<'a, T>, ECSError>)
        requires
            self.wf(),
        ensures
            exists|key: TypeId|
                match #[trigger] self.table().lookup_error(self.id as int, key) {
                    Some(e) => failure(outcome) == Some(e),
                    None => failure(outcome) is None || failure(outcome) == Some(
                        ECSError::ComponentBorrowed,
                    ) || failure(outcome) == Some(ECSError::DowncastToWrongType),
                },
    {
        let key = type_key::<T>();
        match self.component(key) {
            Ok(component) => component.read::<T>(),
            Err(e) => Err(e),
        }
    }

    /// An exclusive view of the row's component of type `T`.
    ///
    /// Fails as `component` does; where the row carries the component, fails
    /// with `ComponentBorrowed` while any other view of it is alive.
    pub fn get_component_mut<T: 'static>(&mut self) -> (outcome: Result<RefMut<'a, T>, ECSError>)
        requires
            old(self).wf(),
        ensures
            *final(self) == *old(self),
            exists|key: TypeId|
                match #[trigger] old(self).table().lookup_error(old(self).id as int, key) {
                    Some(e) => failure(outcome) == Some(e),
                    None => failure(outcome) is None || failure(outcome) == Some(
                        ECSError::ComponentBorrowed,
                    ) || failure(outcome) == Some(ECSError::DowncastToWrongType),
                },
    {
        let key = type_key::<T>();
        match self.component(key) {
            Ok(component) => component.write::<T>(),
            Err(e) => Err(e),
        }
    }
}

} // verus!
