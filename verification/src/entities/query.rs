//! Queries that answer with a pair: the matched rows and their components.

use crate::component::Component;
use crate::ecs_errors::ECSError;
use crate::entities::Entities;
use crate::entity_storage::query::QueryResult;
use crate::entity_storage::query_entity::QueryEntity;
use crate::entity_storage::EntityStorage;
use crate::table::TableView;
use std::any::TypeId;
use vstd::prelude::*;

verus! {

/// The matched rows of a query, in ascending order.
pub type QueryIndexes = Vec<usize>;

/// For each type of the filter, the components of the matched rows.
pub type QueryComponents = Vec<Vec<Component>>;

/// A filter over the component types of one table.
#[derive(Debug)]
pub struct Query<'a> {
    inner: crate::entity_storage::query::Query<'a>,
}

impl<'a> Query<'a> {
    /// The view of the table that the query reads.
    pub closed spec fn table(&self) -> TableView {
        self.inner.table()
    }

    /// The table that the query reads.
    pub closed spec fn storage(&self) -> &'a EntityStorage {
        self.inner.storage()
    }

    /// The accumulated filter mask.
    pub closed spec fn filter(&self) -> u32 {
        self.inner.filter()
    }

    /// The component types of the filter, in the order in which they were
    /// added.
    pub closed spec fn types(&self) -> Seq<TypeId> {
        self.inner.types()
    }

    /// The invariant of a query: its table is well formed, every type of the
    /// filter is registered there, and the mask is the union of their bits.
    pub open spec fn wf(&self) -> bool {
        &&& self.table().wf()
        &&& self.table() == self.storage()@
        &&& forall|i: int|
            0 <= i < self.types().len() ==> self.table().is_registered(#[trigger] self.types()[i])
        &&& self.filter() == self.table().filter_of(self.types())
    }

    /// A query on `entities` with an empty filter, which every row matches.
    pub fn new(entities: &'a Entities) -> (query: Self)
        requires
            entities.wf(),
        ensures
            query.wf(),
            *query.storage() == entities.storage(),
            query.table() == entities@,
            query.filter() == 0,
            query.types() == Seq::<TypeId>::empty(),
    {
        Self { inner: crate::entity_storage::query::Query::new(entities.as_storage()) }
    }

    /// The accumulated filter mask.
    pub fn map(&self) -> (mask: u32)
        ensures
            mask == self.filter(),
    {
        self.inner.filter_mask()
    }

    /// The component types of the filter, in the order in which they were
    /// added.
    pub fn type_ids(&self) -> (types: &Vec<TypeId>)
        ensures
            types@ == self.types(),
    {
        self.inner.component_type_ids()
    }

    /// Adds the component type `T` to the filter, and hands the query back
    /// for the next addition.
    ///
    /// Fails with `ComponentNotRegistered`, and changes nothing, when `T` is
    /// not registered with the table.
    pub fn with_component<T: 'static>(&mut self) -> (outcome: Result<&mut Self, ECSError>)
        requires
            old(self).wf(),
        ensures
            outcome matches Ok(query) ==> {
                &&& query.wf()
                &&& query.storage() == old(self).storage()
                &&& *final(self) == *final(query)
            },
            outcome matches Err(e) ==> {
                &&& e == ECSError::ComponentNotRegistered
                &&& final(self).wf()
                &&& final(self).storage() == old(self).storage()
                &&& final(self).filter() == old(self).filter()
                &&& final(self).types() == old(self).types()
            },
            exists|key: TypeId|
                match #[trigger] old(self).table().bit_of(key) {
                    Some(mask) => {
                        &&& outcome matches Ok(query)
                        &&& query.filter() == old(self).filter() | mask
                        &&& query.types() == old(self).types().push(key)
                    },
                    None => outcome is Err,
                },
    {
        assert(self.table() == self.inner.table());
        match self.inner.with_component_filter::<T>() {
            Ok(_) => Ok(self),
            Err(e) => Err(e),
        }
    }

    /// Runs the query: the matching rows in ascending order, and for each
    /// type of the filter, in the filter's order, the components of those
    /// rows.
    pub fn run(&self) -> (result: (QueryIndexes, QueryComponents))
        requires
            self.wf(),
        ensures
            (QueryResult { entity_ids: result.0, components: result.1 }).answers(
                self.table(),
                self.filter(),
                self.types(),
            ),
            (QueryResult { entity_ids: result.0, components: result.1 }).ascending(),
            (QueryResult { entity_ids: result.0, components: result.1 }).lists_the_matches(
                self.table(),
                self.filter(),
            ),
    {
        let found = self.inner.run();
        (found.entity_ids, found.components)
    }

    /// One accessor per matching row, in ascending order of the rows.
    pub fn run_entity(&self) -> (entities: Vec<QueryEntity<'a>>)
        requires
            self.wf(),
        ensures
            entities@.len() == self.table().matching_rows(self.filter()).len(),
            forall|i: int|
                0 <= i < entities@.len() ==> (#[trigger] entities@[i]).id
                    == self.table().matching_rows(self.filter())[i] && entities@[i].entities
                    == self.storage(),
    {
        self.inner.get_entities()
    }
}

} // verus!
