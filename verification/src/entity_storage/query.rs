//! Queries: the rows of a table that carry every component type of a filter.

use crate::bitmask::bit;
use crate::bitmask::covers;
use crate::component::Component;
use crate::ecs_errors::ECSError;
use crate::entity_storage::query_entity::QueryEntity;
use crate::entity_storage::EntityStorage;
use crate::table::lemma_matching_below;
use crate::table::matching_below;
use crate::table::TableView;
use crate::type_key::type_key;
use std::any::TypeId;
use vstd::prelude::*;

verus! {

/// What a query found: the matched rows, and for each type of the filter the
/// components of those rows.
pub struct QueryResult {
    /// The matched rows, in ascending order.
    pub entity_ids: Vec<usize>,
    /// One list per type of the filter, in the order in which the filter was
    /// built; entry `i` of each list belongs to row `entity_ids[i]`.
    pub components: Vec<Vec<Component>>,
}

impl QueryResult {
    /// Whether this is the answer of `table` to the filter mask `filter`
    /// built from `types`: the row ids are the matching rows in ascending
    /// order, and list `k` holds, row by row, the components of type
    /// `types[k]` that those rows carry.
    pub open spec fn answers(&self, table: TableView, filter: u32, types: Seq<TypeId>) -> bool {
        &&& self.entity_ids@.len() == table.matching_rows(filter).len()
        &&& forall|i: int|
            0 <= i < self.entity_ids@.len() ==> #[trigger] self.entity_ids@[i]
                == table.matching_rows(filter)[i]
        &&& self.components@.len() == types.len()
        &&& forall|k: int|
            0 <= k < types.len() ==> (#[trigger] self.components@[k])@.len()
                == self.entity_ids@.len()
        &&& forall|k: int, i: int|
            0 <= k < types.len() && 0 <= i < self.entity_ids@.len() ==> table.component_at(
                self.entity_ids@[i] as int,
                types[k],
            ) == Some(#[trigger] self.components@[k]@[i])
    }

    /// Whether the row ids are strictly ascending.
    pub open spec fn ascending(&self) -> bool {
        forall|i: int, j: int|
            0 <= i < j < self.entity_ids@.len() ==> self.entity_ids@[i] < self.entity_ids@[j]
    }

    /// Whether the row ids are exactly the rows of `table` whose mask has
    /// every bit of `filter` set: each listed row is such a row, and each
    /// such row is listed.
    pub open spec fn lists_the_matches(&self, table: TableView, filter: u32) -> bool {
        &&& forall|i: int|
            0 <= i < self.entity_ids@.len() ==> {
                &&& (#[trigger] self.entity_ids@[i]) < table.rows()
                &&& covers(table.masks[self.entity_ids@[i] as int], filter)
            }
        &&& forall|row: int|
            0 <= row < table.rows() && covers(#[trigger] table.masks[row], filter)
                ==> exists|i: int|
                0 <= i < self.entity_ids@.len() && self.entity_ids@[i] == row
    }
}

/// A filter over the component types of one table.
#[derive(Debug)]
pub struct Query<'a> {
    filter_mask: u32,
    entity_storage: &'a EntityStorage,
    component_type_ids: Vec<TypeId>,
}

impl<'a> Query<'a> {
    /// The view of the table that the query reads.
    pub closed spec fn table(&self) -> TableView {
        self.entity_storage@
    }

    /// The table that the query reads.
    pub closed spec fn storage(&self) -> &'a EntityStorage {
        self.entity_storage
    }

    /// The accumulated filter mask.
    pub closed spec fn filter(&self) -> u32 {
        self.filter_mask
    }

    /// The component types of the filter, in the order in which they were
    /// added.
    pub closed spec fn types(&self) -> Seq<TypeId> {
        self.component_type_ids@
    }

    /// The invariant of a query: its table is well formed, every type of the
    /// filter is registered there, and the mask is the union of their bits.
    pub open spec fn wf(&self) -> bool {
        &&& self.table().wf()
        &&& self.table() == self.storage()@
        &&& forall|i: int|
            0 <= i < self.types().len() ==> self.table().is_registered(#[trigger] self.types()[i])
        &&& self.filter() == self.table().filter_of(self.types())
    }

    /// A query on `entity_storage` with an empty filter, which every row
    /// matches.
    pub fn new(entity_storage: &'a EntityStorage) -> (query: Self)
        requires
            entity_storage.wf(),
        ensures
            query.wf(),
            query.storage() == entity_storage,
            query.filter() == 0,
            query.types() == Seq::<TypeId>::empty(),
    {
        Self { entity_storage, filter_mask: 0, component_type_ids: vec![] }
    }

    /// The accumulated filter mask.
    pub fn filter_mask(&self) -> (mask: u32)
        ensures
            mask == self.filter(),
    {
        self.filter_mask
    }

    /// The component types of the filter, in the order in which they were
    /// added.
    pub fn component_type_ids(&self) -> (types: &Vec<TypeId>)
        ensures
            types@ == self.types(),
    {
        &self.component_type_ids
    }

    /// Adds the component type `key` to the filter.
    ///
    /// Fails with `ComponentNotRegistered`, and changes nothing, when `key`
    /// is not registered with the table.
    pub fn filter_on(&mut self, key: TypeId) -> (outcome: Result<(), ECSError>)
        requires
            old(self).wf(),
        ensures
            final(self).wf(),
            final(self).storage() == old(self).storage(),
            match old(self).table().bit_of(key) {
                Some(mask) => {
                    &&& outcome is Ok
                    &&& final(self).filter() == old(self).filter() | mask
                    &&& final(self).types() == old(self).types().push(key)
                },
                None => {
                    &&& outcome == Err::<(), ECSError>(ECSError::ComponentNotRegistered)
                    &&& final(self).filter() == old(self).filter()
                    &&& final(self).types() == old(self).types()
                },
            },
    {
        match self.entity_storage.get_bitmask(&key) {
            Some(bitmask) => {
                self.filter_mask |= bitmask;
                self.component_type_ids.push(key);
                proof {
                    assert(self.types().drop_last() == old(self).types());
                }
                Ok(())
            },
            None => Err(ECSError::ComponentNotRegistered),
        }
    }

    /// Adds the component type `T` to the filter, and hands the query back
    /// for the next addition.
    ///
    /// Fails as `filter_on` does.
    pub fn with_component_filter<T: 'static>(&mut self) -> (outcome: Result<&mut Self, ECSError>)
        requires
            old(self).wf(),
        ensures
            outcome matches Ok(query) ==> {
                &&& query.wf()
                &&& query.storage() == old(self).storage()
                &&& *final(self) == *final(query)
            },
            outcome matches Err(e) ==> {
                &&& e == ECSError::ComponentNotRegistered
                &&& final(self).wf()
                &&& final(self).storage() == old(self).storage()
                &&& final(self).filter() == old(self).filter()
                &&& final(self).types() == old(self).types()
            },
            exists|key: TypeId|
                match #[trigger] old(self).table().bit_of(key) {
                    Some(mask) => {
                        &&& outcome matches Ok(query)
                        &&& query.filter() == old(self).filter() | mask
                        &&& query.types() == old(self).types().push(key)
                    },
                    None => outcome is Err,
                },
    {
        let key = type_key::<T>();
        match self.filter_on(key) {
            Ok(()) => Ok(self),
            Err(e) => Err(e),
        }
    }

    /// The rows that match the filter, which are the rows whose mask has
    /// every bit of the filter mask set, in ascending order.
    fn matched_rows(&self) -> (ids: Vec<usize>)
        requires
            self.wf(),
        ensures
            ids@.len() == self.table().matching_rows(self.filter()).len(),
            forall|i: int|
                0 <= i < ids@.len() ==> #[trigger] ids@[i] == self.table().matching_rows(
                    self.filter(),
                )[i],
    {
        let rows = self.entity_storage.row_count();
        let mut ids: Vec<usize> = Vec::new();
        let mut row: usize = 0;
        while row < rows
            invariant
                self.wf(),
                rows == self.table().rows(),
                row <= rows,
                ids@.len() == matching_below(self.table().masks, self.filter(), row as int).len(),
                forall|i: int|
                    0 <= i < ids@.len() ==> #[trigger] ids@[i] == matching_below(
                        self.table().masks,
                        self.filter(),
                        row as int,
                    )[i],
            decreases rows - row,
        {
            if self.entity_storage.has_component(row, self.filter_mask) {
                ids.push(row);
            }
            row = row + 1;
        }
        ids
    }

    /// The components of the filter's type at position `k` that the rows
    /// `ids` carry, row by row. Every one of the rows matches the filter, so
    /// each of them carries the type.
    fn components_of(&self, k: usize, ids: &Vec<usize>) -> (kept: Vec<Component>)
        requires
            self.wf(),
            k < self.types().len(),
            forall|i: int|
                0 <= i < ids@.len() ==> #[trigger] ids@[i] < self.table().rows() && covers(
                    self.table().masks[ids@[i] as int],
                    self.filter(),
                ),
        ensures
            kept@.len() == ids@.len(),
            forall|i: int|
                0 <= i < ids@.len() ==> self.table().component_at(
                    ids@[i] as int,
                    self.types()[k as int],
                ) == Some(#[trigger] kept@[i]),
    {
        let key = self.component_type_ids[k];
        let mut kept: Vec<Component> = Vec::new();
        match self.entity_storage.position(&key) {
            None => {
                assert(false);
            },
            Some(column) => {
                let mut i: usize = 0;
                while i < ids.len()
                    invariant
                        self.wf(),
                        k < self.types().len(),
                        key == self.types()[k as int],
                        column == self.table().column_of(key),
                        column < self.table().types.len(),
                        forall|n: int|
                            0 <= n < ids@.len() ==> #[trigger] ids@[n] < self.table().rows()
                                && covers(self.table().masks[ids@[n] as int], self.filter()),
                        i <= ids@.len(),
                        kept@.len() == i,
                        forall|n: int|
                            0 <= n < i ==> self.table().component_at(ids@[n] as int, key) == Some(
                                #[trigger] kept@[n],
                            ),
                    decreases ids@.len() - i,
                {
                    let row = ids[i];
                    proof {
                        self.table().lemma_filter_of(self.types(), self.table().masks[row as int]);
                        assert(self.table().carries(row as int, column as int));
                    }
                    match self.entity_storage.component_in(column, row) {
                        Some(component) => {
                            kept.push(component.clone());
                        },
                        None => {
                            assert(false);
                        },
                    }
                    i = i + 1;
                }
            },
        }
        kept
    }

    /// Runs the query: the matching rows in ascending order, and for each
    /// type of the filter, in the filter's order, the components of those
    /// rows.
    pub fn run(&self) -> (result: QueryResult)
        requires
            self.wf(),
        ensures
            result.answers(self.table(), self.filter(), self.types()),
            result.ascending(),
            result.lists_the_matches(self.table(), self.filter()),
    {
        let matched_entity_ids = self.matched_rows();
        proof {
            let matching = self.table().matching_rows(self.filter());
            lemma_matching_below(self.table().masks, self.filter(), self.table().rows() as int);
            assert forall|i: int| 0 <= i < matched_entity_ids@.len() implies {
                &&& #[trigger] matched_entity_ids@[i] < self.table().rows()
                &&& covers(self.table().masks[matched_entity_ids@[i] as int], self.filter())
            } by {
                assert(0 <= matching[i] < self.table().rows());
            }
            assert forall|row: int|
                0 <= row < self.table().rows() && covers(
                    #[trigger] self.table().masks[row],
                    self.filter(),
                ) implies exists|i: int|
                0 <= i < matched_entity_ids@.len() && matched_entity_ids@[i] == row by {
                let i = choose|i: int| 0 <= i < matching.len() && matching[i] == row;
                assert(matched_entity_ids@[i] == row);
            }
        }
        let mut matched_components: Vec<Vec<Component>> = Vec::new();
        let mut k: usize = 0;
        while k < self.component_type_ids.len()
            invariant
                self.wf(),
                forall|i: int|
                    0 <= i < matched_entity_ids@.len() ==> #[trigger] matched_entity_ids@[i]
                        < self.table().rows() && covers(
                        self.table().masks[matched_entity_ids@[i] as int],
                        self.filter(),
                    ),
                k <= self.types().len(),
                matched_components@.len() == k,
                forall|j: int|
                    0 <= j < k ==> (#[trigger] matched_components@[j])@.len()
                        == matched_entity_ids@.len(),
                forall|j: int, i: int|
                    0 <= j < k && 0 <= i < matched_entity_ids@.len()
                        ==> self.table().component_at(
                        matched_entity_ids@[i] as int,
                        self.types()[j],
                    ) == Some(#[trigger] matched_components@[j]@[i]),
            decreases self.types().len() - k,
        {
            let components_to_keep = self.components_of(k, &matched_entity_ids);
            matched_components.push(components_to_keep);
            k = k + 1;
        }
        QueryResult { entity_ids: matched_entity_ids, components: matched_components }
    }

    /// One accessor per matching row, in ascending order of the rows.
    pub fn get_entities(&self) -> (entities: Vec<QueryEntity<'a>>)
        requires
            self.wf(),
        ensures
            entities@.len() == self.table().matching_rows(self.filter()).len(),
            forall|i: int|
                0 <= i < entities@.len() ==> (#[trigger] entities@[i]).id
                    == self.table().matching_rows(self.filter())[i] && entities@[i].entities
                    == self.storage(),
    {
        let rows = self.entity_storage.row_count();
        let mut entities: Vec<QueryEntity<'a>> = Vec::new();
        let mut entity_id: usize = 0;
        while entity_id < rows
            invariant
                self.wf(),
                rows == self.table().rows(),
                entity_id <= rows,
                entities@.len() == matching_below(
                    self.table().masks,
                    self.filter(),
                    entity_id as int,
                ).len(),
                forall|i: int|
                    0 <= i < entities@.len() ==> (#[trigger] entities@[i]).id == matching_below(
                        self.table().masks,
                        self.filter(),
                        entity_id as int,
                    )[i] && entities@[i].entities == self.storage(),
            decreases rows - entity_id,
        {
            if self.entity_storage.has_component(entity_id, self.filter_mask) {
                entities.push(QueryEntity::new(entity_id, self.entity_storage));
            }
            entity_id = entity_id + 1;
        }
        entities
    }
}

} // verus!
