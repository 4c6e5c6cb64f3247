//! The component table: registration of component types, allocation and
//! reuse of rows, and attachment and removal of components.

pub mod query;
pub mod query_entity;

use crate::bitmask::bit;
use crate::bitmask::bit_at;
use crate::bitmask::covers;
use crate::bitmask::mask_covers;
use crate::bitmask::MAX_COMPONENT_TYPES;
use crate::component::Component;
use crate::ecs_errors::failure;
use crate::ecs_errors::ECSError;
use crate::table::lemma_first_free_is;
use crate::table::TableView;
use crate::type_key::position_of;
use crate::type_key::type_key;
use std::any::TypeId;
use vstd::prelude::*;

verus! {

/// Appends an empty slot to every column.
fn push_empty_slots(columns: &mut Vec<Vec<Option<Component>>>)
    ensures
        final(columns)@.len() == old(columns)@.len(),
        forall|k: int|
            0 <= k < old(columns)@.len() ==> (#[trigger] final(columns)@[k])@
                == old(columns)@[k]@.push(None),
{
    let ghost before = columns@;
    let mut k: usize = 0;
    while k < columns.len()
        invariant
            columns@.len() == before.len(),
            k <= columns@.len(),
            forall|j: int| 0 <= j < k ==> (#[trigger] columns@[j])@ == before[j]@.push(None),
            forall|j: int| k <= j < columns@.len() ==> columns@[j] == before[j],
        decreases columns@.len() - k,
    {
        columns[k].push(None);
        k = k + 1;
    }
}

/// The table of components.
///
/// The type registered at position `k` owns bit `k` of every row's mask and
/// the column at position `k`. A row is live while its mask is not zero.
#[derive(Debug)]
pub struct EntityStorage {
    component_types: Vec<TypeId>,
    components: Vec<Vec<Option<Component>>>,
    entity_component_bitmasks: Vec<u32>,
    next_free_entity_id: usize,
}

impl View for EntityStorage {
    type V = TableView;

    closed spec fn view(&self) -> TableView {
        TableView {
            types: self.component_types@,
            columns: Seq::new(self.components@.len(), |k: int| self.components@[k]@),
            masks: self.entity_component_bitmasks@,
            cursor: self.next_free_entity_id as nat,
        }
    }
}

impl Default for EntityStorage {
    /// A table without types and without rows.
    fn default() -> (table: Self)
        ensures
            table.wf(),
            table@ == TableView::empty(),
    {
        let table = EntityStorage {
            component_types: Vec::new(),
            components: Vec::new(),
            entity_component_bitmasks: Vec::new(),
            next_free_entity_id: 0,
        };
        assert(table@.columns =~= Seq::empty());
        table
    }
}

impl EntityStorage {
    /// The invariant that every operation keeps.
    pub open spec fn wf(&self) -> bool {
        self@.wf()
    }

    /// Number of registered component types.
    pub fn component_count(&self) -> (count: usize)
        ensures
            count == self@.types.len(),
    {
        self.component_types.len()
    }

    /// Number of allocated rows, live and free.
    pub fn row_count(&self) -> (rows: usize)
        ensures
            rows == self@.rows(),
    {
        self.entity_component_bitmasks.len()
    }

    /// The row that `with_component` writes to.
    pub fn next_free_entity_id(&self) -> (row: usize)
        ensures
            row == self@.cursor,
    {
        self.next_free_entity_id
    }

    /// The mask of row `index`, if the row is allocated.
    pub fn entity_mask(&self, index: usize) -> (mask: Option<u32>)
        ensures
            mask == (if index < self@.rows() {
                Some(self@.masks[index as int])
            } else {
                None
            }),
    {
        if index < self.entity_component_bitmasks.len() {
            Some(self.entity_component_bitmasks[index])
        } else {
            None
        }
    }

    /// Whether `key` is registered.
    pub fn is_registered(&self, key: &TypeId) -> (registered: bool)
        ensures
            registered == self@.is_registered(*key),
    {
        position_of(&self.component_types, *key).is_some()
    }

    /// Length of the column of `key`, if `key` is registered.
    pub fn column_len(&self, key: &TypeId) -> (len: Option<usize>)
        requires
            self.wf(),
        ensures
            match len {
                Some(n) => self@.is_registered(*key) && n == self@.rows(),
                None => !self@.is_registered(*key),
            },
    {
        match self.position(key) {
            Some(k) => {
                assert(self@.columns[k as int].len() == self@.rows());
                Some(self.components[k].len())
            },
            None => None,
        }
    }

    /// The mask bit of `type_id`, if it is registered.
    pub fn get_bitmask(&self, type_id: &TypeId) -> (mask: Option<u32>)
        requires
            self.wf(),
        ensures
            mask == self@.bit_of(*type_id),
    {
        match self.position(type_id) {
            Some(k) => Some(bit_at(k)),
            None => None,
        }
    }

    /// The component of type `key` that row `index` carries, if any.
    pub fn component(&self, index: usize, key: &TypeId) -> (found: Option<&Component>)
        requires
            self.wf(),
        ensures
            match found {
                Some(component) => self@.component_at(index as int, *key) == Some(*component),
                None => self@.component_at(index as int, *key) is None,
            },
    {
        match self.position(key) {
            None => None,
            Some(k) => self.component_in(k, index),
        }
    }

    /// The component that row `index` carries in the column at position
    /// `k`, if any.
    pub(crate) fn component_in(&self, k: usize, index: usize) -> (found: Option<&Component>)
        requires
            self.wf(),
            k < self@.types.len(),
        ensures
            match found {
                Some(component) => index < self@.rows() && self@.carries(index as int, k as int)
                    && self@.columns[k as int][index as int] == Some(*component)
                    && component.key() == self@.types[k as int],
                None => !(index < self@.rows() && self@.carries(index as int, k as int)),
            },
    {
        if index < self.entity_component_bitmasks.len() && self.has_component(index, bit_at(k)) {
            assert(self@.carries(index as int, k as int));
            assert(self@.columns[k as int].len() == self@.rows());
            self.components[k][index].as_ref()
        } else {
            None
        }
    }

    /// The position at which `key` was registered, if it was.
    pub(crate) fn position(&self, key: &TypeId) -> (found: Option<usize>)
        requires
            self.wf(),
        ensures
            match found {
                Some(k) => self@.is_registered(*key) && k == self@.column_of(*key) && k
                    < self@.types.len(),
                None => !self@.is_registered(*key),
            },
    {
        let found = position_of(&self.component_types, *key);
        proof {
            if let Some(k) = found {
                self@.lemma_column_of(k as int);
            }
        }
        found
    }

    /// Registers the component type `key`: it gets the next unused bit and a
    /// column with an empty slot for every row.
    pub fn register_type(&mut self, key: TypeId)
        requires
            old(self).wf(),
            old(self)@.can_register(key),
        ensures
            final(self).wf(),
            final(self)@ == old(self)@.register(key),
            final(self)@.bit_of(key) == Some(bit(old(self)@.types.len() as int)),
    {
        let rows = self.entity_component_bitmasks.len();
        let mut column: Vec<Option<Component>> = Vec::new();
        let mut row: usize = 0;
        while row < rows
            invariant
                row <= rows,
                column@ == Seq::new(row as nat, |r: int| None::<Component>),
            decreases rows - row,
        {
            column.push(None);
            row = row + 1;
            assert(column@ =~= Seq::new(row as nat, |r: int| None::<Component>));
        }
        self.component_types.push(key);
        self.components.push(column);
        proof {
            assert(self@.columns =~= old(self)@.register(key).columns);
            old(self)@.lemma_register(key);
        }
    }

    /// Registers the component type `key`, unless it is registered already
    /// or 32 types are: then nothing changes. Returns whether the type was
    /// registered by this call.
    pub fn register_if_new(&mut self, key: TypeId) -> (registered: bool)
        requires
            old(self).wf(),
        ensures
            final(self).wf(),
            registered == old(self)@.can_register(key),
            final(self)@ == old(self)@.register_if_new(key),
    {
        if self.component_types.len() < MAX_COMPONENT_TYPES && !self.is_registered(&key) {
            self.register_type(key);
            true
        } else {
            false
        }
    }

    /// Registers the component type `T`, unless it is registered already or
    /// 32 types are: then nothing changes.
    pub fn register_component<T: 'static>(&mut self)
        requires
            old(self).wf(),
        ensures
            final(self).wf(),
            exists|key: TypeId| final(self)@ == #[trigger] old(self)@.register_if_new(key),
    {
        let _ = self.register_if_new(type_key::<T>());
    }

    /// Chooses the row for the next entity: the first free row, or a new row
    /// at the end when every row is live. Returns its index and moves the
    /// cursor to it.
    pub fn create_row(&mut self) -> (row: usize)
        requires
            old(self).wf(),
        ensures
            final(self).wf(),
            final(self)@ == old(self)@.create_row(),
            row == final(self)@.cursor,
            row < final(self)@.rows(),
            final(self)@.masks[row as int] == 0,
            forall|before: int| 0 <= before < row ==> old(self)@.masks[before] != 0,
            final(self)@.rows() == if row < old(self)@.rows() {
                old(self)@.rows()
            } else {
                old(self)@.rows() + 1
            },
    {
        let rows = self.entity_component_bitmasks.len();
        let mut index: usize = 0;
        while index < rows
            invariant
                *self == *old(self),
                old(self).wf(),
                rows == self.entity_component_bitmasks@.len(),
                index <= rows,
                forall|j: int| 0 <= j < index ==> self.entity_component_bitmasks@[j] != 0,
            decreases rows - index,
        {
            if self.entity_component_bitmasks[index] == 0 {
                proof {
                    lemma_first_free_is(self.entity_component_bitmasks@, index as int);
                    old(self)@.lemma_create_row();
                }
                self.next_free_entity_id = index;
                assert(self@.columns =~= old(self)@.columns);
                assert(self@ == old(self)@.create_row());
                return index;
            }
            index = index + 1;
        }
        proof {
            lemma_first_free_is(self.entity_component_bitmasks@, rows as int);
            old(self)@.lemma_create_row();
        }
        push_empty_slots(&mut self.components);
        self.entity_component_bitmasks.push(0);
        self.next_free_entity_id = rows;
        assert(self@.columns =~= old(self)@.create_row().columns);
        rows
    }

    /// Chooses the row for the next entity as `create_row` does, and hands
    /// the table back so that components can be attached in a chain.
    pub fn create_entity(&mut self) -> (table: &mut Self)
        requires
            old(self).wf(),
        ensures
            table.wf(),
            table@ == old(self)@.create_row(),
            *final(self) == *final(table),
    {
        let _ = self.create_row();
        self
    }

    /// Stores `component` in the slot of row `row` at position `k` and sets
    /// bit `k` of the row's mask.
    fn store(&mut self, k: usize, row: usize, component: Component)
        requires
            old(self).wf(),
            k < old(self)@.types.len(),
            old(self)@.types[k as int] == component.key(),
            row < old(self)@.rows(),
        ensures
            final(self).wf(),
            final(self)@ == old(self)@.put(row as int, component),
    {
        proof {
            old(self)@.lemma_column_of(k as int);
            old(self)@.lemma_put(row as int, component);
        }
        let mask = bit_at(k);
        self.components[k][row] = Some(component);
        self.entity_component_bitmasks[row] |= mask;
        assert(self@.columns =~= old(self)@.put(row as int, component).columns);
    }

    /// Attaches `component` to the cursor row.
    ///
    /// Fails with `ComponentNotRegistered` when the component's type is not
    /// registered, and otherwise with `CreateComponentNeverCalled` when the
    /// cursor does not point at an allocated row. A failure changes nothing.
    pub fn attach_component(&mut self, component: Component) -> (outcome: Result<(), ECSError>)
        requires
            old(self).wf(),
        ensures
            final(self).wf(),
            final(self)@ == old(self)@.attach(component),
            failure(outcome) == old(self)@.attach_error(component),
    {
        match self.position(&component.type_key()) {
            None => Err(ECSError::ComponentNotRegistered),
            Some(k) => {
                let row = self.next_free_entity_id;
                if row < self.entity_component_bitmasks.len() {
                    self.store(k, row, component);
                    Ok(())
                } else {
                    Err(ECSError::CreateComponentNeverCalled)
                }
            },
        }
    }

    /// Attaches `data` as a component of type `T` to the cursor row, and
    /// hands the table back for the next attachment.
    ///
    /// The failures are those of `attach_component`.
    pub fn with_component<T: 'static>(&mut self, data: T) -> (outcome: Result<&mut Self, ECSError>)
        requires
            old(self).wf(),
        ensures
            outcome matches Ok(table) ==> table.wf() && *final(self) == *final(table),
            outcome is Err ==> final(self).wf() && final(self)@ == old(self)@,
            exists|component: Component|
                {
                    &&& failure(outcome) == #[trigger] old(self)@.attach_error(component)
                    &&& outcome matches Ok(table) ==> table@ == old(self)@.attach(component)
                },
    {
        let component = Component::new(data);
        let ghost attached = component;
        match self.attach_component(component) {
            Ok(()) => {
                assert(old(self)@.attach_error(attached) is None);
                Ok(self)
            },
            Err(e) => {
                assert(old(self)@.attach_error(attached) == Some(e));
                Err(e)
            },
        }
    }

    /// Attaches `component` to row `row`.
    ///
    /// Fails with `ComponentNotRegistered` when the component's type is not
    /// registered, and otherwise with `EntityDoesNotExist` when `row` is not
    /// an allocated row. A failure changes nothing.
    pub fn attach_component_to_row(
        &mut self,
        row: usize,
        component: Component,
    ) -> (outcome: Result<(), ECSError>)
        requires
            old(self).wf(),
        ensures
            final(self).wf(),
            final(self)@ == old(self)@.attach_to_row(row as int, component),
            failure(outcome) == old(self)@.row_error(row as int, component.key()),
    {
        match self.position(&component.type_key()) {
            None => Err(ECSError::ComponentNotRegistered),
            Some(k) => {
                if row < self.entity_component_bitmasks.len() {
                    self.store(k, row, component);
                    Ok(())
                } else {
                    Err(ECSError::EntityDoesNotExist)
                }
            },
        }
    }

    /// Attaches `data` as a component of type `T` to row `index`.
    ///
    /// The failures are those of `attach_component_to_row`.
    pub fn add_component_to_entity<T: 'static>(
        &mut self,
        index: usize,
        data: T,
    ) -> (outcome: Result<(), ECSError>)
        requires
            old(self).wf(),
        ensures
            final(self).wf(),
            exists|component: Component|
                {
                    &&& final(self)@ == #[trigger] old(self)@.attach_to_row(index as int, component)
                    &&& failure(outcome) == old(self)@.row_error(index as int, component.key())
                },
    {
        let component = Component::new(data);
        let ghost attached = component;
        let outcome = self.attach_component_to_row(index, component);
        assert(self@ == old(self)@.attach_to_row(index as int, attached));
        outcome
    }

    /// Whether the mask of row `index` has every bit of `mask` set.
    pub(crate) fn has_component(&self, index: usize, mask: u32) -> (has: bool)
        requires
            index < self@.rows(),
        ensures
            has == covers(self@.masks[index as int], mask),
    {
        mask_covers(self.entity_component_bitmasks[index], mask)
    }

    /// Removes the type `key` from row `row`: its bit is cleared if it is
    /// set. The slot keeps its value, which no query reports any more.
    ///
    /// Fails with `ComponentNotRegistered` when `key` is not registered, and
    /// otherwise with `EntityDoesNotExist` when `row` is not an allocated
    /// row. A failure changes nothing.
    pub fn detach_component(&mut self, row: usize, key: TypeId) -> (outcome: Result<(), ECSError>)
        requires
            old(self).wf(),
        ensures
            final(self).wf(),
            final(self)@ == old(self)@.detach(row as int, key),
            failure(outcome) == old(self)@.row_error(row as int, key),
    {
        proof {
            old(self)@.lemma_detach(row as int, key);
        }
        match self.position(&key) {
            None => Err(ECSError::ComponentNotRegistered),
            Some(k) => {
                if row < self.entity_component_bitmasks.len() {
                    let mask = bit_at(k);
                    if self.has_component(row, mask) {
                        let before = self.entity_component_bitmasks[row];
                        assert(before ^ mask == before & !mask) by (bit_vector)
                            requires
                                before & mask == mask,
                        ;
                        self.entity_component_bitmasks[row] ^= mask;
                    } else {
                        let before = self.entity_component_bitmasks[row];
                        let ghost shift = k as u32;
                        assert(before == before & !mask) by (bit_vector)
                            requires
                                before & mask != mask,
                                mask == 1u32 << shift,
                                shift < 32,
                        ;
                    }
                    assert(self@.masks =~= old(self)@.detach(row as int, key).masks);
                    assert(self@.columns =~= old(self)@.columns);
                    Ok(())
                } else {
                    Err(ECSError::EntityDoesNotExist)
                }
            },
        }
    }

    /// Removes the component type `T` from row `index`.
    ///
    /// The failures are those of `detach_component`.
    pub fn remove_entity_component<T: 'static>(
        &mut self,
        index: usize,
    ) -> (outcome: Result<(), ECSError>)
        requires
            old(self).wf(),
        ensures
            final(self).wf(),
            exists|key: TypeId|
                {
                    &&& final(self)@ == #[trigger] old(self)@.detach(index as int, key)
                    &&& failure(outcome) == old(self)@.row_error(index as int, key)
                },
    {
        let key = type_key::<T>();
        let outcome = self.detach_component(index, key);
        assert(self@ == old(self)@.detach(index as int, key));
        outcome
    }

    /// Deletes row `index`: its mask becomes zero, and the row is free for
    /// the next `create_row`.
    ///
    /// Fails with `EntityDoesNotExist` when `index` is not an allocated row.
    pub fn remove_entity(&mut self, index: usize) -> (outcome: Result<(), ECSError>)
        requires
            old(self).wf(),
        ensures
            final(self).wf(),
            final(self)@ == old(self)@.delete_row(index as int),
            failure(outcome) == old(self)@.delete_error(index as int),
    {
        proof {
            old(self)@.lemma_delete_row(index as int);
        }
        if index < self.entity_component_bitmasks.len() {
            self.entity_component_bitmasks[index] = 0;
            assert(self@.columns =~= old(self)@.columns);
            Ok(())
        } else {
            Err(ECSError::EntityDoesNotExist)
        }
    }
}

} // verus!
