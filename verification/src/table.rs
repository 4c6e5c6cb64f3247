//! The mathematical model of the component table and of its operations.
//!
//! The executable table refines this model: every operation's contract says
//! that the table's view after the call is the model's result on the view
//! before it.

use crate::bitmask::bit;
use crate::bitmask::covers;
use crate::bitmask::lemma_bit_distinct;
use crate::bitmask::lemma_clear_bit;
use crate::bitmask::lemma_covers_empty;
use crate::bitmask::lemma_covers_union;
use crate::bitmask::lemma_set_bit;
use crate::component::Component;
use crate::ecs_errors::ECSError;
use std::any::TypeId;
use vstd::prelude::*;

verus! {

/// A table as plain data.
pub ghost struct TableView {
    /// The registered component types, in the order of registration. The
    /// type at position `k` owns mask bit `k` and column `k`.
    pub types: Seq<TypeId>,
    /// One column of slots per registered type, parallel across rows.
    pub columns: Seq<Seq<Option<Component>>>,
    /// One mask per row: which component types the row carries.
    pub masks: Seq<u32>,
    /// The row that cursor-based attachment writes to.
    pub cursor: nat,
}

/// The first position at or after `start` whose mask is zero, or the length
/// of `masks` when there is none.
pub open spec fn first_free_from(masks: Seq<u32>, start: int) -> int
    decreases masks.len() - start,
{
    if start < 0 || start >= masks.len() {
        masks.len() as int
    } else if masks[start] == 0 {
        start
    } else {
        first_free_from(masks, start + 1)
    }
}

/// The first free row, or the number of rows when every row is live.
pub open spec fn first_free(masks: Seq<u32>) -> int {
    first_free_from(masks, 0)
}

impl TableView {
    /// The table with no types and no rows.
    pub open spec fn empty() -> TableView {
        TableView { types: Seq::empty(), columns: Seq::empty(), masks: Seq::empty(), cursor: 0 }
    }

    /// Number of allocated rows.
    pub open spec fn rows(self) -> nat {
        self.masks.len()
    }

    /// Whether row `row` carries the component type registered at position
    /// `k`.
    pub open spec fn carries(self, row: int, k: int) -> bool {
        covers(self.masks[row], bit(k))
    }

    /// The invariant of a table: one column per type, at most 32 types, no
    /// type twice, every column as long as there are rows, every stored
    /// value in the column of its own type, and every bit that is set in a
    /// row's mask backed by a registered type and a filled slot.
    pub open spec fn wf(self) -> bool {
        &&& self.types.len() == self.columns.len()
        &&& self.types.len() <= 32
        &&& self.types.no_duplicates()
        &&& forall|k: int|
            0 <= k < self.columns.len() ==> (#[trigger] self.columns[k]).len() == self.masks.len()
        &&& forall|k: int, row: int|
            0 <= k < self.columns.len() && 0 <= row < self.masks.len() ==> (
            #[trigger] self.columns[k][row] matches Some(c) ==> c.key() == self.types[k])
        &&& forall|row: int, k: int|
            0 <= row < self.masks.len() && 0 <= k < 32 && #[trigger] self.carries(row, k) ==> k
                < self.types.len() && self.columns[k][row] is Some
    }

    /// Whether `key` has been registered.
    pub open spec fn is_registered(self, key: TypeId) -> bool {
        self.types.contains(key)
    }

    /// The position at which `key` was registered.
    pub open spec fn column_of(self, key: TypeId) -> int
        recommends
            self.is_registered(key),
    {
        self.types.index_of(key)
    }

    /// The mask bit of `key`, if it is registered.
    pub open spec fn bit_of(self, key: TypeId) -> Option<u32> {
        if self.is_registered(key) {
            Some(bit(self.column_of(key)))
        } else {
            None
        }
    }

    /// The component of type `key` that row `row` carries, if any. A value
    /// left behind under a cleared bit is not reported.
    pub open spec fn component_at(self, row: int, key: TypeId) -> Option<Component> {
        if self.is_registered(key) && 0 <= row < self.rows() && self.carries(
            row,
            self.column_of(key),
        ) {
            self.columns[self.column_of(key)][row]
        } else {
            None
        }
    }

    /// Whether one more type, `key`, can be registered.
    pub open spec fn can_register(self, key: TypeId) -> bool {
        !self.is_registered(key) && self.types.len() < 32
    }

    /// Registration of `key`: it takes the next position, and with it the
    /// next bit, and gets a column of empty slots.
    pub open spec fn register(self, key: TypeId) -> TableView
        recommends
            self.can_register(key),
    {
        TableView {
            types: self.types.push(key),
            columns: self.columns.push(Seq::new(self.rows(), |row: int| None)),
            ..self
        }
    }

    /// Registration of `key` where that is possible, and no change where it
    /// is not.
    pub open spec fn register_if_new(self, key: TypeId) -> TableView {
        if self.can_register(key) {
            self.register(key)
        } else {
            self
        }
    }

    /// Allocation of a row: the first free row is reused; only when every
    /// row is live is a new row appended to the masks and to every column.
    /// The cursor moves to the chosen row.
    pub open spec fn create_row(self) -> TableView {
        let chosen = first_free(self.masks);
        if chosen < self.rows() {
            TableView { cursor: chosen as nat, ..self }
        } else {
            TableView {
                columns: Seq::new(self.columns.len(), |k: int| self.columns[k].push(None)),
                masks: self.masks.push(0),
                cursor: self.rows(),
                ..self
            }
        }
    }

    /// Row `row` with `component` stored in the column of its type and the
    /// type's bit set.
    pub open spec fn put(self, row: int, component: Component) -> TableView
        recommends
            self.is_registered(component.key()),
            0 <= row < self.rows(),
    {
        let k = self.column_of(component.key());
        TableView {
            columns: self.columns.update(k, self.columns[k].update(row, Some(component))),
            masks: self.masks.update(row, self.masks[row] | bit(k)),
            ..self
        }
    }

    /// Why attaching `component` at the cursor is refused, if it is.
    pub open spec fn attach_error(self, component: Component) -> Option<ECSError> {
        if !self.is_registered(component.key()) {
            Some(ECSError::ComponentNotRegistered)
        } else if self.cursor >= self.rows() {
            Some(ECSError::CreateComponentNeverCalled)
        } else {
            None
        }
    }

    /// Attachment of `component` to the cursor row.
    pub open spec fn attach(self, component: Component) -> TableView {
        if self.attach_error(component) is None {
            self.put(self.cursor as int, component)
        } else {
            self
        }
    }

    /// Why an operation on row `row` and type `key` is refused, if it is.
    pub open spec fn row_error(self, row: int, key: TypeId) -> Option<ECSError> {
        if !self.is_registered(key) {
            Some(ECSError::ComponentNotRegistered)
        } else if !(0 <= row < self.rows()) {
            Some(ECSError::EntityDoesNotExist)
        } else {
            None
        }
    }

    /// Attachment of `component` to row `row`.
    pub open spec fn attach_to_row(self, row: int, component: Component) -> TableView {
        if self.row_error(row, component.key()) is None {
            self.put(row, component)
        } else {
            self
        }
    }

    /// Removal of the type `key` from row `row`: the bit is cleared, the slot
    /// keeps its value.
    pub open spec fn detach(self, row: int, key: TypeId) -> TableView {
        if self.row_error(row, key) is None {
            TableView {
                masks: self.masks.update(row, self.masks[row] & !bit(self.column_of(key))),
                ..self
            }
        } else {
            self
        }
    }

    /// Why deleting row `row` is refused, if it is.
    pub open spec fn delete_error(self, row: int) -> Option<ECSError> {
        if 0 <= row < self.rows() {
            None
        } else {
            Some(ECSError::EntityDoesNotExist)
        }
    }

    /// Deletion of row `row`: its mask becomes zero, which frees the row.
    pub open spec fn delete_row(self, row: int) -> TableView {
        if 0 <= row < self.rows() {
            TableView { masks: self.masks.update(row, 0), ..self }
        } else {
            self
        }
    }

    /// Why looking up the component of type `key` in row `row` is refused,
    /// if it is: the type is unknown, or the row does not carry it.
    pub open spec fn lookup_error(self, row: int, key: TypeId) -> Option<ECSError> {
        if !self.is_registered(key) {
            Some(ECSError::ComponentNotRegistered)
        } else if self.component_at(row, key) is None {
            Some(ECSError::ComponentDoesNotExist)
        } else {
            None
        }
    }

    /// The filter mask of a list of registered types: the union of their
    /// bits.
    pub open spec fn filter_of(self, types: Seq<TypeId>) -> u32
        decreases types.len(),
    {
        if types.len() == 0 {
            0
        } else {
            self.filter_of(types.drop_last()) | bit(self.column_of(types.last()))
        }
    }

    /// The rows whose mask covers `filter`, in ascending order.
    pub open spec fn matching_rows(self, filter: u32) -> Seq<int> {
        matching_below(self.masks, filter, self.masks.len() as int)
    }
}

/// The positions below `upto` whose mask covers `filter`, in ascending order.
pub open spec fn matching_below(masks: Seq<u32>, filter: u32, upto: int) -> Seq<int>
    decreases upto,
{
    if upto <= 0 {
        Seq::empty()
    } else if upto <= masks.len() && covers(masks[upto - 1], filter) {
        matching_below(masks, filter, upto - 1).push(upto - 1)
    } else {
        matching_below(masks, filter, upto - 1)
    }
}

/// What `first_free_from` returns: a position from `start` on whose mask is
/// zero, with no zero mask between `start` and it, or the length.
pub proof fn lemma_first_free_from(masks: Seq<u32>, start: int)
    requires
        0 <= start <= masks.len(),
    ensures
        start <= first_free_from(masks, start) <= masks.len(),
        first_free_from(masks, start) < masks.len() ==> masks[first_free_from(masks, start)] == 0,
        forall|j: int| start <= j < first_free_from(masks, start) ==> masks[j] != 0,
    decreases masks.len() - start,
{
    if start < masks.len() && masks[start] != 0 {
        lemma_first_free_from(masks, start + 1);
    }
}

/// The first free row is the only position with a zero mask and none before
/// it; the number of rows is the answer only when no mask is zero.
pub proof fn lemma_first_free_is(masks: Seq<u32>, i: int)
    requires
        0 <= i <= masks.len(),
        forall|j: int| 0 <= j < i ==> masks[j] != 0,
        i < masks.len() ==> masks[i] == 0,
    ensures
        first_free(masks) == i,
{
    lemma_first_free_from(masks, 0);
}

impl TableView {
    /// In a table without duplicate types, the type at position `k` is
    /// registered at position `k`.
    pub proof fn lemma_column_of(self, k: int)
        requires
            self.types.no_duplicates(),
            0 <= k < self.types.len(),
        ensures
            self.is_registered(self.types[k]),
            self.column_of(self.types[k]) == k,
    {
        let i = self.types.index_of(self.types[k]);
        assert(self.types[i] == self.types[k]);
    }

    /// A registered type sits at its own position, which is below 32.
    pub proof fn lemma_registered(self, key: TypeId)
        requires
            self.wf(),
            self.is_registered(key),
        ensures
            0 <= self.column_of(key) < self.types.len(),
            self.types[self.column_of(key)] == key,
            self.column_of(key) < 32,
    {
    }

    /// The empty table is well formed.
    pub proof fn lemma_empty_wf()
        ensures
            TableView::empty().wf(),
    {
    }

    /// Registration keeps the table well formed and leaves the positions of
    /// the types registered before untouched.
    pub proof fn lemma_register(self, key: TypeId)
        requires
            self.wf(),
            self.can_register(key),
        ensures
            self.register(key).wf(),
            self.register(key).is_registered(key),
            self.register(key).column_of(key) == self.types.len(),
            forall|other: TypeId| #[trigger]
                self.is_registered(other) ==> self.register(key).is_registered(other)
                    && self.register(key).column_of(other) == self.column_of(other),
            forall|other: TypeId|
                other != key && !self.is_registered(other) ==> !(#[trigger] self.register(
                    key,
                ).is_registered(other)),
    {
        let after = self.register(key);
        let n = self.types.len() as int;
        assert(after.types.no_duplicates());
        assert(after.types[n] == key);
        after.lemma_column_of(n);
        assert forall|other: TypeId| #[trigger] self.is_registered(other) implies {
            &&& after.is_registered(other)
            &&& after.column_of(other) == self.column_of(other)
        } by {
            let k = self.column_of(other);
            assert(after.types[k] == other);
            after.lemma_column_of(k);
        }
        assert forall|row: int, k: int|
            0 <= row < after.masks.len() && 0 <= k < 32 && #[trigger] after.carries(
                row,
                k,
            ) implies k < after.types.len() && after.columns[k][row] is Some by {
            assert(self.carries(row, k));
        }
    }

    /// Allocating a row keeps the table well formed; the chosen row carries
    /// nothing.
    pub proof fn lemma_create_row(self)
        requires
            self.wf(),
        ensures
            self.create_row().wf(),
            self.create_row().cursor < self.create_row().rows(),
            self.create_row().masks[self.create_row().cursor as int] == 0,
            self.create_row().cursor == first_free(self.masks),
    {
        lemma_first_free_from(self.masks, 0);
        let after = self.create_row();
        if first_free(self.masks) >= self.rows() {
            assert forall|row: int, k: int|
                0 <= row < after.masks.len() && 0 <= k < 32 && #[trigger] after.carries(
                    row,
                    k,
                ) implies k < after.types.len() && after.columns[k][row] is Some by {
                if row < self.rows() {
                    assert(self.carries(row, k));
                } else {
                    lemma_bit_distinct(k, k);
                }
            }
            assert forall|k: int, row: int|
                0 <= k < after.columns.len() && 0 <= row < after.masks.len() implies (
            #[trigger] after.columns[k][row] matches Some(c) ==> c.key() == after.types[k]) by {
                if row < self.rows() {
                    assert(after.columns[k][row] == self.columns[k][row]);
                }
            }
        } else {
            assert forall|row: int, k: int|
                0 <= row < after.masks.len() && 0 <= k < 32 && #[trigger] after.carries(
                    row,
                    k,
                ) implies k < after.types.len() && after.columns[k][row] is Some by {
                assert(self.carries(row, k));
            }
        }
    }

    /// Storing a component of a registered type in an allocated row keeps
    /// the table well formed.
    pub proof fn lemma_put(self, row: int, component: Component)
        requires
            self.wf(),
            self.is_registered(component.key()),
            0 <= row < self.rows(),
        ensures
            self.put(row, component).wf(),
    {
        let after = self.put(row, component);
        let j = self.column_of(component.key());
        assert forall|r: int, k: int|
            0 <= r < after.masks.len() && 0 <= k < 32 && #[trigger] after.carries(
                r,
                k,
            ) implies k < after.types.len() && after.columns[k][r] is Some by {
            if r == row {
                lemma_set_bit(self.masks[row], j, k);
                if k != j {
                    assert(self.carries(r, k));
                }
            } else {
                assert(self.carries(r, k));
            }
        }
    }

    /// Removing a type from a row keeps the table well formed.
    pub proof fn lemma_detach(self, row: int, key: TypeId)
        requires
            self.wf(),
        ensures
            self.detach(row, key).wf(),
    {
        let after = self.detach(row, key);
        if self.row_error(row, key) is None {
            let j = self.column_of(key);
            assert forall|r: int, k: int|
                0 <= r < after.masks.len() && 0 <= k < 32 && #[trigger] after.carries(
                    r,
                    k,
                ) implies k < after.types.len() && after.columns[k][r] is Some by {
                if r == row {
                    lemma_clear_bit(self.masks[row], j, k);
                }
                assert(self.carries(r, k));
            }
        }
    }

    /// Deleting a row keeps the table well formed.
    pub proof fn lemma_delete_row(self, row: int)
        requires
            self.wf(),
        ensures
            self.delete_row(row).wf(),
    {
        let after = self.delete_row(row);
        if 0 <= row < self.rows() {
            assert forall|r: int, k: int|
                0 <= r < after.masks.len() && 0 <= k < 32 && #[trigger] after.carries(
                    r,
                    k,
                ) implies k < after.types.len() && after.columns[k][r] is Some by {
                if r == row {
                    lemma_bit_distinct(k, k);
                } else {
                    assert(self.carries(r, k));
                }
            }
        }
    }
}

/// What `matching_below` holds: exactly the positions below `upto` whose
/// mask covers the filter, each once, in strictly ascending order.
pub proof fn lemma_matching_below(masks: Seq<u32>, filter: u32, upto: int)
    requires
        0 <= upto <= masks.len(),
    ensures
        matching_below(masks, filter, upto).len() <= upto,
        forall|i: int|
            0 <= i < matching_below(masks, filter, upto).len() ==> {
                let row = #[trigger] matching_below(masks, filter, upto)[i];
                0 <= row < upto && covers(masks[row], filter)
            },
        forall|i: int, j: int|
            0 <= i < j < matching_below(masks, filter, upto).len() ==> matching_below(
                masks,
                filter,
                upto,
            )[i] < matching_below(masks, filter, upto)[j],
        forall|row: int|
            0 <= row < upto && covers(#[trigger] masks[row], filter) ==> matching_below(
                masks,
                filter,
                upto,
            ).contains(row),
    decreases upto,
{
    if upto > 0 {
        lemma_matching_below(masks, filter, upto - 1);
        let before = matching_below(masks, filter, upto - 1);
        let now = matching_below(masks, filter, upto);
        if covers(masks[upto - 1], filter) {
            assert(now == before.push(upto - 1));
            assert(now[before.len() as int] == upto - 1);
            assert forall|row: int|
                0 <= row < upto && covers(#[trigger] masks[row], filter) implies now.contains(
                row,
            ) by {
                if row < upto - 1 {
                    let i = choose|i: int| 0 <= i < before.len() && before[i] == row;
                    assert(now[i] == row);
                }
            }
        }
    }
}

impl TableView {
    /// A mask covers the filter of a list of registered types exactly when
    /// it covers the bit of each of them.
    pub proof fn lemma_filter_of(self, types: Seq<TypeId>, mask: u32)
        ensures
            covers(mask, self.filter_of(types)) <==> forall|i: int|
                0 <= i < types.len() ==> covers(mask, bit(self.column_of(#[trigger] types[i]))),
        decreases types.len(),
    {
        if types.len() == 0 {
            lemma_covers_empty(mask, 0);
        } else {
            let rest = types.drop_last();
            self.lemma_filter_of(rest, mask);
            lemma_covers_union(mask, self.filter_of(rest), bit(self.column_of(types.last())));
            if covers(mask, self.filter_of(types)) {
                assert forall|i: int| 0 <= i < types.len() implies covers(
                    mask,
                    bit(self.column_of(#[trigger] types[i])),
                ) by {
                    if i < rest.len() {
                        assert(rest[i] == types[i]);
                    }
                }
            }
            if forall|i: int|
                0 <= i < types.len() ==> covers(mask, bit(self.column_of(#[trigger] types[i]))) {
                assert forall|i: int| 0 <= i < rest.len() implies covers(
                    mask,
                    bit(self.column_of(#[trigger] rest[i])),
                ) by {
                    assert(rest[i] == types[i]);
                }
                assert(types.last() == types[types.len() - 1]);
            }
        }
    }
}

} // verus!
