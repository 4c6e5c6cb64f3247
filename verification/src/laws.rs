//! Laws of the table model that relate several operations.

use crate::bitmask::bit;
use crate::bitmask::covers;
use crate::bitmask::lemma_bit_distinct;
use crate::bitmask::lemma_clear_bit;
use crate::bitmask::lemma_covers_empty;
use crate::bitmask::lemma_mask_idempotent;
use crate::bitmask::lemma_set_bit;
use crate::component::Component;
use crate::table::lemma_first_free_from;
use crate::table::lemma_first_free_is;
use crate::table::lemma_matching_below;
use crate::table::TableView;
use std::any::TypeId;
use vstd::prelude::*;

verus! {

/// The table after the types of `keys` were registered one after the other,
/// each only if it was new and there was room for it.
pub open spec fn register_each(table: TableView, keys: Seq<TypeId>) -> TableView
    decreases keys.len(),
{
    if keys.len() == 0 {
        table
    } else {
        register_each(table, keys.drop_last()).register_if_new(keys.last())
    }
}

/// Registering any sequence of types keeps a table well formed and never
/// moves a type that is registered already.
pub proof fn lemma_register_each(table: TableView, keys: Seq<TypeId>)
    requires
        table.wf(),
    ensures
        register_each(table, keys).wf(),
        table.types.len() <= register_each(table, keys).types.len(),
        forall|key: TypeId| #[trigger]
            table.is_registered(key) ==> register_each(table, keys).is_registered(key)
                && register_each(table, keys).column_of(key) == table.column_of(key),
    decreases keys.len(),
{
    if keys.len() > 0 {
        let before = register_each(table, keys.drop_last());
        lemma_register_each(table, keys.drop_last());
        if before.can_register(keys.last()) {
            before.lemma_register(keys.last());
        }
        assert forall|key: TypeId| #[trigger] table.is_registered(key) implies register_each(
            table,
            keys,
        ).is_registered(key) && register_each(table, keys).column_of(key) == table.column_of(
            key,
        ) by {
            assert(before.is_registered(key));
        }
    }
}

/// Bits are assigned in the order of registration: in every well-formed
/// table the type at position `k` has the bit `1 << k`.
pub proof fn law_kth_type_has_kth_bit(table: TableView, k: int)
    requires
        table.wf(),
        0 <= k < table.types.len(),
    ensures
        table.bit_of(table.types[k]) == Some(bit(k)),
{
    table.lemma_column_of(k);
}

/// For every sequence of registrations on an empty table: a type that is new
/// when it arrives, while there is room, gets the bit `1 << n`, where `n` is
/// the number of distinct types registered before it, and it keeps that bit
/// through all later registrations.
pub proof fn law_registration_order(keys: Seq<TypeId>, i: int)
    requires
        0 <= i < keys.len(),
        register_each(TableView::empty(), keys.take(i)).can_register(keys[i]),
    ensures
        register_each(TableView::empty(), keys).wf(),
        register_each(TableView::empty(), keys).bit_of(keys[i]) == Some(
            bit(register_each(TableView::empty(), keys.take(i)).types.len() as int),
        ),
    decreases keys.len(),
{
    let empty = TableView::empty();
    TableView::lemma_empty_wf();
    lemma_register_each(empty, keys);
    let rest = keys.drop_last();
    let before = register_each(empty, rest);
    lemma_register_each(empty, rest);
    if i == keys.len() - 1 {
        assert(keys.take(i) =~= rest);
        before.lemma_register(keys.last());
    } else {
        assert(rest.take(i) =~= keys.take(i));
        assert(rest[i] == keys[i]);
        law_registration_order(rest, i);
        if before.can_register(keys.last()) {
            before.lemma_register(keys.last());
        }
    }
}

/// After a row was created and components `a` and then `b` were attached to
/// it, the row's mask is the union of the two types' bits, and no other row
/// has changed its mask.
pub proof fn law_attach_two(table: TableView, a: Component, b: Component)
    requires
        table.wf(),
        table.is_registered(a.key()),
        table.is_registered(b.key()),
    ensures
        ({
            let created = table.create_row();
            let after = created.attach(a).attach(b);
            &&& after.wf()
            &&& after.cursor == created.cursor
            &&& after.rows() == created.rows()
            &&& after.masks[created.cursor as int] == table.bit_of(a.key()).unwrap() | table.bit_of(
                b.key(),
            ).unwrap()
            &&& forall|row: int|
                0 <= row < table.rows() && row != created.cursor ==> after.masks[row]
                    == table.masks[row]
        }),
{
    let created = table.create_row();
    table.lemma_create_row();
    let first = created.attach(a);
    created.lemma_put(created.cursor as int, a);
    first.lemma_put(first.cursor as int, b);
    lemma_mask_idempotent(0, bit(table.column_of(a.key())));
}

/// While no row is free, every new row gets the next index: the rows that
/// exist keep their masks and components, and after a component was attached
/// to the new row the row created next lies just behind it.
pub proof fn law_rows_ascend(table: TableView, a: Component)
    requires
        table.wf(),
        table.is_registered(a.key()),
        forall|row: int| 0 <= row < table.rows() ==> table.masks[row] != 0,
    ensures
        ({
            let first = table.create_row();
            let second = first.attach(a).create_row();
            &&& first.cursor == table.rows()
            &&& first.rows() == table.rows() + 1
            &&& first.masks.take(table.rows() as int) == table.masks
            &&& second.cursor == first.cursor + 1
            &&& second.masks[first.cursor as int] == table.bit_of(a.key()).unwrap()
        }),
{
    let first = table.create_row();
    lemma_first_free_is(table.masks, table.rows() as int);
    table.lemma_create_row();
    assert(first.masks.take(table.rows() as int) =~= table.masks);
    let filled = first.attach(a);
    first.lemma_put(first.cursor as int, a);
    let k = table.column_of(a.key());
    lemma_mask_idempotent(0, bit(k));
    lemma_bit_distinct(k, k);
    assert forall|row: int| 0 <= row < filled.rows() implies filled.masks[row] != 0 by {
        if row < table.rows() {
            assert(filled.masks[row] == table.masks[row]);
        }
    }
    lemma_first_free_is(filled.masks, filled.rows() as int);
}

/// A deleted row is reused before any row is appended: after row `row` was
/// deleted, the next row created is the first free row, which is `row` or a
/// free row before it, and the table has not grown. The reused row carries
/// no component of any type until one is attached to it again.
pub proof fn law_deleted_row_is_reused(table: TableView, row: int)
    requires
        table.wf(),
        0 <= row < table.rows(),
    ensures
        ({
            let created = table.delete_row(row).create_row();
            &&& created.wf()
            &&& created.rows() == table.rows()
            &&& created.cursor <= row
            &&& (forall|j: int| 0 <= j < row ==> table.masks[j] != 0) ==> created.cursor == row
            &&& created.masks[created.cursor as int] == 0
            &&& forall|key: TypeId| created.component_at(created.cursor as int, key) is None
        }),
{
    let deleted = table.delete_row(row);
    table.lemma_delete_row(row);
    deleted.lemma_create_row();
    lemma_first_free_from(deleted.masks, 0);
    let created = deleted.create_row();
    if forall|j: int| 0 <= j < row ==> table.masks[j] != 0 {
        lemma_first_free_is(deleted.masks, row);
    }
    assert forall|key: TypeId| created.component_at(created.cursor as int, key) is None by {
        if created.is_registered(key) {
            created.lemma_registered(key);
            lemma_bit_distinct(created.column_of(key), created.column_of(key));
        }
    }
}

/// A component attached to a row is the one that the row then reports for
/// the component's type.
pub proof fn law_attached_is_visible(table: TableView, row: int, component: Component)
    requires
        table.wf(),
        table.is_registered(component.key()),
        0 <= row < table.rows(),
    ensures
        table.attach_to_row(row, component).component_at(row, component.key()) == Some(
            component,
        ),
{
    let k = table.column_of(component.key());
    table.lemma_registered(component.key());
    lemma_set_bit(table.masks[row], k, k);
}

/// Removing a component type from a row twice is the same as removing it
/// once.
pub proof fn law_detach_idempotent(table: TableView, row: int, key: TypeId)
    requires
        table.wf(),
    ensures
        table.detach(row, key).detach(row, key) == table.detach(row, key),
        table.detach(row, key).row_error(row, key) == table.row_error(row, key),
{
    if table.row_error(row, key) is None {
        let once = table.detach(row, key);
        let twice = once.detach(row, key);
        lemma_mask_idempotent(table.masks[row], bit(table.column_of(key)));
        assert(twice.masks =~= once.masks);
    }
}

/// After a component type was removed from a row, the row no longer reports
/// a component of that type, and reports what it did for every other type.
pub proof fn law_detached_is_hidden(table: TableView, row: int, key: TypeId, other: TypeId)
    requires
        table.wf(),
        table.row_error(row, key) is None,
    ensures
        table.detach(row, key).component_at(row, key) is None,
        other != key ==> table.detach(row, key).component_at(row, other) == table.component_at(
            row,
            other,
        ),
{
    let k = table.column_of(key);
    table.lemma_registered(key);
    lemma_clear_bit(table.masks[row], k, k);
    if other != key && table.is_registered(other) {
        table.lemma_registered(other);
        lemma_clear_bit(table.masks[row], k, table.column_of(other));
    }
}

/// A row matches a filter exactly when it carries every type of the filter:
/// rows that lack one of them are left out, and rows that carry more still
/// match.
pub proof fn law_superset_match(table: TableView, types: Seq<TypeId>, row: int)
    requires
        table.wf(),
        forall|i: int| 0 <= i < types.len() ==> table.is_registered(#[trigger] types[i]),
        0 <= row < table.rows(),
    ensures
        table.matching_rows(table.filter_of(types)).contains(row) <==> forall|i: int|
            0 <= i < types.len() ==> table.component_at(row, #[trigger] types[i]) is Some,
{
    let filter = table.filter_of(types);
    lemma_matching_below(table.masks, filter, table.rows() as int);
    table.lemma_filter_of(types, table.masks[row]);
    let matching = table.matching_rows(filter);
    if matching.contains(row) {
        let n = choose|n: int| 0 <= n < matching.len() && matching[n] == row;
        assert(covers(table.masks[matching[n]], filter));
        assert forall|i: int| 0 <= i < types.len() implies table.component_at(
            row,
            #[trigger] types[i],
        ) is Some by {
            table.lemma_registered(types[i]);
            assert(table.carries(row, table.column_of(types[i])));
        }
    }
    if forall|i: int|
        0 <= i < types.len() ==> table.component_at(row, #[trigger] types[i]) is Some {
        assert forall|i: int| 0 <= i < types.len() implies covers(
            table.masks[row],
            bit(table.column_of(#[trigger] types[i])),
        ) by {
            assert(table.component_at(row, types[i]) is Some);
        }
    }
}

/// A filter of two types is matched by the rows whose mask has both bits
/// set, and by no others.
pub proof fn law_filter_of_two(table: TableView, a: TypeId, b: TypeId, mask: u32)
    requires
        table.wf(),
        table.is_registered(a),
        table.is_registered(b),
    ensures
        table.filter_of(seq![a, b]) == table.bit_of(a).unwrap() | table.bit_of(b).unwrap(),
        covers(mask, table.filter_of(seq![a, b])) <==> covers(mask, table.bit_of(a).unwrap())
            && covers(mask, table.bit_of(b).unwrap()),
{
    let both = seq![a, b];
    table.lemma_registered(a);
    table.lemma_registered(b);
    assert(both.drop_last() =~= seq![a]);
    assert(seq![a].drop_last() =~= Seq::<TypeId>::empty());
    assert(table.filter_of(Seq::<TypeId>::empty()) == 0);
    assert(table.filter_of(seq![a]) == 0u32 | bit(table.column_of(a)));
    lemma_mask_idempotent(0, bit(table.column_of(a)));
    crate::bitmask::lemma_covers_union(mask, bit(table.column_of(a)), bit(table.column_of(b)));
}

/// The rows that a filter matches are listed in strictly ascending order,
/// each of them once.
pub proof fn law_matches_ascend(table: TableView, filter: u32)
    ensures
        forall|i: int, j: int|
            0 <= i < j < table.matching_rows(filter).len() ==> table.matching_rows(filter)[i]
                < table.matching_rows(filter)[j],
        forall|i: int|
            0 <= i < table.matching_rows(filter).len() ==> 0 <= #[trigger] table.matching_rows(
                filter,
            )[i] < table.rows(),
{
    lemma_matching_below(table.masks, filter, table.rows() as int);
}

/// A free row matches no filter that names a type, and every row matches the
/// empty filter.
pub proof fn law_free_row_is_hidden(mask: u32, filter: u32)
    ensures
        covers(0, filter) <==> filter == 0,
        covers(mask, 0),
{
    lemma_covers_empty(mask, filter);
}

} // verus!
