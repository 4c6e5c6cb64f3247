//! Type-erased, shared component cells.

use crate::ecs_errors::ECSError;
use crate::type_key::type_key;
use std::any::Any;
use std::any::TypeId;
use std::cell::Ref;
use std::cell::RefCell;
use std::cell::RefMut;
use std::rc::Rc;
use vstd::prelude::*;

verus! {

/// `std::cell::Ref`, a shared view into a cell, carried through opaquely.
#[verifier::external_type_specification]
#[verifier::external_body]
#[verifier::reject_recursive_types(T)]
pub struct ExRef<'b, T: ?Sized>(Ref<'b, T>);

/// `std::cell::RefMut`, an exclusive view into a cell, carried through
/// opaquely.
#[verifier::external_type_specification]
#[verifier::external_body]
#[verifier::reject_recursive_types(T)]
pub struct ExRefMut<'b, T: ?Sized + 'b>(RefMut<'b, T>);

/// A reference-counted cell with runtime borrow tracking around a value whose
/// type has been erased. The verifier cannot express `dyn Any`, so the cell
/// is opaque to it; two handles are equal when they share one cell.
#[verifier::external_body]
#[derive(Debug)]
struct SharedCell {
    inner: Rc<RefCell<dyn Any>>,
}

/// A shared borrow of a cell's erased value, before it is narrowed to a type.
#[verifier::external_body]
struct ErasedRef<'b> {
    inner: Ref<'b, dyn Any>,
}

/// An exclusive borrow of a cell's erased value, before it is narrowed to a
/// type.
#[verifier::external_body]
struct ErasedRefMut<'b> {
    inner: RefMut<'b, dyn Any>,
}

/// Moves `value` into a fresh cell, `Rc::new(RefCell::new(value))`, and
/// erases its type.
#[verifier::external_body]
fn seal<T: 'static>(value: T) -> (cell: SharedCell) {
    SharedCell { inner: Rc::new(RefCell::new(value)) }
}

/// Calls `Rc::clone`: the new handle points at the same cell.
#[verifier::external_body]
fn share(cell: &SharedCell) -> (other: SharedCell)
    ensures
        other == *cell,
{
    SharedCell { inner: Rc::clone(&cell.inner) }
}

/// Calls `RefCell::try_borrow`, which gives no borrow while the cell is
/// exclusively borrowed. Whether it is depends on the guards alive at the
/// time, so nothing is claimed of the outcome.
#[verifier::external_body]
fn try_read<'b>(cell: &'b SharedCell) -> (guard: Option<ErasedRef<'b>>) {
    cell.inner.try_borrow().ok().map(|inner| ErasedRef { inner })
}

/// Calls `RefCell::try_borrow_mut`, which gives no borrow while any other
/// borrow of the cell is alive. Nothing is claimed of the outcome.
#[verifier::external_body]
fn try_write<'b>(cell: &'b SharedCell) -> (guard: Option<ErasedRefMut<'b>>) {
    cell.inner.try_borrow_mut().ok().map(|inner| ErasedRefMut { inner })
}

/// Calls `Ref::filter_map` with `<dyn Any>::downcast_ref::<T>`: the borrow
/// narrowed to `T`, or nothing when the value is of another type.
#[verifier::external_body]
fn narrow<'b, T: 'static>(guard: ErasedRef<'b>) -> (view: Option<Ref<'b, T>>) {
    Ref::filter_map(guard.inner, |value| value.downcast_ref::<T>()).ok()
}

/// Calls `RefMut::filter_map` with `<dyn Any>::downcast_mut::<T>`: the borrow
/// narrowed to `T`, or nothing when the value is of another type.
#[verifier::external_body]
fn narrow_mut<'b, T: 'static>(guard: ErasedRefMut<'b>) -> (view: Option<RefMut<'b, T>>) {
    RefMut::filter_map(guard.inner, |value| value.downcast_mut::<T>()).ok()
}

/// What a request for a view of a cell comes to. `attempt` is nothing when
/// the cell could not be borrowed, and holds nothing when the borrowed value
/// is not of the requested type.
pub fn view_outcome<V>(attempt: Option<Option<V>>) -> (outcome: Result<V, ECSError>)
    ensures
        outcome == match attempt {
            None => Err::<V, ECSError>(ECSError::ComponentBorrowed),
            Some(None) => Err(ECSError::DowncastToWrongType),
            Some(Some(view)) => Ok(view),
        },
{
    match attempt {
        None => Err(ECSError::ComponentBorrowed),
        Some(None) => Err(ECSError::DowncastToWrongType),
        Some(Some(view)) => Ok(view),
    }
}

/// One component value: the token of its type and the shared cell that holds
/// the value.
#[derive(Debug)]
pub struct Component {
    key: TypeId,
    cell: SharedCell,
}

impl Component {
    /// The token of the type this component was made from.
    pub closed spec fn key(&self) -> TypeId {
        self.key
    }

    /// Wraps `value` as a component of type `T`.
    pub fn new<T: 'static>(value: T) -> (component: Component) {
        Component { key: type_key::<T>(), cell: seal(value) }
    }

    /// The token of the type this component was made from.
    pub fn type_key(&self) -> (key: TypeId)
        ensures
            key == self.key(),
    {
        self.key
    }

    /// A shared view of the value as a `T`.
    ///
    /// Fails with `ComponentBorrowed` while the cell is exclusively borrowed,
    /// and with `DowncastToWrongType` when the value is not a `T`.
    pub fn read<'b, T: 'static>(&'b self) -> (view: Result<Ref<'b, T>, ECSError>)
        ensures
            view matches Err(e) ==> e == ECSError::ComponentBorrowed || e
                == ECSError::DowncastToWrongType,
    {
        view_outcome(
            match try_read(&self.cell) {
                None => None,
                Some(guard) => Some(narrow::<T>(guard)),
            },
        )
    }

    /// An exclusive view of the value as a `T`.
    ///
    /// Fails with `ComponentBorrowed` while any other view of the cell is
    /// alive, and with `DowncastToWrongType` when the value is not a `T`.
    pub fn write<'b, T: 'static>(&'b self) -> (view: Result<RefMut<'b, T>, ECSError>)
        ensures
            view matches Err(e) ==> e == ECSError::ComponentBorrowed || e
                == ECSError::DowncastToWrongType,
    {
        view_outcome(
            match try_write(&self.cell) {
                None => None,
                Some(guard) => Some(narrow_mut::<T>(guard)),
            },
        )
    }
}

impl Clone for Component {
    /// A second handle to the same cell.
    fn clone(&self) -> (other: Self)
        ensures
            other == *self,
    {
        Component { key: self.key, cell: share(&self.cell) }
    }
}

} // verus!
