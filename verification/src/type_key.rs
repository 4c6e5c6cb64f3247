//! Runtime identity of component and resource types.

use std::any::TypeId;
use vstd::prelude::*;

verus! {

/// `std::any::TypeId`, carried through as an opaque token. Two tokens are the
/// same token exactly when they stand for the same type.
#[verifier::external_type_specification]
#[verifier::external_body]
pub struct ExTypeId(TypeId);

/// Calls `TypeId::of::<T>()`. Nothing is claimed of the token that comes
/// back: callers hand it on to functions that are specified for every token.
#[verifier::external_body]
pub(crate) fn type_key<T: 'static>() -> (key: TypeId) {
    TypeId::of::<T>()
}

/// Calls `==` of `TypeId`, which holds exactly of two tokens of one type.
#[verifier::external_body]
pub(crate) fn same_key(a: TypeId, b: TypeId) -> (same: bool)
    ensures
        same == (a == b),
{
    a == b
}

/// Position of `key` in `keys`, if it occurs.
pub fn position_of(keys: &Vec<TypeId>, key: TypeId) -> (found: Option<usize>)
    ensures
        match found {
            Some(i) => {
                &&& i < keys@.len()
                &&& keys@[i as int] == key
                &&& forall|j: int| 0 <= j < i ==> keys@[j] != key
            },
            None => !keys@.contains(key),
        },
{
    let mut i: usize = 0;
    while i < keys.len()
        invariant
            i <= keys@.len(),
            forall|j: int| 0 <= j < i ==> keys@[j] != key,
        decreases keys@.len() - i,
    {
        if same_key(keys[i], key) {
            return Some(i);
        }
        i = i + 1;
    }
    None
}

} // verus!
