//! The failures that the store reports to its callers.

use vstd::prelude::*;

verus! {

/// Why an operation on the store was refused.
#[derive(Debug, Clone, Copy, PartialEq, Eq, Structural)]
pub enum ECSError {
    /// A component was attached through the insertion cursor while the cursor
    /// did not point at an allocated row.
    CreateComponentNeverCalled,
    /// The component type was never registered with the table.
    ComponentNotRegistered,
    /// The row index lies outside the allocated rows.
    EntityDoesNotExist,
    /// The row does not currently carry a component of the requested type.
    ComponentDoesNotExist,
    /// The stored value is not of the requested type.
    DowncastToWrongType,
    /// A resource of that type is already stored.
    ResourceAlreadyRegistered,
    /// The component is borrowed in a way that excludes the requested view.
    ComponentBorrowed,
}

impl ECSError {
    /// The text of the message for each kind of failure.
    pub open spec fn message_text(self) -> Seq<char> {
        match self {
            ECSError::CreateComponentNeverCalled =>
                "Attempted to add to an entity without calling create entity first."@,
            ECSError::ComponentNotRegistered =>
                "Attempted to reference a component that was not registered."@,
            ECSError::EntityDoesNotExist =>
                "Attempted to reference an entity that does not exist."@,
            ECSError::ComponentDoesNotExist =>
                "Attempted to reference component data that does not exist."@,
            ECSError::DowncastToWrongType => "Attempted to downcast to the wrong type."@,
            ECSError::ResourceAlreadyRegistered =>
                "Attempted to insert a resource of a type that is already stored."@,
            ECSError::ComponentBorrowed =>
                "Attempted to view a component while a conflicting view of it is alive."@,
        }
    }

    /// A human-readable description of the failure.
    pub fn message(&self) -> (text: String)
        ensures
            text@ == self.message_text(),
    {
        match self {
            ECSError::CreateComponentNeverCalled =>
                "Attempted to add to an entity without calling create entity first.".to_owned(),
            ECSError::ComponentNotRegistered =>
                "Attempted to reference a component that was not registered.".to_owned(),
            ECSError::EntityDoesNotExist =>
                "Attempted to reference an entity that does not exist.".to_owned(),
            ECSError::ComponentDoesNotExist =>
                "Attempted to reference component data that does not exist.".to_owned(),
            ECSError::DowncastToWrongType => "Attempted to downcast to the wrong type.".to_owned(),
            ECSError::ResourceAlreadyRegistered =>
                "Attempted to insert a resource of a type that is already stored.".to_owned(),
            ECSError::ComponentBorrowed =>
                "Attempted to view a component while a conflicting view of it is alive.".to_owned(),
        }
    }
}

/// The failure of an outcome, if it is one.
pub open spec fn failure<T>(outcome: Result<T, ECSError>) -> Option<ECSError> {
    match outcome {
        Ok(_) => None,
        Err(e) => Some(e),
    }
}

} // verus!
