use vstd::prelude::*;

verus! {

/// The failure conditions reported by the entity-component store.
///
/// Every error is returned as a typed value at the point of detection;
/// nothing is retried internally. `ResourceNotFound` and `DowncastError`
/// are never produced by the store itself: they are reserved for callers
/// (systems) that require a resource to be present or find that a stored
/// value is not of the kind they expected.
#[derive(Debug, Clone, Copy, PartialEq, Eq, Structural)]
pub enum JecsError {
    /// A required resource is absent (reported by callers, not the store).
    ResourceNotFound,
    /// A component write was attempted while no slot was open for insertion.
    CreateEntityNeverCalled,
    /// The component type was never registered with the store.
    ComponentNotRegistered,
    /// The slot index does not name an existing entity.
    EntityDoesNotExist,
    /// A stored value was not of the kind the caller expected
    /// (reported by callers, not the store).
    DowncastError,
}

} // verus!
