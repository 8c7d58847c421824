use vstd::prelude::*;

verus! {

/// The kinds of lifecycle checkpoint that can be logged against a product.
///
/// Event kinds carry no transition rules: any kind may be logged in any
/// order, any number of times. Only `Received` has a side effect beyond the
/// event counter: it transfers custody of the product to the caller.
#[derive(Debug, Clone, PartialEq, Eq, Structural)]
pub enum EventType {
    Created,
    Shipped,
    InTransit,
    Received,
    Inspected,
    Verified,
    Delivered,
}

/// The error kinds a registry operation can return.
///
/// `ProductAlreadyExists` and `InvalidEvent` are reserved extension points:
/// no current call path produces them, since callers never choose product
/// ids and event kinds carry no validation rules.
#[derive(Debug, Clone, PartialEq, Eq, Structural)]
pub enum PolkaTraceError {
    ProductAlreadyExists,
    UnauthorizedAccess,
    ProductNotFound,
    InvalidEvent,
}

} // verus!
