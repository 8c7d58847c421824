use vstd::prelude::*;

use crate::account::AccountId;
use crate::kinds::EventType;

verus! {

/// The record broadcast when a product is registered.
///
/// The notification transport is the environment's business: the registry
/// returns enough through its contracts for the surrounding code to build
/// and emit these records. `product_id` and `manufacturer` are topic
/// fields: observers must be able to filter on them efficiently.
#[derive(Debug, Clone, PartialEq, Eq, Structural)]
pub struct ProductRegistered {
    pub product_id: u128,
    pub manufacturer: AccountId,
}

/// The record broadcast for every successfully logged lifecycle event.
/// `product_id` and `actor` are topic fields.
#[derive(Debug, Clone, PartialEq, Eq, Structural)]
pub struct LifecycleEventLogged {
    pub product_id: u128,
    pub event_type: EventType,
    pub actor: AccountId,
}

/// The record broadcast when a `Received` event transfers custody.
/// All three fields are topic fields.
#[derive(Debug, Clone, PartialEq, Eq, Structural)]
pub struct OwnershipTransferred {
    pub product_id: u128,
    pub from: AccountId,
    pub to: AccountId,
}

} // verus!
