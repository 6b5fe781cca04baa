//! Core logic of a small e-commerce service fleet: token claims, service
//! registry records, protocol classification, the inventory ledger, and the
//! order book with its transactional outbox.

pub mod demux;
pub mod error;
pub mod goods;
pub mod identity;
pub mod inventory;
pub mod inventory_registry;
pub mod order;
pub mod paging;
pub mod registry;
pub mod token;
