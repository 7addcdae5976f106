//! Persistence core for an order-tracking backend: the order aggregate
//! schema, the field-presence policy applied to incoming write payloads,
//! and the repository that decomposes an aggregate into normalized rows
//! on write and reconstitutes aggregates from those rows on read.

pub mod db;
pub mod model;
pub mod responses;
pub mod schema;
pub mod store;

pub use db::db_model;
pub use model::{Delivery, Item, Order, Payment};
pub use schema::{DeliveryPayload, ItemPayload, MissingField, OrderPayload, PaymentPayload};
pub use store::{Snapshot, Store};
