//! The order aggregate: an order together with its delivery record, its
//! payment record and its line items, treated as one unit for persistence.
//!
//! Aggregate equality (`order_eq` and its exec counterpart `same_order`)
//! compares every field of the aggregate; generated row identifiers are an
//! implementation detail of the store and never appear here.

use vstd::prelude::*;

verus! {

/// Where and to whom an order is delivered. Owned by exactly one order.
pub struct Delivery {
    pub name: String,
    pub phone: String,
    pub zip: String,
    pub city: String,
    pub address: String,
    pub region: String,
    pub email: String,
}

/// How an order was paid. Owned by exactly one order, 1:1.
pub struct Payment {
    pub transaction: String,
    pub request_id: String,
    pub currency: String,
    pub provider: String,
    pub amount: i32,
    pub payment_dt: i64,
    pub bank: String,
    pub delivery_cost: i32,
    pub goods_total: i32,
    pub custom_fee: i32,
}

/// One line item of an order. Many items belong to exactly one order.
pub struct Item {
    pub chrt_id: i64,
    pub track_number: String,
    pub price: i32,
    pub rid: String,
    pub name: String,
    pub sale: i32,
    pub size: String,
    pub total_price: i32,
    pub nm_id: i64,
    pub brand: String,
    pub status: i32,
}

/// The full order aggregate.
pub struct Order {
    pub order_uid: String,
    pub track_number: String,
    pub entry: String,
    pub delivery: Delivery,
    pub payment: Payment,
    pub items: Vec<Item>,
    pub locale: String,
    pub internal_signature: String,
    pub customer_id: String,
    pub delivery_service: String,
    pub shardkey: String,
    pub sm_id: i32,
    pub date_created: String,
    pub oof_shard: String,
}

/// Field-for-field equality of two delivery records.
pub open spec fn delivery_eq(a: Delivery, b: Delivery) -> bool {
    &&& a.name@ == b.name@
    &&& a.phone@ == b.phone@
    &&& a.zip@ == b.zip@
    &&& a.city@ == b.city@
    &&& a.address@ == b.address@
    &&& a.region@ == b.region@
    &&& a.email@ == b.email@
}

/// Field-for-field equality of two payment records.
pub open spec fn payment_eq(a: Payment, b: Payment) -> bool {
    &&& a.transaction@ == b.transaction@
    &&& a.request_id@ == b.request_id@
    &&& a.currency@ == b.currency@
    &&& a.provider@ == b.provider@
    &&& a.amount == b.amount
    &&& a.payment_dt == b.payment_dt
    &&& a.bank@ == b.bank@
    &&& a.delivery_cost == b.delivery_cost
    &&& a.goods_total == b.goods_total
    &&& a.custom_fee == b.custom_fee
}

/// Field-for-field equality of two line items.
pub open spec fn item_eq(a: Item, b: Item) -> bool {
    &&& a.chrt_id == b.chrt_id
    &&& a.track_number@ == b.track_number@
    &&& a.price == b.price
    &&& a.rid@ == b.rid@
    &&& a.name@ == b.name@
    &&& a.sale == b.sale
    &&& a.size@ == b.size@
    &&& a.total_price == b.total_price
    &&& a.nm_id == b.nm_id
    &&& a.brand@ == b.brand@
    &&& a.status == b.status
}

/// Equality of two aggregates in every field, items compared in order.
pub open spec fn order_eq(a: Order, b: Order) -> bool {
    &&& a.order_uid@ == b.order_uid@
    &&& a.track_number@ == b.track_number@
    &&& a.entry@ == b.entry@
    &&& delivery_eq(a.delivery, b.delivery)
    &&& payment_eq(a.payment, b.payment)
    &&& a.items@.len() == b.items@.len()
    &&& forall|i: int| 0 <= i < a.items@.len() ==> item_eq(a.items@[i], b.items@[i])
    &&& a.locale@ == b.locale@
    &&& a.internal_signature@ == b.internal_signature@
    &&& a.customer_id@ == b.customer_id@
    &&& a.delivery_service@ == b.delivery_service@
    &&& a.shardkey@ == b.shardkey@
    &&& a.sm_id == b.sm_id
    &&& a.date_created@ == b.date_created@
    &&& a.oof_shard@ == b.oof_shard@
}

/// Decide `delivery_eq` on two delivery records.
pub fn same_delivery(a: &Delivery, b: &Delivery) -> (r: bool)
    ensures
        r == delivery_eq(*a, *b),
{
    a.name == b.name && a.phone == b.phone && a.zip == b.zip && a.city == b.city
        && a.address == b.address && a.region == b.region && a.email == b.email
}

/// Decide `payment_eq` on two payment records.
pub fn same_payment(a: &Payment, b: &Payment) -> (r: bool)
    ensures
        r == payment_eq(*a, *b),
{
    a.transaction == b.transaction && a.request_id == b.request_id
        && a.currency == b.currency && a.provider == b.provider && a.amount == b.amount
        && a.payment_dt == b.payment_dt && a.bank == b.bank
        && a.delivery_cost == b.delivery_cost && a.goods_total == b.goods_total
        && a.custom_fee == b.custom_fee
}

/// Decide `item_eq` on two line items.
pub fn same_item(a: &Item, b: &Item) -> (r: bool)
    ensures
        r == item_eq(*a, *b),
{
    a.chrt_id == b.chrt_id && a.track_number == b.track_number && a.price == b.price
        && a.rid == b.rid && a.name == b.name && a.sale == b.sale && a.size == b.size
        && a.total_price == b.total_price && a.nm_id == b.nm_id && a.brand == b.brand
        && a.status == b.status
}

/// Decide `order_eq` on two aggregates.
pub fn same_order(a: &Order, b: &Order) -> (r: bool)
    ensures
        r == order_eq(*a, *b),
{
    if a.items.len() != b.items.len() {
        return false;
    }
    let mut i: usize = 0;
    while i < a.items.len()
        invariant
            a.items@.len() == b.items@.len(),
            0 <= i <= a.items@.len(),
            forall|j: int| 0 <= j < i ==> item_eq(a.items@[j], b.items@[j]),
        decreases a.items@.len() - i,
    {
        if !same_item(&a.items[i], &b.items[i]) {
            return false;
        }
        i += 1;
    }
    a.order_uid == b.order_uid && a.track_number == b.track_number && a.entry == b.entry
        && same_delivery(&a.delivery, &b.delivery) && same_payment(&a.payment, &b.payment)
        && a.locale == b.locale && a.internal_signature == b.internal_signature
        && a.customer_id == b.customer_id && a.delivery_service == b.delivery_service
        && a.shardkey == b.shardkey && a.sm_id == b.sm_id && a.date_created == b.date_created
        && a.oof_shard == b.oof_shard
}

} // verus!
