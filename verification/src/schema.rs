//! The serialization contract at the write boundary.
//!
//! An incoming write payload arrives with every field optional, exactly as
//! a decoder of the wire format hands it over. `parse_order` applies the
//! schema's presence policy: `internal_signature` and `request_id` default
//! to the empty string when absent; every other field is mandatory, and a
//! payload missing one is rejected before it ever reaches the store.

use vstd::prelude::*;
use crate::model::{Delivery, Item, Order, Payment};

verus! {

/// A write payload failed the schema's presence policy: a mandatory
/// field was absent.
pub struct MissingField;

/// Delivery section of a write payload, every field as received.
pub struct DeliveryPayload {
    pub name: Option<String>,
    pub phone: Option<String>,
    pub zip: Option<String>,
    pub city: Option<String>,
    pub address: Option<String>,
    pub region: Option<String>,
    pub email: Option<String>,
}

/// Payment section of a write payload, every field as received.
pub struct PaymentPayload {
    pub transaction: Option<String>,
    pub request_id: Option<String>,
    pub currency: Option<String>,
    pub provider: Option<String>,
    pub amount: Option<i32>,
    pub payment_dt: Option<i64>,
    pub bank: Option<String>,
    pub delivery_cost: Option<i32>,
    pub goods_total: Option<i32>,
    pub custom_fee: Option<i32>,
}

/// One line item of a write payload, every field as received.
pub struct ItemPayload {
    pub chrt_id: Option<i64>,
    pub track_number: Option<String>,
    pub price: Option<i32>,
    pub rid: Option<String>,
    pub name: Option<String>,
    pub sale: Option<i32>,
    pub size: Option<String>,
    pub total_price: Option<i32>,
    pub nm_id: Option<i64>,
    pub brand: Option<String>,
    pub status: Option<i32>,
}

/// A whole write payload, every field as received.
pub struct OrderPayload {
    pub order_uid: Option<String>,
    pub track_number: Option<String>,
    pub entry: Option<String>,
    pub delivery: Option<DeliveryPayload>,
    pub payment: Option<PaymentPayload>,
    pub items: Option<Vec<ItemPayload>>,
    pub locale: Option<String>,
    pub internal_signature: Option<String>,
    pub customer_id: Option<String>,
    pub delivery_service: Option<String>,
    pub shardkey: Option<String>,
    pub sm_id: Option<i32>,
    pub date_created: Option<String>,
    pub oof_shard: Option<String>,
}

/// Every mandatory delivery field is present.
pub open spec fn delivery_complete(p: DeliveryPayload) -> bool {
    &&& p.name is Some
    &&& p.phone is Some
    &&& p.zip is Some
    &&& p.city is Some
    &&& p.address is Some
    &&& p.region is Some
    &&& p.email is Some
}

/// Every mandatory payment field is present; `request_id` is never required.
pub open spec fn payment_complete(p: PaymentPayload) -> bool {
    &&& p.transaction is Some
    &&& p.currency is Some
    &&& p.provider is Some
    &&& p.amount is Some
    &&& p.payment_dt is Some
    &&& p.bank is Some
    &&& p.delivery_cost is Some
    &&& p.goods_total is Some
    &&& p.custom_fee is Some
}

/// Every field of a line item is present; all of them are mandatory.
pub open spec fn item_complete(p: ItemPayload) -> bool {
    &&& p.chrt_id is Some
    &&& p.track_number is Some
    &&& p.price is Some
    &&& p.rid is Some
    &&& p.name is Some
    &&& p.sale is Some
    &&& p.size is Some
    &&& p.total_price is Some
    &&& p.nm_id is Some
    &&& p.brand is Some
    &&& p.status is Some
}

/// Every mandatory field of the payload is present; `internal_signature`
/// and `request_id` are never required.
pub open spec fn order_complete(p: OrderPayload) -> bool {
    &&& p.order_uid is Some
    &&& p.track_number is Some
    &&& p.entry is Some
    &&& p.delivery is Some
    &&& delivery_complete(p.delivery->0)
    &&& p.payment is Some
    &&& payment_complete(p.payment->0)
    &&& p.items is Some
    &&& forall|i: int|
        0 <= i < p.items->0@.len() ==> item_complete(#[trigger] p.items->0@[i])
    &&& p.locale is Some
    &&& p.customer_id is Some
    &&& p.delivery_service is Some
    &&& p.shardkey is Some
    &&& p.sm_id is Some
    &&& p.date_created is Some
    &&& p.oof_shard is Some
}

/// The delivery record carries exactly the payload's fields.
pub open spec fn parsed_delivery(d: Delivery, p: DeliveryPayload) -> bool {
    &&& d.name == p.name->0
    &&& d.phone == p.phone->0
    &&& d.zip == p.zip->0
    &&& d.city == p.city->0
    &&& d.address == p.address->0
    &&& d.region == p.region->0
    &&& d.email == p.email->0
}

/// The payment record carries exactly the payload's fields, with
/// `request_id` empty where the payload omitted it.
pub open spec fn parsed_payment(m: Payment, p: PaymentPayload) -> bool {
    &&& m.transaction == p.transaction->0
    &&& if p.request_id is Some {
        m.request_id == p.request_id->0
    } else {
        m.request_id@ == Seq::<char>::empty()
    }
    &&& m.currency == p.currency->0
    &&& m.provider == p.provider->0
    &&& m.amount == p.amount->0
    &&& m.payment_dt == p.payment_dt->0
    &&& m.bank == p.bank->0
    &&& m.delivery_cost == p.delivery_cost->0
    &&& m.goods_total == p.goods_total->0
    &&& m.custom_fee == p.custom_fee->0
}

/// The line item carries exactly the payload's fields.
pub open spec fn parsed_item(it: Item, p: ItemPayload) -> bool {
    &&& it.chrt_id == p.chrt_id->0
    &&& it.track_number == p.track_number->0
    &&& it.price == p.price->0
    &&& it.rid == p.rid->0
    &&& it.name == p.name->0
    &&& it.sale == p.sale->0
    &&& it.size == p.size->0
    &&& it.total_price == p.total_price->0
    &&& it.nm_id == p.nm_id->0
    &&& it.brand == p.brand->0
    &&& it.status == p.status->0
}

/// The aggregate carries exactly the payload's fields, with
/// `internal_signature` and `request_id` empty where the payload
/// omitted them.
pub open spec fn parsed_order(o: Order, p: OrderPayload) -> bool {
    &&& o.order_uid == p.order_uid->0
    &&& o.track_number == p.track_number->0
    &&& o.entry == p.entry->0
    &&& parsed_delivery(o.delivery, p.delivery->0)
    &&& parsed_payment(o.payment, p.payment->0)
    &&& o.items@.len() == p.items->0@.len()
    &&& forall|i: int|
        0 <= i < o.items@.len() ==> parsed_item(#[trigger] o.items@[i], p.items->0@[i])
    &&& o.locale == p.locale->0
    &&& if p.internal_signature is Some {
        o.internal_signature == p.internal_signature->0
    } else {
        o.internal_signature@ == Seq::<char>::empty()
    }
    &&& o.customer_id == p.customer_id->0
    &&& o.delivery_service == p.delivery_service->0
    &&& o.shardkey == p.shardkey->0
    &&& o.sm_id == p.sm_id->0
    &&& o.date_created == p.date_created->0
    &&& o.oof_shard == p.oof_shard->0
}

/// Apply the presence policy to a delivery section.
fn parse_delivery(p: DeliveryPayload) -> (r: Result<Delivery, MissingField>)
    ensures
        r is Ok <==> delivery_complete(p),
        r is Ok ==> parsed_delivery(r->Ok_0, p),
{
    let DeliveryPayload { name, phone, zip, city, address, region, email } = p;
    let name = match name {
        Some(v) => v,
        None => { return Err(MissingField); },
    };
    let phone = match phone {
        Some(v) => v,
        None => { return Err(MissingField); },
    };
    let zip = match zip {
        Some(v) => v,
        None => { return Err(MissingField); },
    };
    let city = match city {
        Some(v) => v,
        None => { return Err(MissingField); },
    };
    let address = match address {
        Some(v) => v,
        None => { return Err(MissingField); },
    };
    let region = match region {
        Some(v) => v,
        None => { return Err(MissingField); },
    };
    let email = match email {
        Some(v) => v,
        None => { return Err(MissingField); },
    };
    Ok(Delivery { name, phone, zip, city, address, region, email })
}

/// Apply the presence policy to a payment section, defaulting
/// `request_id` to the empty string.
fn parse_payment(p: PaymentPayload) -> (r: Result<Payment, MissingField>)
    ensures
        r is Ok <==> payment_complete(p),
        r is Ok ==> parsed_payment(r->Ok_0, p),
{
    let PaymentPayload {
        transaction,
        request_id,
        currency,
        provider,
        amount,
        payment_dt,
        bank,
        delivery_cost,
        goods_total,
        custom_fee,
    } = p;
    let transaction = match transaction {
        Some(v) => v,
        None => { return Err(MissingField); },
    };
    let request_id = match request_id {
        Some(v) => v,
        None => String::new(),
    };
    let currency = match currency {
        Some(v) => v,
        None => { return Err(MissingField); },
    };
    let provider = match provider {
        Some(v) => v,
        None => { return Err(MissingField); },
    };
    let amount = match amount {
        Some(v) => v,
        None => { return Err(MissingField); },
    };
    let payment_dt = match payment_dt {
        Some(v) => v,
        None => { return Err(MissingField); },
    };
    let bank = match bank {
        Some(v) => v,
        None => { return Err(MissingField); },
    };
    let delivery_cost = match delivery_cost {
        Some(v) => v,
        None => { return Err(MissingField); },
    };
    let goods_total = match goods_total {
        Some(v) => v,
        None => { return Err(MissingField); },
    };
    let custom_fee = match custom_fee {
        Some(v) => v,
        None => { return Err(MissingField); },
    };
    Ok(Payment {
        transaction,
        request_id,
        currency,
        provider,
        amount,
        payment_dt,
        bank,
        delivery_cost,
        goods_total,
        custom_fee,
    })
}

/// Apply the presence policy to one line item.
fn parse_item(p: ItemPayload) -> (r: Result<Item, MissingField>)
    ensures
        r is Ok <==> item_complete(p),
        r is Ok ==> parsed_item(r->Ok_0, p),
{
    let ItemPayload {
        chrt_id,
        track_number,
        price,
        rid,
        name,
        sale,
        size,
        total_price,
        nm_id,
        brand,
        status,
    } = p;
    let chrt_id = match chrt_id {
        Some(v) => v,
        None => { return Err(MissingField); },
    };
    let track_number = match track_number {
        Some(v) => v,
        None => { return Err(MissingField); },
    };
    let price = match price {
        Some(v) => v,
        None => { return Err(MissingField); },
    };
    let rid = match rid {
        Some(v) => v,
        None => { return Err(MissingField); },
    };
    let name = match name {
        Some(v) => v,
        None => { return Err(MissingField); },
    };
    let sale = match sale {
        Some(v) => v,
        None => { return Err(MissingField); },
    };
    let size = match size {
        Some(v) => v,
        None => { return Err(MissingField); },
    };
    let total_price = match total_price {
        Some(v) => v,
        None => { return Err(MissingField); },
    };
    let nm_id = match nm_id {
        Some(v) => v,
        None => { return Err(MissingField); },
    };
    let brand = match brand {
        Some(v) => v,
        None => { return Err(MissingField); },
    };
    let status = match status {
        Some(v) => v,
        None => { return Err(MissingField); },
    };
    Ok(Item {
        chrt_id,
        track_number,
        price,
        rid,
        name,
        sale,
        size,
        total_price,
        nm_id,
        brand,
        status,
    })
}

/// Apply the schema's presence policy to a whole write payload.
///
/// Succeeds exactly when every mandatory field is present; the resulting
/// aggregate carries the payload's fields unchanged, with
/// `internal_signature` and `request_id` defaulted to the empty string
/// where the payload omitted them.
pub fn parse_order(p: OrderPayload) -> (r: Result<Order, MissingField>)
    ensures
        r is Ok <==> order_complete(p),
        r is Ok ==> parsed_order(r->Ok_0, p),
{
    let OrderPayload {
        order_uid,
        track_number,
        entry,
        delivery,
        payment,
        items,
        locale,
        internal_signature,
        customer_id,
        delivery_service,
        shardkey,
        sm_id,
        date_created,
        oof_shard,
    } = p;
    let order_uid = match order_uid {
        Some(v) => v,
        None => { return Err(MissingField); },
    };
    let track_number = match track_number {
        Some(v) => v,
        None => { return Err(MissingField); },
    };
    let entry = match entry {
        Some(v) => v,
        None => { return Err(MissingField); },
    };
    let delivery = match delivery {
        Some(v) => v,
        None => { return Err(MissingField); },
    };
    let delivery = match parse_delivery(delivery) {
        Ok(d) => d,
        Err(e) => { return Err(e); },
    };
    let payment = match payment {
        Some(v) => v,
        None => { return Err(MissingField); },
    };
    let payment = match parse_payment(payment) {
        Ok(m) => m,
        Err(e) => { return Err(e); },
    };
    let item_payloads = match items {
        Some(v) => v,
        None => { return Err(MissingField); },
    };
    let mut item_payloads = item_payloads;
    let ghost all_item_payloads = item_payloads@;
    let mut parsed_items: Vec<Item> = Vec::new();
    let mut i: usize = 0;
    let n = item_payloads.len();
    proof {
        assert(item_payloads@ =~= all_item_payloads.subrange(0, n as int));
    }
    while i < n
        invariant
            p.items is Some,
            all_item_payloads == p.items->0@,
            n == all_item_payloads.len(),
            item_payloads@ == all_item_payloads.subrange(i as int, n as int),
            0 <= i <= n,
            parsed_items@.len() == i,
            forall|j: int| 0 <= j < i ==> item_complete(#[trigger] all_item_payloads[j]),
            forall|j: int|
                0 <= j < i ==> parsed_item(#[trigger] parsed_items@[j], all_item_payloads[j]),
        decreases n - i,
    {
        let ip = item_payloads.remove(0);
        proof {
            assert(ip == all_item_payloads[i as int]);
        }
        let it = match parse_item(ip) {
            Ok(it) => it,
            Err(e) => {
                proof {
                    assert(!item_complete(p.items->0@[i as int]));
                }
                return Err(e);
            },
        };
        parsed_items.push(it);
        i += 1;
        proof {
            assert(item_payloads@ =~= all_item_payloads.subrange(i as int, n as int));
        }
    }
    let locale = match locale {
        Some(v) => v,
        None => { return Err(MissingField); },
    };
    let internal_signature = match internal_signature {
        Some(v) => v,
        None => String::new(),
    };
    let customer_id = match customer_id {
        Some(v) => v,
        None => { return Err(MissingField); },
    };
    let delivery_service = match delivery_service {
        Some(v) => v,
        None => { return Err(MissingField); },
    };
    let shardkey = match shardkey {
        Some(v) => v,
        None => { return Err(MissingField); },
    };
    let sm_id = match sm_id {
        Some(v) => v,
        None => { return Err(MissingField); },
    };
    let date_created = match date_created {
        Some(v) => v,
        None => { return Err(MissingField); },
    };
    let oof_shard = match oof_shard {
        Some(v) => v,
        None => { return Err(MissingField); },
    };
    Ok(Order {
        order_uid,
        track_number,
        entry,
        delivery,
        payment,
        items: parsed_items,
        locale,
        internal_signature,
        customer_id,
        delivery_service,
        shardkey,
        sm_id,
        date_created,
        oof_shard,
    })
}

} // verus!
