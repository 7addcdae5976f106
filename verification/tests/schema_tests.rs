use order_store::model::same_order;
use order_store::schema::{
    parse_order, DeliveryPayload, ItemPayload, OrderPayload, PaymentPayload,
};
use order_store::store::Store;

fn full_delivery() -> DeliveryPayload {
    DeliveryPayload {
        name: Some("n".to_string()),
        phone: Some("p".to_string()),
        zip: Some("z".to_string()),
        city: Some("c".to_string()),
        address: Some("a".to_string()),
        region: Some("r".to_string()),
        email: Some("e".to_string()),
    }
}

fn full_payment() -> PaymentPayload {
    PaymentPayload {
        transaction: Some("tx1".to_string()),
        request_id: Some("req".to_string()),
        currency: Some("USD".to_string()),
        provider: Some("p".to_string()),
        amount: Some(100),
        payment_dt: Some(1700000000),
        bank: Some("b".to_string()),
        delivery_cost: Some(10),
        goods_total: Some(90),
        custom_fee: Some(0),
    }
}

fn full_item() -> ItemPayload {
    ItemPayload {
        chrt_id: Some(1),
        track_number: Some("t1".to_string()),
        price: Some(90),
        rid: Some("r1".to_string()),
        name: Some("n1".to_string()),
        sale: Some(0),
        size: Some("M".to_string()),
        total_price: Some(90),
        nm_id: Some(1),
        brand: Some("B".to_string()),
        status: Some(1),
    }
}

fn full_payload() -> OrderPayload {
    OrderPayload {
        order_uid: Some("o1".to_string()),
        track_number: Some("t1".to_string()),
        entry: Some("e".to_string()),
        delivery: Some(full_delivery()),
        payment: Some(full_payment()),
        items: Some(vec![full_item()]),
        locale: Some("en".to_string()),
        internal_signature: Some("sig".to_string()),
        customer_id: Some("c1".to_string()),
        delivery_service: Some("ds".to_string()),
        shardkey: Some("1".to_string()),
        sm_id: Some(1),
        date_created: Some("2024-01-01".to_string()),
        oof_shard: Some("1".to_string()),
    }
}

#[test]
fn complete_payload_parses_with_exact_fields() {
    let o = parse_order(full_payload()).ok().expect("complete payload must parse");
    assert_eq!(o.order_uid, "o1");
    assert_eq!(o.track_number, "t1");
    assert_eq!(o.entry, "e");
    assert_eq!(o.delivery.name, "n");
    assert_eq!(o.delivery.email, "e");
    assert_eq!(o.payment.transaction, "tx1");
    assert_eq!(o.payment.request_id, "req");
    assert_eq!(o.payment.amount, 100);
    assert_eq!(o.payment.payment_dt, 1700000000);
    assert_eq!(o.payment.delivery_cost, 10);
    assert_eq!(o.payment.goods_total, 90);
    assert_eq!(o.payment.custom_fee, 0);
    assert_eq!(o.items.len(), 1);
    assert_eq!(o.items[0].chrt_id, 1);
    assert_eq!(o.items[0].size, "M");
    assert_eq!(o.internal_signature, "sig");
    assert_eq!(o.sm_id, 1);
    assert_eq!(o.date_created, "2024-01-01");
}

#[test]
fn omitted_default_fields_become_empty_strings() {
    let mut p = full_payload();
    p.internal_signature = None;
    if let Some(pay) = p.payment.as_mut() {
        pay.request_id = None;
    }
    let o = parse_order(p).ok().expect("defaulted fields are not mandatory");
    assert_eq!(o.internal_signature, "");
    assert_eq!(o.payment.request_id, "");
}

#[test]
fn missing_order_uid_rejected() {
    let mut p = full_payload();
    p.order_uid = None;
    assert!(parse_order(p).is_err());
}

#[test]
fn missing_delivery_section_rejected() {
    let mut p = full_payload();
    p.delivery = None;
    assert!(parse_order(p).is_err());
}

#[test]
fn missing_delivery_field_rejected() {
    let mut p = full_payload();
    if let Some(d) = p.delivery.as_mut() {
        d.phone = None;
    }
    assert!(parse_order(p).is_err());
}

#[test]
fn missing_payment_field_rejected() {
    let mut p = full_payload();
    if let Some(pay) = p.payment.as_mut() {
        pay.amount = None;
    }
    assert!(parse_order(p).is_err());
}

#[test]
fn missing_item_field_rejected() {
    let mut p = full_payload();
    if let Some(items) = p.items.as_mut() {
        items[0].rid = None;
    }
    assert!(parse_order(p).is_err());
}

#[test]
fn missing_items_collection_rejected() {
    let mut p = full_payload();
    p.items = None;
    assert!(parse_order(p).is_err());
}

#[test]
fn missing_sm_id_rejected() {
    let mut p = full_payload();
    p.sm_id = None;
    assert!(parse_order(p).is_err());
}

#[test]
fn missing_oof_shard_rejected() {
    let mut p = full_payload();
    p.oof_shard = None;
    assert!(parse_order(p).is_err());
}

#[test]
fn parsed_payload_round_trips_through_store() {
    // The write path end to end: the payload is accepted, stored, and the
    // aggregate read back equals the parsed one, field for field.
    let o = parse_order(full_payload()).ok().expect("complete payload must parse");
    let o2 = parse_order(full_payload()).ok().expect("complete payload must parse");
    let mut s = Store::new();
    s.add_order(&o);
    let out = s.get_orders();
    assert_eq!(out.len(), 1);
    assert!(same_order(&out[0], &o2));
    assert_eq!(out[0].order_uid, "o1");
    assert_eq!(out[0].payment.amount, 100);
    assert_eq!(out[0].items.len(), 1);
    assert_eq!(out[0].items[0].name, "n1");
}
