use order_store::model::{same_order, Delivery, Item, Order, Payment};
use order_store::store::Store;

fn sample_delivery() -> Delivery {
    Delivery {
        name: "Test Testov".to_string(),
        phone: "+9720000000".to_string(),
        zip: "2639809".to_string(),
        city: "Kiryat Mozkin".to_string(),
        address: "Ploshad Mira 15".to_string(),
        region: "Kraiot".to_string(),
        email: "test@gmail.com".to_string(),
    }
}

fn sample_payment() -> Payment {
    Payment {
        transaction: "b563feb7b2b84b6test".to_string(),
        request_id: "".to_string(),
        currency: "USD".to_string(),
        provider: "wbpay".to_string(),
        amount: 1817,
        payment_dt: 1637907727,
        bank: "alpha".to_string(),
        delivery_cost: 1500,
        goods_total: 317,
        custom_fee: 0,
    }
}

fn sample_item(chrt_id: i64) -> Item {
    Item {
        chrt_id,
        track_number: "WBILMTESTTRACK".to_string(),
        price: 453,
        rid: "ab4219087a764ae0btest".to_string(),
        name: "Mascaras".to_string(),
        sale: 30,
        size: "0".to_string(),
        total_price: 317,
        nm_id: 2389212,
        brand: "Vivienne Sabo".to_string(),
        status: 202,
    }
}

fn sample_order(uid: &str) -> Order {
    Order {
        order_uid: uid.to_string(),
        track_number: "WBILMTESTTRACK".to_string(),
        entry: "WBIL".to_string(),
        delivery: sample_delivery(),
        payment: sample_payment(),
        items: vec![sample_item(9934930), sample_item(9934931)],
        locale: "en".to_string(),
        internal_signature: "".to_string(),
        customer_id: "test".to_string(),
        delivery_service: "meest".to_string(),
        shardkey: "9".to_string(),
        sm_id: 99,
        date_created: "2021-11-26T06:22:19Z".to_string(),
        oof_shard: "1".to_string(),
    }
}

#[test]
fn empty_store_reads_empty() {
    let s = Store::new();
    assert_eq!(s.get_orders().len(), 0);
}

#[test]
fn write_then_read_round_trip() {
    let mut s = Store::new();
    let o = sample_order("b563feb7b2b84b6test");
    s.add_order(&o);
    let out = s.get_orders();
    assert_eq!(out.len(), 1);
    assert!(same_order(&out[0], &o));
}

#[test]
fn items_attributed_to_their_own_order() {
    let mut s = Store::new();
    let mut a = sample_order("uid-a");
    a.items = vec![sample_item(1)];
    let mut b = sample_order("uid-b");
    b.items = vec![sample_item(2), sample_item(3)];
    s.add_order(&a);
    s.add_order(&b);
    let out = s.get_orders();
    assert_eq!(out.len(), 2);
    assert!(same_order(&out[0], &a));
    assert!(same_order(&out[1], &b));
    assert_eq!(out[0].items.len(), 1);
    assert_eq!(out[0].items[0].chrt_id, 1);
    assert_eq!(out[1].items.len(), 2);
    assert_eq!(out[1].items[0].chrt_id, 2);
    assert_eq!(out[1].items[1].chrt_id, 3);
}

#[test]
fn duplicate_uid_stored_twice() {
    let mut s = Store::new();
    let o = sample_order("same-uid");
    s.add_order(&o);
    s.add_order(&o);
    let out = s.get_orders();
    assert_eq!(out.len(), 2);
    assert!(same_order(&out[0], &o));
    assert!(same_order(&out[1], &o));
}

#[test]
fn earlier_orders_unchanged_by_later_write() {
    let mut s = Store::new();
    let first = sample_order("first");
    s.add_order(&first);
    let second = sample_order("second");
    s.add_order(&second);
    let out = s.get_orders();
    assert!(same_order(&out[0], &first));
}

#[test]
fn rollback_erases_partial_write() {
    let mut s = Store::new();
    let kept = sample_order("kept");
    s.add_order(&kept);
    let before = s.get_orders();

    // A write that fails after three of its inserts: rolled back in full.
    let abandoned = sample_order("abandoned");
    let snap = s.begin();
    let d_id = s.insert_delivery(&abandoned.delivery);
    let p_id = s.insert_payment(&abandoned.payment);
    let o_id = s.insert_order_row(&abandoned, d_id, p_id);
    s.insert_item(&abandoned.items[0], o_id);
    s.rollback(&snap);

    let after = s.get_orders();
    assert_eq!(after.len(), before.len());
    assert_eq!(after.len(), 1);
    assert!(same_order(&after[0], &kept));
    assert!(same_order(&after[0], &before[0]));
}

#[test]
fn rollback_right_after_begin_changes_nothing() {
    let mut s = Store::new();
    let o = sample_order("only");
    s.add_order(&o);
    let snap = s.begin();
    s.rollback(&snap);
    let out = s.get_orders();
    assert_eq!(out.len(), 1);
    assert!(same_order(&out[0], &o));
}

#[test]
fn order_with_no_items_round_trips() {
    let mut s = Store::new();
    let mut o = sample_order("no-items");
    o.items = vec![];
    s.add_order(&o);
    let out = s.get_orders();
    assert_eq!(out.len(), 1);
    assert!(same_order(&out[0], &o));
    assert!(out[0].items.is_empty());
}

#[test]
fn same_order_detects_differences() {
    let a = sample_order("x");
    let mut b = sample_order("x");
    assert!(same_order(&a, &b));
    b.payment.amount += 1;
    assert!(!same_order(&a, &b));
    let mut c = sample_order("x");
    c.items[1].brand = "other".to_string();
    assert!(!same_order(&a, &c));
    let mut d = sample_order("x");
    d.items.pop();
    assert!(!same_order(&a, &d));
}
