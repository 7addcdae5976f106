//! The order repository over its normalized relational representation.
//!
//! Four tables hold the persisted data: delivery rows, payment rows, order
//! rows and item rows. A write decomposes one aggregate into one row per
//! table (one per line item), linking child rows to their parent through
//! generated row identifiers; a read joins the rows back into aggregates.
//!
//! A row identifier is the table's length at insert time, so identifiers
//! are unique and `wf` ties each row to its position. `begin` and
//! `rollback` bracket a write so that a failed attempt can be erased
//! without a trace, which is what makes a multi-row write all-or-nothing.

use vstd::prelude::*;
use crate::model::{order_eq, Delivery, Item, Order, Payment};

verus! {

/// One row of the delivery table.
pub struct DeliveryRow {
    pub row_id: usize,
    pub name: String,
    pub phone: String,
    pub zip: String,
    pub city: String,
    pub address: String,
    pub region: String,
    pub email: String,
}

/// One row of the payment table.
pub struct PaymentRow {
    pub row_id: usize,
    pub transaction: String,
    pub request_id: String,
    pub currency: String,
    pub provider: String,
    pub amount: i32,
    pub payment_dt: i64,
    pub bank: String,
    pub delivery_cost: i32,
    pub goods_total: i32,
    pub custom_fee: i32,
}

/// One row of the orders table, referencing its delivery and payment
/// rows by their generated identifiers.
pub struct OrderRow {
    pub row_id: usize,
    pub order_uid: String,
    pub track_number: String,
    pub entry: String,
    pub delivery_id: usize,
    pub payment_id: usize,
    pub locale: String,
    pub internal_signature: String,
    pub customer_id: String,
    pub delivery_service: String,
    pub shardkey: String,
    pub sm_id: i32,
    pub date_created: String,
    pub oof_shard: String,
}

/// One row of the items table, referencing its owning order row.
pub struct ItemRow {
    pub order_id: usize,
    pub chrt_id: i64,
    pub track_number: String,
    pub price: i32,
    pub rid: String,
    pub name: String,
    pub sale: i32,
    pub size: String,
    pub total_price: i32,
    pub nm_id: i64,
    pub brand: String,
    pub status: i32,
}

/// The four tables of the relational representation.
pub struct Store {
    pub deliveries: Vec<DeliveryRow>,
    pub payments: Vec<PaymentRow>,
    pub orders: Vec<OrderRow>,
    pub items: Vec<ItemRow>,
}

/// The table lengths at the start of a write, taken by `begin` and
/// consumed by `rollback`.
pub struct Snapshot {
    pub n_deliveries: usize,
    pub n_payments: usize,
    pub n_orders: usize,
    pub n_items: usize,
}

/// The delivery row a write inserts for a delivery record.
pub open spec fn delivery_row_of(d: Delivery, id: usize) -> DeliveryRow {
    DeliveryRow {
        row_id: id,
        name: d.name,
        phone: d.phone,
        zip: d.zip,
        city: d.city,
        address: d.address,
        region: d.region,
        email: d.email,
    }
}

/// The payment row a write inserts for a payment record.
pub open spec fn payment_row_of(m: Payment, id: usize) -> PaymentRow {
    PaymentRow {
        row_id: id,
        transaction: m.transaction,
        request_id: m.request_id,
        currency: m.currency,
        provider: m.provider,
        amount: m.amount,
        payment_dt: m.payment_dt,
        bank: m.bank,
        delivery_cost: m.delivery_cost,
        goods_total: m.goods_total,
        custom_fee: m.custom_fee,
    }
}

/// The order row a write inserts for an aggregate, given the generated
/// identifiers of its delivery and payment rows.
pub open spec fn order_row_of(o: Order, id: usize, delivery_id: usize, payment_id: usize) -> OrderRow {
    OrderRow {
        row_id: id,
        order_uid: o.order_uid,
        track_number: o.track_number,
        entry: o.entry,
        delivery_id: delivery_id,
        payment_id: payment_id,
        locale: o.locale,
        internal_signature: o.internal_signature,
        customer_id: o.customer_id,
        delivery_service: o.delivery_service,
        shardkey: o.shardkey,
        sm_id: o.sm_id,
        date_created: o.date_created,
        oof_shard: o.oof_shard,
    }
}

/// The item row a write inserts for a line item, given the generated
/// identifier of its owning order row.
pub open spec fn item_row_of(it: Item, order_id: usize) -> ItemRow {
    ItemRow {
        order_id: order_id,
        chrt_id: it.chrt_id,
        track_number: it.track_number,
        price: it.price,
        rid: it.rid,
        name: it.name,
        sale: it.sale,
        size: it.size,
        total_price: it.total_price,
        nm_id: it.nm_id,
        brand: it.brand,
        status: it.status,
    }
}

/// The delivery record a read rebuilds from a delivery row.
pub open spec fn delivery_of_row(r: DeliveryRow) -> Delivery {
    Delivery {
        name: r.name,
        phone: r.phone,
        zip: r.zip,
        city: r.city,
        address: r.address,
        region: r.region,
        email: r.email,
    }
}

/// The payment record a read rebuilds from a payment row.
pub open spec fn payment_of_row(r: PaymentRow) -> Payment {
    Payment {
        transaction: r.transaction,
        request_id: r.request_id,
        currency: r.currency,
        provider: r.provider,
        amount: r.amount,
        payment_dt: r.payment_dt,
        bank: r.bank,
        delivery_cost: r.delivery_cost,
        goods_total: r.goods_total,
        custom_fee: r.custom_fee,
    }
}

/// The line item a read rebuilds from an item row.
pub open spec fn item_of_row(r: ItemRow) -> Item {
    Item {
        chrt_id: r.chrt_id,
        track_number: r.track_number,
        price: r.price,
        rid: r.rid,
        name: r.name,
        sale: r.sale,
        size: r.size,
        total_price: r.total_price,
        nm_id: r.nm_id,
        brand: r.brand,
        status: r.status,
    }
}

/// The line items belonging to the order row with identifier `order_id`,
/// in table order.
pub open spec fn items_of(rows: Seq<ItemRow>, order_id: usize) -> Seq<Item>
    decreases rows.len(),
{
    if rows.len() == 0 {
        Seq::empty()
    } else if rows.last().order_id == order_id {
        items_of(rows.drop_last(), order_id).push(item_of_row(rows.last()))
    } else {
        items_of(rows.drop_last(), order_id)
    }
}

/// One write appends exactly these rows: a delivery row, a payment row,
/// an order row referencing the two, and one item row per line item,
/// all identified by the table lengths at the start of the write.
pub open spec fn appended(pre: Store, post: Store, o: Order) -> bool {
    &&& post.deliveries@ == pre.deliveries@.push(
        delivery_row_of(o.delivery, pre.deliveries@.len() as usize),
    )
    &&& post.payments@ == pre.payments@.push(
        payment_row_of(o.payment, pre.payments@.len() as usize),
    )
    &&& post.orders@ == pre.orders@.push(
        order_row_of(
            o,
            pre.orders@.len() as usize,
            pre.deliveries@.len() as usize,
            pre.payments@.len() as usize,
        ),
    )
    &&& post.items@ == pre.items@ + o.items@.map_values(
        |it: Item| item_row_of(it, pre.orders@.len() as usize),
    )
}

impl Store {
    /// Referential integrity of the four tables: every row sits at the
    /// position its generated identifier names, every order row
    /// references an existing delivery and payment row, and every item
    /// row references an existing order row.
    pub open spec fn wf(self) -> bool {
        &&& forall|i: int|
            0 <= i < self.deliveries@.len() ==> (#[trigger] self.deliveries@[i]).row_id == i
        &&& forall|i: int|
            0 <= i < self.payments@.len() ==> (#[trigger] self.payments@[i]).row_id == i
        &&& forall|i: int|
            0 <= i < self.orders@.len() ==> (#[trigger] self.orders@[i]).row_id == i
        &&& forall|i: int|
            0 <= i < self.orders@.len() ==> (#[trigger] self.orders@[i]).delivery_id
                < self.deliveries@.len()
        &&& forall|i: int|
            0 <= i < self.orders@.len() ==> (#[trigger] self.orders@[i]).payment_id
                < self.payments@.len()
        &&& forall|i: int|
            0 <= i < self.items@.len() ==> (#[trigger] self.items@[i]).order_id
                < self.orders@.len()
    }

    /// `o` is the aggregate reassembled from the `i`-th order row: its
    /// fields come from that row, its delivery and payment from the rows
    /// the order row references, and its items from the item rows owned
    /// by the order row, in table order.
    pub open spec fn is_aggregate_at(self, i: int, o: Order) -> bool
        recommends
            self.wf(),
            0 <= i < self.orders@.len(),
    {
        let row = self.orders@[i];
        &&& o.order_uid == row.order_uid
        &&& o.track_number == row.track_number
        &&& o.entry == row.entry
        &&& o.delivery == delivery_of_row(self.deliveries@[row.delivery_id as int])
        &&& o.payment == payment_of_row(self.payments@[row.payment_id as int])
        &&& o.items@ == items_of(self.items@, row.row_id)
        &&& o.locale == row.locale
        &&& o.internal_signature == row.internal_signature
        &&& o.customer_id == row.customer_id
        &&& o.delivery_service == row.delivery_service
        &&& o.shardkey == row.shardkey
        &&& o.sm_id == row.sm_id
        &&& o.date_created == row.date_created
        &&& o.oof_shard == row.oof_shard
    }

    /// An empty store: four empty tables.
    pub fn new() -> (s: Store)
        ensures
            s.wf(),
            s.deliveries@ == Seq::<DeliveryRow>::empty(),
            s.payments@ == Seq::<PaymentRow>::empty(),
            s.orders@ == Seq::<OrderRow>::empty(),
            s.items@ == Seq::<ItemRow>::empty(),
    {
        Store { deliveries: Vec::new(), payments: Vec::new(), orders: Vec::new(), items: Vec::new() }
    }

    /// Record the table lengths at the start of a write.
    pub fn begin(&self) -> (t: Snapshot)
        ensures
            t.n_deliveries == self.deliveries@.len(),
            t.n_payments == self.payments@.len(),
            t.n_orders == self.orders@.len(),
            t.n_items == self.items@.len(),
    {
        Snapshot {
            n_deliveries: self.deliveries.len(),
            n_payments: self.payments.len(),
            n_orders: self.orders.len(),
            n_items: self.items.len(),
        }
    }

    /// Erase everything inserted since the snapshot was taken: each
    /// table is cut back to the length it had then. A write whose later
    /// steps fail rolls back this way, so no partial aggregate is ever
    /// visible to a read.
    pub fn rollback(&mut self, t: &Snapshot)
        requires
            t.n_deliveries <= old(self).deliveries@.len(),
            t.n_payments <= old(self).payments@.len(),
            t.n_orders <= old(self).orders@.len(),
            t.n_items <= old(self).items@.len(),
        ensures
            final(self).deliveries@ == old(self).deliveries@.subrange(0, t.n_deliveries as int),
            final(self).payments@ == old(self).payments@.subrange(0, t.n_payments as int),
            final(self).orders@ == old(self).orders@.subrange(0, t.n_orders as int),
            final(self).items@ == old(self).items@.subrange(0, t.n_items as int),
    {
        self.deliveries.truncate(t.n_deliveries);
        self.payments.truncate(t.n_payments);
        self.orders.truncate(t.n_orders);
        self.items.truncate(t.n_items);
    }

    /// Insert one delivery row; the generated identifier is returned.
    pub fn insert_delivery(&mut self, d: &Delivery) -> (id: usize)
        ensures
            id == old(self).deliveries@.len(),
            final(self).deliveries@ == old(self).deliveries@.push(delivery_row_of(*d, id)),
            final(self).payments@ == old(self).payments@,
            final(self).orders@ == old(self).orders@,
            final(self).items@ == old(self).items@,
    {
        let id = self.deliveries.len();
        self.deliveries.push(DeliveryRow {
            row_id: id,
            name: d.name.clone(),
            phone: d.phone.clone(),
            zip: d.zip.clone(),
            city: d.city.clone(),
            address: d.address.clone(),
            region: d.region.clone(),
            email: d.email.clone(),
        });
        id
    }

    /// Insert one payment row; the generated identifier is returned.
    pub fn insert_payment(&mut self, m: &Payment) -> (id: usize)
        ensures
            id == old(self).payments@.len(),
            final(self).payments@ == old(self).payments@.push(payment_row_of(*m, id)),
            final(self).deliveries@ == old(self).deliveries@,
            final(self).orders@ == old(self).orders@,
            final(self).items@ == old(self).items@,
    {
        let id = self.payments.len();
        self.payments.push(PaymentRow {
            row_id: id,
            transaction: m.transaction.clone(),
            request_id: m.request_id.clone(),
            currency: m.currency.clone(),
            provider: m.provider.clone(),
            amount: m.amount,
            payment_dt: m.payment_dt,
            bank: m.bank.clone(),
            delivery_cost: m.delivery_cost,
            goods_total: m.goods_total,
            custom_fee: m.custom_fee,
        });
        id
    }

    /// Insert one order row carrying the aggregate's own fields and the
    /// generated identifiers of its delivery and payment rows; the
    /// generated order identifier is returned.
    pub fn insert_order_row(&mut self, o: &Order, delivery_id: usize, payment_id: usize) -> (id:
        usize)
        ensures
            id == old(self).orders@.len(),
            final(self).orders@ == old(self).orders@.push(
                order_row_of(*o, id, delivery_id, payment_id),
            ),
            final(self).deliveries@ == old(self).deliveries@,
            final(self).payments@ == old(self).payments@,
            final(self).items@ == old(self).items@,
    {
        let id = self.orders.len();
        self.orders.push(OrderRow {
            row_id: id,
            order_uid: o.order_uid.clone(),
            track_number: o.track_number.clone(),
            entry: o.entry.clone(),
            delivery_id: delivery_id,
            payment_id: payment_id,
            locale: o.locale.clone(),
            internal_signature: o.internal_signature.clone(),
            customer_id: o.customer_id.clone(),
            delivery_service: o.delivery_service.clone(),
            shardkey: o.shardkey.clone(),
            sm_id: o.sm_id,
            date_created: o.date_created.clone(),
            oof_shard: o.oof_shard.clone(),
        });
        id
    }

    /// Insert one item row carrying the generated identifier of its
    /// owning order row.
    pub fn insert_item(&mut self, it: &Item, order_id: usize)
        ensures
            final(self).items@ == old(self).items@.push(item_row_of(*it, order_id)),
            final(self).deliveries@ == old(self).deliveries@,
            final(self).payments@ == old(self).payments@,
            final(self).orders@ == old(self).orders@,
    {
        self.items.push(ItemRow {
            order_id: order_id,
            chrt_id: it.chrt_id,
            track_number: it.track_number.clone(),
            price: it.price,
            rid: it.rid.clone(),
            name: it.name.clone(),
            sale: it.sale,
            size: it.size.clone(),
            total_price: it.total_price,
            nm_id: it.nm_id,
            brand: it.brand.clone(),
            status: it.status,
        });
    }

    /// Write one aggregate: insert its delivery row, its payment row,
    /// the order row referencing the two, and one item row per line
    /// item. The store gains exactly those rows and stays well-formed.
    pub fn add_order(&mut self, o: &Order)
        requires
            old(self).wf(),
        ensures
            final(self).wf(),
            appended(*old(self), *final(self), *o),
            final(self).orders@.len() == old(self).orders@.len() + 1,
    {
        let delivery_id = self.insert_delivery(&o.delivery);
        let payment_id = self.insert_payment(&o.payment);
        let order_id = self.insert_order_row(o, delivery_id, payment_id);
        let ghost row_fn = |it: Item| item_row_of(it, order_id);
        let mut i: usize = 0;
        let n = o.items.len();
        proof {
            assert(self.items@ =~= old(self).items@ + o.items@.subrange(0, 0).map_values(row_fn));
        }
        while i < n
            invariant
                n == o.items@.len(),
                0 <= i <= n,
                row_fn == (|it: Item| item_row_of(it, order_id)),
                self.deliveries@ == old(self).deliveries@.push(
                    delivery_row_of(o.delivery, delivery_id),
                ),
                delivery_id == old(self).deliveries@.len(),
                self.payments@ == old(self).payments@.push(payment_row_of(o.payment, payment_id)),
                payment_id == old(self).payments@.len(),
                self.orders@ == old(self).orders@.push(
                    order_row_of(*o, order_id, delivery_id, payment_id),
                ),
                order_id == old(self).orders@.len(),
                self.items@ == old(self).items@ + o.items@.subrange(0, i as int).map_values(row_fn),
            decreases n - i,
        {
            self.insert_item(&o.items[i], order_id);
            i += 1;
            proof {
                assert(o.items@.subrange(0, i as int) =~= o.items@.subrange(0, i - 1).push(
                    o.items@[i - 1],
                ));
                assert(o.items@.subrange(0, i as int).map_values(row_fn) =~= o.items@.subrange(
                    0,
                    i - 1,
                ).map_values(row_fn).push(item_row_of(o.items@[i - 1], order_id)));
                assert(self.items@ =~= old(self).items@ + o.items@.subrange(0, i as int).map_values(
                    row_fn,
                ));
            }
        }
        proof {
            assert(o.items@.subrange(0, n as int) =~= o.items@);
            assert(appended(*old(self), *self, *o));
            lemma_add_preserves_wf(*old(self), *self, *o);
        }
    }

    /// Read every aggregate back: one output entry per order row, each
    /// reassembled from the rows the order row references.
    pub fn get_orders(&self) -> (r: Vec<Order>)
        requires
            self.wf(),
        ensures
            r@.len() == self.orders@.len(),
            forall|i: int| 0 <= i < r@.len() ==> self.is_aggregate_at(i, #[trigger] r@[i]),
    {
        let mut result: Vec<Order> = Vec::new();
        let mut i: usize = 0;
        let n = self.orders.len();
        while i < n
            invariant
                self.wf(),
                n == self.orders@.len(),
                0 <= i <= n,
                result@.len() == i,
                forall|j: int| 0 <= j < i ==> self.is_aggregate_at(j, #[trigger] result@[j]),
            decreases n - i,
        {
            let row = &self.orders[i];
            let d = &self.deliveries[row.delivery_id];
            let delivery = Delivery {
                name: d.name.clone(),
                phone: d.phone.clone(),
                zip: d.zip.clone(),
                city: d.city.clone(),
                address: d.address.clone(),
                region: d.region.clone(),
                email: d.email.clone(),
            };
            let m = &self.payments[row.payment_id];
            let payment = Payment {
                transaction: m.transaction.clone(),
                request_id: m.request_id.clone(),
                currency: m.currency.clone(),
                provider: m.provider.clone(),
                amount: m.amount,
                payment_dt: m.payment_dt,
                bank: m.bank.clone(),
                delivery_cost: m.delivery_cost,
                goods_total: m.goods_total,
                custom_fee: m.custom_fee,
            };
            let order_id = row.row_id;
            let mut items: Vec<Item> = Vec::new();
            let mut k: usize = 0;
            let n_items = self.items.len();
            proof {
                assert(self.items@.subrange(0, 0) =~= Seq::<ItemRow>::empty());
            }
            while k < n_items
                invariant
                    n_items == self.items@.len(),
                    0 <= k <= n_items,
                    items@ == items_of(self.items@.subrange(0, k as int), order_id),
                decreases n_items - k,
            {
                let ir = &self.items[k];
                if ir.order_id == order_id {
                    items.push(Item {
                        chrt_id: ir.chrt_id,
                        track_number: ir.track_number.clone(),
                        price: ir.price,
                        rid: ir.rid.clone(),
                        name: ir.name.clone(),
                        sale: ir.sale,
                        size: ir.size.clone(),
                        total_price: ir.total_price,
                        nm_id: ir.nm_id,
                        brand: ir.brand.clone(),
                        status: ir.status,
                    });
                }
                proof {
                    assert(self.items@.subrange(0, k + 1) =~= self.items@.subrange(0, k as int)
                        .push(self.items@[k as int]));
                    lemma_items_of_push(
                        self.items@.subrange(0, k as int),
                        self.items@[k as int],
                        order_id,
                    );
                }
                k += 1;
            }
            proof {
                assert(self.items@.subrange(0, n_items as int) =~= self.items@);
            }
            let order = Order {
                order_uid: row.order_uid.clone(),
                track_number: row.track_number.clone(),
                entry: row.entry.clone(),
                delivery,
                payment,
                items,
                locale: row.locale.clone(),
                internal_signature: row.internal_signature.clone(),
                customer_id: row.customer_id.clone(),
                delivery_service: row.delivery_service.clone(),
                shardkey: row.shardkey.clone(),
                sm_id: row.sm_id,
                date_created: row.date_created.clone(),
                oof_shard: row.oof_shard.clone(),
            };
            result.push(order);
            i += 1;
        }
        result
    }
}

/// Appending one row to the item table extends the items of an order by
/// that row's item exactly when the row belongs to the order.
pub proof fn lemma_items_of_push(rows: Seq<ItemRow>, x: ItemRow, order_id: usize)
    ensures
        items_of(rows.push(x), order_id) == if x.order_id == order_id {
            items_of(rows, order_id).push(item_of_row(x))
        } else {
            items_of(rows, order_id)
        },
{
    assert(rows.push(x).drop_last() =~= rows);
    assert(rows.push(x).last() == x);
}

/// The items of an order in a concatenation of two item tables are the
/// items in the first followed by the items in the second.
pub proof fn lemma_items_of_add(a: Seq<ItemRow>, b: Seq<ItemRow>, order_id: usize)
    ensures
        items_of(a + b, order_id) == items_of(a, order_id) + items_of(b, order_id),
    decreases b.len(),
{
    if b.len() == 0 {
        assert(a + b =~= a);
        assert(items_of(b, order_id) == Seq::<Item>::empty());
        assert(items_of(a, order_id) + items_of(b, order_id) =~= items_of(a, order_id));
    } else {
        lemma_items_of_add(a, b.drop_last(), order_id);
        assert((a + b).drop_last() =~= a + b.drop_last());
        assert((a + b).last() == b.last());
        if b.last().order_id == order_id {
            assert(items_of(a, order_id) + items_of(b.drop_last(), order_id).push(
                item_of_row(b.last()),
            ) =~= (items_of(a, order_id) + items_of(b.drop_last(), order_id)).push(
                item_of_row(b.last()),
            ));
        }
    }
}

/// A table none of whose rows belong to the order contributes no items.
pub proof fn lemma_items_of_absent(rows: Seq<ItemRow>, order_id: usize)
    requires
        forall|i: int| 0 <= i < rows.len() ==> (#[trigger] rows[i]).order_id != order_id,
    ensures
        items_of(rows, order_id) == Seq::<Item>::empty(),
    decreases rows.len(),
{
    if rows.len() > 0 {
        assert(rows.last() == rows[rows.len() - 1]);
        lemma_items_of_absent(rows.drop_last(), order_id);
    }
}

/// A table all of whose rows belong to the order contributes every row's
/// item, in order.
pub proof fn lemma_items_of_uniform(rows: Seq<ItemRow>, order_id: usize)
    requires
        forall|i: int| 0 <= i < rows.len() ==> (#[trigger] rows[i]).order_id == order_id,
    ensures
        items_of(rows, order_id) == rows.map_values(|r: ItemRow| item_of_row(r)),
    decreases rows.len(),
{
    let f = |r: ItemRow| item_of_row(r);
    if rows.len() == 0 {
        assert(items_of(rows, order_id) =~= rows.map_values(f));
    } else {
        assert(rows.last() == rows[rows.len() - 1]);
        lemma_items_of_uniform(rows.drop_last(), order_id);
        assert(rows.drop_last().map_values(f).push(item_of_row(rows.last())) =~= rows.map_values(
            f,
        ));
    }
}

/// Round trip: after a write of aggregate `o`, the store is still
/// well-formed and the newly created order row reassembles to `o`
/// itself, so a subsequent read returns a sequence containing an
/// aggregate equal to `o` in every field.
pub proof fn lemma_write_read_round_trip(pre: Store, post: Store, o: Order)
    requires
        pre.wf(),
        appended(pre, post, o),
    ensures
        post.wf(),
        post.orders@.len() == pre.orders@.len() + 1,
        post.is_aggregate_at(pre.orders@.len() as int, o),
        forall|q: Order|
            post.is_aggregate_at(pre.orders@.len() as int, q) ==> #[trigger] order_eq(q, o),
{
    lemma_add_preserves_wf(pre, post, o);
    assert(pre.deliveries.len() == pre.deliveries@.len());
    assert(pre.payments.len() == pre.payments@.len());
    assert(pre.orders.len() == pre.orders@.len());
    let n0 = pre.orders@.len() as int;
    let oid = pre.orders@.len() as usize;
    let row = post.orders@[n0];
    assert(row == order_row_of(o, oid, pre.deliveries@.len() as usize, pre.payments@.len() as usize));
    assert(post.deliveries@[row.delivery_id as int] == delivery_row_of(o.delivery, row.delivery_id));
    assert(delivery_of_row(delivery_row_of(o.delivery, row.delivery_id)) == o.delivery);
    assert(post.payments@[row.payment_id as int] == payment_row_of(o.payment, row.payment_id));
    assert(payment_of_row(payment_row_of(o.payment, row.payment_id)) == o.payment);
    let new_rows = o.items@.map_values(|it: Item| item_row_of(it, oid));
    lemma_items_of_add(pre.items@, new_rows, oid);
    assert forall|i: int| 0 <= i < pre.items@.len() implies (#[trigger] pre.items@[i]).order_id
        != oid by {}
    lemma_items_of_absent(pre.items@, oid);
    assert forall|i: int| 0 <= i < new_rows.len() implies (#[trigger] new_rows[i]).order_id
        == oid by {
        assert(new_rows[i] == item_row_of(o.items@[i], oid));
    }
    lemma_items_of_uniform(new_rows, oid);
    assert(new_rows.map_values(|r: ItemRow| item_of_row(r)) =~= o.items@);
    assert(items_of(post.items@, oid) =~= o.items@);
    assert(post.is_aggregate_at(n0, o));
    assert forall|q: Order| post.is_aggregate_at(n0, q) implies #[trigger] order_eq(q, o) by {
        lemma_aggregate_determined(post, n0, q, o);
    }
}

/// A write leaves every aggregate already in the store exactly as it
/// was: reassembly at any pre-existing order row is unchanged.
pub proof fn lemma_existing_orders_stable(pre: Store, post: Store, o: Order, i: int)
    requires
        pre.wf(),
        appended(pre, post, o),
        0 <= i < pre.orders@.len(),
    ensures
        forall|q: Order|
            #![trigger pre.is_aggregate_at(i, q)]
            #![trigger post.is_aggregate_at(i, q)]
            pre.is_aggregate_at(i, q) <==> post.is_aggregate_at(i, q),
{
    assert(pre.orders.len() == pre.orders@.len());
    assert(pre.items.len() == pre.items@.len());
    let row = pre.orders@[i];
    assert(post.orders@[i] == row);
    assert(post.deliveries@[row.delivery_id as int] == pre.deliveries@[row.delivery_id as int]);
    assert(post.payments@[row.payment_id as int] == pre.payments@[row.payment_id as int]);
    let oid = pre.orders@.len() as usize;
    let new_rows = o.items@.map_values(|it: Item| item_row_of(it, oid));
    lemma_items_of_add(pre.items@, new_rows, row.row_id);
    assert forall|k: int| 0 <= k < new_rows.len() implies (#[trigger] new_rows[k]).order_id
        != row.row_id by {
        assert(new_rows[k] == item_row_of(o.items@[k], oid));
    }
    lemma_items_of_absent(new_rows, row.row_id);
    assert(items_of(post.items@, row.row_id) =~= items_of(pre.items@, row.row_id));
}

/// Multiplicity: writing the same aggregate twice creates two order
/// rows, and both reassemble to that aggregate — duplicate submissions
/// produce duplicate entries, never an upsert.
pub proof fn lemma_duplicate_write_multiplicity(s0: Store, s1: Store, s2: Store, o: Order)
    requires
        s0.wf(),
        appended(s0, s1, o),
        appended(s1, s2, o),
    ensures
        s2.wf(),
        s2.orders@.len() == s0.orders@.len() + 2,
        s2.is_aggregate_at(s0.orders@.len() as int, o),
        s2.is_aggregate_at(s0.orders@.len() as int + 1, o),
        forall|q: Order|
            s2.is_aggregate_at(s0.orders@.len() as int, q) ==> #[trigger] order_eq(q, o),
        forall|q: Order|
            s2.is_aggregate_at(s0.orders@.len() as int + 1, q) ==> #[trigger] order_eq(q, o),
{
    let n0 = s0.orders@.len() as int;
    lemma_write_read_round_trip(s0, s1, o);
    lemma_write_read_round_trip(s1, s2, o);
    lemma_existing_orders_stable(s1, s2, o, n0);
    assert forall|q: Order| s2.is_aggregate_at(n0, q) implies #[trigger] order_eq(q, o) by {
        assert(s1.is_aggregate_at(n0, q));
    }
}

/// Atomicity: a write that began at snapshot `t` and has applied any of
/// its row inserts (so each table of `mid` extends the table it had at
/// the snapshot) is erased completely by `rollback`: every table reads
/// exactly as it did before the write began, so no partial aggregate is
/// visible to a subsequent read.
pub proof fn lemma_rollback_erases_partial_write(pre: Store, mid: Store, post: Store, t: Snapshot)
    requires
        t.n_deliveries == pre.deliveries@.len(),
        t.n_payments == pre.payments@.len(),
        t.n_orders == pre.orders@.len(),
        t.n_items == pre.items@.len(),
        pre.deliveries@.is_prefix_of(mid.deliveries@),
        pre.payments@.is_prefix_of(mid.payments@),
        pre.orders@.is_prefix_of(mid.orders@),
        pre.items@.is_prefix_of(mid.items@),
        post.deliveries@ == mid.deliveries@.subrange(0, t.n_deliveries as int),
        post.payments@ == mid.payments@.subrange(0, t.n_payments as int),
        post.orders@ == mid.orders@.subrange(0, t.n_orders as int),
        post.items@ == mid.items@.subrange(0, t.n_items as int),
    ensures
        post.deliveries@ == pre.deliveries@,
        post.payments@ == pre.payments@,
        post.orders@ == pre.orders@,
        post.items@ == pre.items@,
        pre.wf() ==> post.wf(),
        forall|i: int, q: Order| pre.is_aggregate_at(i, q) <==> post.is_aggregate_at(i, q),
{
    assert(post.deliveries@ =~= pre.deliveries@);
    assert(post.payments@ =~= pre.payments@);
    assert(post.orders@ =~= pre.orders@);
    assert(post.items@ =~= pre.items@);
}

/// Two aggregates reassembled from the same order row are equal in
/// every field.
pub proof fn lemma_aggregate_determined(s: Store, i: int, a: Order, b: Order)
    requires
        s.is_aggregate_at(i, a),
        s.is_aggregate_at(i, b),
    ensures
        order_eq(a, b),
{
}

/// A write preserves referential integrity: the new rows sit at the
/// positions their identifiers name, the new order row references the
/// delivery and payment rows inserted by the same write, and every new
/// item row references the new order row.
pub proof fn lemma_add_preserves_wf(pre: Store, post: Store, o: Order)
    requires
        pre.wf(),
        appended(pre, post, o),
    ensures
        post.wf(),
{
    assert(pre.deliveries.len() == pre.deliveries@.len());
    assert(pre.payments.len() == pre.payments@.len());
    assert(pre.orders.len() == pre.orders@.len());
    assert(pre.items.len() == pre.items@.len());
    assert forall|i: int| 0 <= i < post.deliveries@.len() implies (#[trigger] post.deliveries@[i]).row_id
        == i by {
        if i < pre.deliveries@.len() {
            assert(post.deliveries@[i] == pre.deliveries@[i]);
        }
    }
    assert forall|i: int| 0 <= i < post.payments@.len() implies (#[trigger] post.payments@[i]).row_id
        == i by {
        if i < pre.payments@.len() {
            assert(post.payments@[i] == pre.payments@[i]);
        }
    }
    assert forall|i: int| 0 <= i < post.orders@.len() implies {
        &&& (#[trigger] post.orders@[i]).row_id == i
        &&& post.orders@[i].delivery_id < post.deliveries@.len()
        &&& post.orders@[i].payment_id < post.payments@.len()
    } by {
        if i < pre.orders@.len() {
            assert(post.orders@[i] == pre.orders@[i]);
        }
    }
    assert forall|i: int| 0 <= i < post.items@.len() implies (#[trigger] post.items@[i]).order_id
        < post.orders@.len() by {
        if i < pre.items@.len() {
            assert(post.items@[i] == pre.items@[i]);
        } else {
            let k = i - pre.items@.len();
            assert(post.items@[i] == o.items@.map_values(
                |it: Item| item_row_of(it, pre.orders@.len() as usize),
            )[k]);
        }
    }
}

} // verus!
