//! The order engine: orders, the transactional outbox that records each
//! pending inventory deduction, the commit that settles a deduction, and the
//! plan of calls that the reconciler replays.
use vstd::prelude::*;
use crate::error::ApiError;
use crate::token::Claims;
use crate::paging::{lemma_page_push, page_of, page_offset};

verus! {

/// The result code with which the inventory service acknowledges a deduction.
pub const DEDUCTION_OK: i32 = 200;

/// Where an order stands with respect to its inventory deduction.
#[derive(Debug, Clone, Copy, PartialEq, Eq, Structural)]
pub enum InventoryState {
    DOING,
    SUCCESS,
    FAIL,
}

/// The result codes of the inventory service that the order engine knows.
#[derive(Debug, Clone, Copy, PartialEq, Eq, Structural)]
pub enum InventoryResult {
    SUCCESS,
}

impl InventoryResult {
    /// The wire code of this result.
    pub fn code(&self) -> (r: i32)
        ensures
            r == DEDUCTION_OK,
    {
        DEDUCTION_OK
    }
}

impl InventoryState {
    /// The code stored in the `inventory_state` column.
    pub open spec fn spec_code(self) -> i32 {
        match self {
            InventoryState::DOING => 0,
            InventoryState::SUCCESS => 1,
            InventoryState::FAIL => 2,
        }
    }

    /// Returns the code stored in the `inventory_state` column.
    pub fn code(&self) -> (r: i32)
        ensures
            r == self.spec_code(),
    {
        match self {
            InventoryState::DOING => 0,
            InventoryState::SUCCESS => 1,
            InventoryState::FAIL => 2,
        }
    }

    /// The state stored under `code`, if `code` is one.
    pub fn from_code(code: i32) -> (r: Option<InventoryState>)
        ensures
            r matches Some(s) ==> s.spec_code() == code,
            r.is_none() <==> !(0 <= code <= 2),
    {
        if code == 0 {
            Some(InventoryState::DOING)
        } else if code == 1 {
            Some(InventoryState::SUCCESS)
        } else if code == 2 {
            Some(InventoryState::FAIL)
        } else {
            None
        }
    }

    /// The terminal state that a definitive reply `code` settles an order in.
    pub open spec fn spec_for_result(code: i32) -> InventoryState {
        if code == DEDUCTION_OK {
            InventoryState::SUCCESS
        } else {
            InventoryState::FAIL
        }
    }

    /// Returns the terminal state for a definitive reply `code` of the
    /// inventory service: success for 200, failure for anything else.
    pub fn for_result(code: i32) -> (r: InventoryState)
        ensures
            r == Self::spec_for_result(code),
    {
        if code == InventoryResult::SUCCESS.code() {
            InventoryState::SUCCESS
        } else {
            InventoryState::FAIL
        }
    }
}

/// The query of one page of a user's orders.
#[derive(Debug, Clone, Copy, PartialEq, Eq, Structural)]
pub struct GetOrderParams {
    pub user_id: u128,
    pub page: i64,
    pub page_size: i64,
}

/// One order: a single item at a unit price, owned by a user.
#[derive(Debug, Clone)]
pub struct Order {
    pub id: i32,
    pub user_id: u128,
    pub item_id: i32,
    pub price: i32,
    pub count: i32,
    pub currency: String,
    pub sub_time: i64,
    pub pay_time: i64,
    pub inventory_state: i32,
    pub description: Option<String>,
}

impl Order {
    /// A field-for-field copy.
    pub fn duplicate(&self) -> (r: Order)
        ensures
            r == *self,
    {
        Order {
            id: self.id,
            user_id: self.user_id,
            item_id: self.item_id,
            price: self.price,
            count: self.count,
            currency: self.currency.clone(),
            sub_time: self.sub_time,
            pay_time: self.pay_time,
            inventory_state: self.inventory_state,
            description: self.description.clone(),
        }
    }
}

/// The payload of a new order.
#[derive(Debug, Clone)]
pub struct AddOrder {
    pub items_id: i32,
    pub price: i32,
    pub count: i32,
    pub currency: String,
    pub description: Option<String>,
    pub token: i64,
}

/// The answer to an accepted order.
#[derive(Debug, Clone)]
pub struct AddOrderResult {
    pub description: String,
}

/// A fresh idempotency tag handed to a client.
#[derive(Debug, Clone, Copy, PartialEq, Eq, Structural)]
pub struct NewOrderToken {
    pub token: i64,
}

/// An outbox row: the durable intent to deduct inventory for an order.
#[derive(Debug, Clone, Copy, PartialEq, Eq, Structural)]
pub struct OrderDeInventoryMsg {
    pub id: i32,
    pub user_id: u128,
    pub order_id: i32,
}

/// One call of the inventory service's deduction.
#[derive(Debug, Clone, Copy, PartialEq, Eq, Structural)]
pub struct DeductionCall {
    pub inventory_id: i32,
    pub count: i32,
    pub order_id: i32,
}

/// What came back from a deduction call.
#[derive(Debug, Clone, Copy, PartialEq, Eq, Structural)]
pub enum DeductionReply {
    /// The inventory service answered with this result code.
    Answered(i32),
    /// Discovery failed, or the call did not complete.
    Unreachable,
}

/// The order with id `id` is stored at position `id - 1`.
pub open spec fn order_at(orders: Seq<Order>, id: i32) -> Order {
    orders[id - 1]
}

/// Some outbox row refers to order `order_id`.
pub open spec fn has_outbox_row(outbox: Seq<OrderDeInventoryMsg>, order_id: i32) -> bool {
    exists|k: int| 0 <= k < outbox.len() && outbox[k].order_id == order_id
}

/// Keeps the outbox rows of every order but `order_id`.
pub open spec fn not_for(order_id: i32) -> spec_fn(OrderDeInventoryMsg) -> bool {
    |m: OrderDeInventoryMsg| m.order_id != order_id
}

/// The call that replays the deduction of `o`.
pub open spec fn call_for(o: Order) -> DeductionCall {
    DeductionCall { inventory_id: o.item_id, count: o.count, order_id: o.id }
}

/// `o` after its deduction settled in state `s`.
pub open spec fn settled(o: Order, s: InventoryState) -> Order {
    Order { inventory_state: s.spec_code(), ..o }
}

/// The text of an optional description, empty when absent.
pub open spec fn text_or_empty(d: Option<String>) -> Seq<char> {
    match d {
        Some(s) => s@,
        None => Seq::empty(),
    }
}

/// `o` is the order that `data` from `user_id` became under id `id`: in
/// state `DOING`, unpaid, with the description stored even when empty.
pub open spec fn placed(o: Order, id: i32, user_id: u128, data: AddOrder, sub_time: i64) -> bool {
    &&& o.id == id
    &&& o.user_id == user_id
    &&& o.item_id == data.items_id
    &&& o.price == data.price
    &&& o.count == data.count
    &&& o.currency@ == data.currency@
    &&& o.sub_time == sub_time
    &&& o.pay_time == 0
    &&& o.inventory_state == InventoryState::DOING.spec_code()
    &&& o.description is Some
    &&& text_or_empty(o.description) == text_or_empty(data.description)
}

/// Every row that survives a filter was a row of the filtered sequence.
proof fn lemma_filter_from(s: Seq<OrderDeInventoryMsg>, pred: spec_fn(OrderDeInventoryMsg) -> bool)
    ensures
        forall|i: int| 0 <= i < s.filter(pred).len() ==> s.contains(#[trigger] s.filter(pred)[i]),
    decreases s.len(),
{
    reveal(Seq::filter);
    if s.len() > 0 {
        lemma_filter_from(s.drop_last(), pred);
        let sub = s.drop_last().filter(pred);
        assert forall|i: int| 0 <= i < s.filter(pred).len() implies s.contains(#[trigger] s.filter(pred)[i]) by {
            if i < sub.len() {
                assert(s.filter(pred)[i] == sub[i]);
                let k = choose|k: int| 0 <= k < s.drop_last().len() && s.drop_last()[k] == sub[i];
                assert(s[k] == sub[i]);
            } else {
                assert(s.filter(pred)[i] == s.last());
                assert(s[s.len() - 1] == s.last());
            }
        }
    }
}

/// The orders of user `user_id`, in order of insertion.
pub open spec fn orders_of(orders: Seq<Order>, user_id: u128) -> Seq<Order> {
    orders.filter(|o: Order| o.user_id == user_id)
}

/// The first definitive answer for order `order_id` among the first `n`
/// calls of a reconciler pass, if any.
pub open spec fn first_answer(calls: Seq<DeductionCall>, replies: Seq<DeductionReply>, n: int, order_id: i32) -> Option<i32>
    decreases n,
{
    if n <= 0 {
        None
    } else {
        match first_answer(calls, replies, n - 1, order_id) {
            Some(c) => Some(c),
            None => if calls[n - 1].order_id == order_id {
                match replies[n - 1] {
                    DeductionReply::Answered(c) => Some(c),
                    DeductionReply::Unreachable => None,
                }
            } else {
                None
            },
        }
    }
}

/// Order `o` after the first `n` replies of a reconciler pass: settled by the
/// first definitive answer for it when it had an outbox row, else unchanged.
pub open spec fn reconciled(
    o: Order,
    outbox: Seq<OrderDeInventoryMsg>,
    calls: Seq<DeductionCall>,
    replies: Seq<DeductionReply>,
    n: int,
) -> Order {
    if has_outbox_row(outbox, o.id) {
        match first_answer(calls, replies, n, o.id) {
            Some(c) => settled(o, InventoryState::spec_for_result(c)),
            None => o,
        }
    } else {
        o
    }
}

/// The orders and outbox rows of the order database.
pub struct OrderBook {
    pub orders: Vec<Order>,
    pub outbox: Vec<OrderDeInventoryMsg>,
    pub next_msg_id: i32,
}

impl OrderBook {
    /// Orders are numbered 1, 2, ... and carry a known state; an order is in
    /// `DOING` exactly when an outbox row refers to it, and every outbox row
    /// refers to a committed order.
    pub open spec fn wf(&self) -> bool {
        &&& forall|i: int|
            0 <= i < self.orders@.len() ==> {
                &&& #[trigger] self.orders@[i].id == i + 1
                &&& 0 <= self.orders@[i].inventory_state <= 2
            }
        &&& forall|i: int|
            0 <= i < self.orders@.len() && #[trigger] self.orders@[i].inventory_state == 0
                ==> has_outbox_row(self.outbox@, self.orders@[i].id)
        &&& forall|k: int|
            0 <= k < self.outbox@.len() ==> {
                &&& 1 <= #[trigger] self.outbox@[k].order_id <= self.orders@.len()
                &&& order_at(self.orders@, self.outbox@[k].order_id).inventory_state == 0
                &&& 1 <= self.outbox@[k].id < self.next_msg_id
            }
        &&& 1 <= self.next_msg_id
    }

    /// An empty order database.
    pub fn new() -> (r: Self)
        ensures
            r.wf(),
            r.orders@.len() == 0,
            r.outbox@.len() == 0,
            r.next_msg_id == 1,
    {
        OrderBook { orders: Vec::new(), outbox: Vec::new(), next_msg_id: 1 }
    }

    /// Commits the intent of a new order in one step: the order is stored in
    /// state `DOING`, unpaid, and an outbox row for it is added beside it. Both
    /// rows are added or neither; when the order or outbox numbering would
    /// leave the 32-bit range, nothing changes and the error is internal.
    pub fn place_order(&mut self, user_id: u128, data: &AddOrder, sub_time: i64) -> (r: Result<i32, ApiError>)
        requires
            old(self).wf(),
        ensures
            final(self).wf(),
            old(self).orders@.len() < i32::MAX && old(self).next_msg_id < i32::MAX
                <==> r is Ok,
            r is Err ==> r == Err::<i32, ApiError>(ApiError::Internal) && *final(self) == *old(self),
            r matches Ok(id) ==> {
                &&& id == old(self).orders@.len() + 1
                &&& final(self).orders@.drop_last() == old(self).orders@
                &&& final(self).orders@.len() == old(self).orders@.len() + 1
                &&& placed(final(self).orders@.last(), id, user_id, *data, sub_time)
                &&& final(self).outbox@ == old(self).outbox@.push(OrderDeInventoryMsg {
                    id: old(self).next_msg_id,
                    user_id,
                    order_id: id,
                })
                &&& final(self).next_msg_id == old(self).next_msg_id + 1
            },
    {
        if self.orders.len() >= i32::MAX as usize || self.next_msg_id == i32::MAX {
            return Err(ApiError::Internal);
        }
        let id = (self.orders.len() + 1) as i32;
        let description = match &data.description {
            Some(d) => d.clone(),
            None => String::new(),
        };
        let order = Order {
            id,
            user_id,
            item_id: data.items_id,
            price: data.price,
            count: data.count,
            currency: data.currency.clone(),
            sub_time,
            pay_time: 0,
            inventory_state: InventoryState::DOING.code(),
            description: Some(description),
        };
        let msg = OrderDeInventoryMsg { id: self.next_msg_id, user_id, order_id: id };
        let ghost old_outbox = self.outbox@;
        self.orders.push(order);
        self.outbox.push(msg);
        self.next_msg_id = self.next_msg_id + 1;
        proof {
            assert(self.orders@.drop_last() =~= old(self).orders@);
            assert forall|i: int|
                0 <= i < self.orders@.len() && #[trigger] self.orders@[i].inventory_state == 0
                implies has_outbox_row(self.outbox@, self.orders@[i].id) by {
                if i == self.orders@.len() - 1 {
                    assert(self.outbox@[self.outbox@.len() - 1].order_id == id);
                } else {
                    let k = choose|k: int| 0 <= k < old_outbox.len() && old_outbox[k].order_id == self.orders@[i].id;
                    assert(self.outbox@[k] == old_outbox[k]);
                }
            }
            assert forall|k: int| 0 <= k < self.outbox@.len() implies {
                &&& 1 <= #[trigger] self.outbox@[k].order_id <= self.orders@.len()
                &&& order_at(self.orders@, self.outbox@[k].order_id).inventory_state == 0
                &&& 1 <= self.outbox@[k].id < self.next_msg_id
            } by {
                if k < old_outbox.len() {
                    assert(self.outbox@[k] == old_outbox[k]);
                }
            }
        }
        Ok(id)
    }

    /// The deduction calls that replay every outbox row, in outbox order.
    pub open spec fn pending_calls(&self) -> Seq<DeductionCall> {
        self.outbox@.map_values(|m: OrderDeInventoryMsg| call_for(order_at(self.orders@, m.order_id)))
    }

    /// Lists, for each outbox row, the deduction call that replays it: the
    /// order's item, count and id.
    pub fn pending(&self) -> (r: Vec<DeductionCall>)
        requires
            self.wf(),
        ensures
            r@ == self.pending_calls(),
    {
        let mut r: Vec<DeductionCall> = Vec::new();
        let mut k: usize = 0;
        while k < self.outbox.len()
            invariant
                self.wf(),
                k <= self.outbox@.len(),
                r@ == self.pending_calls().subrange(0, k as int),
            decreases self.outbox@.len() - k,
        {
            let order_id = self.outbox[k].order_id;
            let o = &self.orders[(order_id - 1) as usize];
            r.push(DeductionCall { inventory_id: o.item_id, count: o.count, order_id: o.id });
            assert(r@ =~= self.pending_calls().subrange(0, k + 1));
            k = k + 1;
        }
        assert(r@ =~= self.pending_calls());
        r
    }

    /// Applies the replies of one reconciler pass: `replies[i]` is what came
    /// back from `calls[i]`. Every definitively answered order leaves the
    /// outbox, no row is ever added, and when every call of the pending list
    /// was answered the outbox is drained.
    pub fn reconcile(&mut self, calls: &Vec<DeductionCall>, replies: &Vec<DeductionReply>)
        requires
            old(self).wf(),
            calls@.len() == replies@.len(),
        ensures
            final(self).wf(),
            forall|j: int| 0 <= j < replies@.len() && replies@[j] is Answered
                ==> !has_outbox_row(final(self).outbox@, #[trigger] calls@[j].order_id),
            forall|m: OrderDeInventoryMsg| final(self).outbox@.contains(m) ==> old(self).outbox@.contains(m),
            (forall|j: int| 0 <= j < replies@.len() ==> #[trigger] replies@[j] is Answered)
                && calls@ == old(self).pending_calls() ==> final(self).outbox@.len() == 0,
            final(self).orders@.len() == old(self).orders@.len(),
            forall|x: int| 0 <= x < old(self).orders@.len() ==> #[trigger] final(self).orders@[x]
                == reconciled(old(self).orders@[x], old(self).outbox@, calls@, replies@, calls@.len() as int),
            forall|m: OrderDeInventoryMsg| #[trigger] final(self).outbox@.contains(m)
                <==> old(self).outbox@.contains(m)
                && first_answer(calls@, replies@, calls@.len() as int, m.order_id) is None,
    {
        let mut i: usize = 0;
        while i < calls.len()
            invariant
                self.wf(),
                i <= calls@.len(),
                calls@.len() == replies@.len(),
                forall|j: int| 0 <= j < i && replies@[j] is Answered
                    ==> !has_outbox_row(self.outbox@, #[trigger] calls@[j].order_id),
                forall|m: OrderDeInventoryMsg| self.outbox@.contains(m) ==> old(self).outbox@.contains(m),
                old(self).wf(),
                self.orders@.len() == old(self).orders@.len(),
                forall|x: int| 0 <= x < old(self).orders@.len() ==> #[trigger] self.orders@[x]
                    == reconciled(old(self).orders@[x], old(self).outbox@, calls@, replies@, i as int),
                forall|m: OrderDeInventoryMsg| #[trigger] self.outbox@.contains(m)
                    <==> old(self).outbox@.contains(m)
                    && first_answer(calls@, replies@, i as int, m.order_id) is None,
            decreases calls@.len() - i,
        {
            let ghost before = self.outbox@;
            let ghost before_orders = self.orders@;
            let order_id = calls[i].order_id;
            let committed = self.complete_deduction(order_id, replies[i]);
            proof {
                if committed {
                    let pred = not_for(order_id);
                    before.filter_lemma(pred);
                    lemma_filter_from(before, pred);
                    assert forall|m: OrderDeInventoryMsg| self.outbox@.contains(m) implies old(self).outbox@.contains(m) by {
                        let j = choose|j: int| 0 <= j < self.outbox@.len() && self.outbox@[j] == m;
                        assert(before.contains(self.outbox@[j]));
                    }
                    assert forall|j: int| 0 <= j <= i && replies@[j] is Answered
                        implies !has_outbox_row(self.outbox@, #[trigger] calls@[j].order_id) by {
                        if has_outbox_row(self.outbox@, calls@[j].order_id) {
                            let w = choose|w: int| 0 <= w < self.outbox@.len() && self.outbox@[w].order_id == calls@[j].order_id;
                            assert(pred(self.outbox@[w]));
                            assert(before.contains(self.outbox@[w]));
                            let v = choose|v: int| 0 <= v < before.len() && before[v] == self.outbox@[w];
                            assert(has_outbox_row(before, calls@[j].order_id));
                        }
                    }
                }
            }
            proof {
                let n = i as int;
                let x = order_id;
                let ob = old(self).outbox@;
                assert forall|id: i32| id != x || replies@[n] is Unreachable
                    implies #[trigger] first_answer(calls@, replies@, n + 1, id) == first_answer(calls@, replies@, n, id) by {
                }
                if committed {
                    let pred = not_for(x);
                    before.filter_lemma(pred);
                    lemma_filter_from(before, pred);
                    let k0 = choose|k: int| 0 <= k < before.len() && before[k].order_id == x;
                    assert(before.contains(before[k0]));
                    assert(first_answer(calls@, replies@, n, x) is None);
                    assert(ob.contains(before[k0]));
                    let v = choose|v: int| 0 <= v < ob.len() && ob[v] == before[k0];
                    assert(has_outbox_row(ob, x));
                    assert(1 <= x <= before_orders.len());
                    assert(old(self).orders@[x - 1].id == x);
                    assert forall|m: OrderDeInventoryMsg| #[trigger] self.outbox@.contains(m)
                        <==> ob.contains(m) && first_answer(calls@, replies@, n + 1, m.order_id) is None by {
                        if self.outbox@.contains(m) {
                            let j = choose|j: int| 0 <= j < self.outbox@.len() && self.outbox@[j] == m;
                            assert(pred(self.outbox@[j]));
                            assert(before.contains(self.outbox@[j]));
                        }
                        if ob.contains(m) && first_answer(calls@, replies@, n + 1, m.order_id) is None {
                            assert(m.order_id != x);
                            assert(before.contains(m));
                            let j = choose|j: int| 0 <= j < before.len() && before[j] == m;
                            assert(pred(before[j]));
                        }
                    }
                    assert forall|y: int| 0 <= y < old(self).orders@.len() implies #[trigger] self.orders@[y]
                        == reconciled(old(self).orders@[y], ob, calls@, replies@, n + 1) by {
                        assert(old(self).orders@[y].id == y + 1);
                        if y != x - 1 {
                            assert(self.orders@[y] == before_orders[y]);
                        }
                    }
                } else {
                    assert forall|m: OrderDeInventoryMsg| #[trigger] self.outbox@.contains(m)
                        <==> ob.contains(m) && first_answer(calls@, replies@, n + 1, m.order_id) is None by {
                        if ob.contains(m) && m.order_id == x && first_answer(calls@, replies@, n, x) is None {
                            assert(before.contains(m));
                            let j = choose|j: int| 0 <= j < before.len() && before[j] == m;
                            assert(has_outbox_row(before, x));
                        }
                    }
                    assert forall|y: int| 0 <= y < old(self).orders@.len() implies #[trigger] self.orders@[y]
                        == reconciled(old(self).orders@[y], ob, calls@, replies@, n + 1) by {
                        assert(old(self).orders@[y].id == y + 1);
                        if old(self).orders@[y].id == x && has_outbox_row(ob, x)
                            && first_answer(calls@, replies@, n, x) is None && replies@[n] is Answered {
                            let v = choose|v: int| 0 <= v < ob.len() && ob[v].order_id == x;
                            assert(ob.contains(ob[v]));
                            assert(before.contains(ob[v]));
                            let j = choose|j: int| 0 <= j < before.len() && before[j] == ob[v];
                            assert(has_outbox_row(before, x));
                        }
                    }
                }
            }
            i = i + 1;
        }
        proof {
            if (forall|j: int| 0 <= j < replies@.len() ==> #[trigger] replies@[j] is Answered)
                && calls@ == old(self).pending_calls() {
                if self.outbox@.len() > 0 {
                    let m = self.outbox@[0];
                    assert(self.outbox@.contains(m));
                    let v = choose|v: int| 0 <= v < old(self).outbox@.len() && old(self).outbox@[v] == m;
                    assert(calls@[v].order_id == m.order_id);
                    assert(has_outbox_row(self.outbox@, calls@[v].order_id));
                }
            }
        }
    }

    /// One page of a user's orders, in order of insertion: the rows from
    /// `page * page_size`, at most `page_size` of them. A negative page or
    /// page size, or an offset out of the 64-bit range, is a bad request.
    pub fn orders_of_user(&self, params: &GetOrderParams) -> (r: Result<Vec<Order>, ApiError>)
        ensures
            r is Err <==> !(params.page >= 0 && params.page_size >= 0
                && params.page * params.page_size <= i64::MAX),
            r is Err ==> r == Err::<Vec<Order>, ApiError>(ApiError::BadRequest),
            r matches Ok(v) ==> v@ == page_of(
                orders_of(self.orders@, params.user_id),
                params.page * params.page_size,
                params.page_size as int,
            ),
    {
        let offset = match page_offset(params.page, params.page_size) {
            Some(off) => off,
            None => { return Err(ApiError::BadRequest); },
        };
        let limit = params.page_size;
        let ghost uid = params.user_id;
        let mut r: Vec<Order> = Vec::new();
        let mut seen: usize = 0;
        let mut k: usize = 0;
        while k < self.orders.len()
            invariant
                k <= self.orders@.len(),
                offset >= 0,
                limit >= 0,
                uid == params.user_id,
                seen as int == orders_of(self.orders@.subrange(0, k as int), uid).len(),
                seen <= k,
                r@ == page_of(orders_of(self.orders@.subrange(0, k as int), uid), offset as int, limit as int),
            decreases self.orders@.len() - k,
        {
            let o = self.orders[k].duplicate();
            proof {
                let next = self.orders@.subrange(0, k + 1);
                assert(next.drop_last() =~= self.orders@.subrange(0, k as int));
                assert(next.last() == o);
                reveal(Seq::filter);
                lemma_page_push(orders_of(self.orders@.subrange(0, k as int), uid), o, offset as int, limit as int);
            }
            if o.user_id == params.user_id {
                if seen as u64 >= offset as u64 && (seen as u64) - (offset as u64) < limit as u64 {
                    r.push(o);
                }
                seen = seen + 1;
            }
            k = k + 1;
        }
        assert(self.orders@.subrange(0, k as int) =~= self.orders@);
        Ok(r)
    }

    /// Position of some outbox row for `order_id`.
    fn find_outbox_row(&self, order_id: i32) -> (r: Option<usize>)
        ensures
            r is None <==> !has_outbox_row(self.outbox@, order_id),
            r matches Some(k) ==> k < self.outbox@.len() && self.outbox@[k as int].order_id == order_id,
    {
        let mut k: usize = 0;
        while k < self.outbox.len()
            invariant
                k <= self.outbox@.len(),
                forall|j: int| 0 <= j < k ==> self.outbox@[j].order_id != order_id,
            decreases self.outbox@.len() - k,
        {
            if self.outbox[k].order_id == order_id {
                return Some(k);
            }
            k = k + 1;
        }
        None
    }

    /// Commits a definitive reply `code` of the inventory service for order
    /// `order_id` in one step: its outbox rows are deleted and the order moves
    /// to `SUCCESS` (code 200) or `FAIL`. When no outbox row for the order is
    /// left, the reply was already committed: nothing changes and `false` is
    /// returned.
    pub fn settle(&mut self, order_id: i32, code: i32) -> (r: bool)
        requires
            old(self).wf(),
        ensures
            final(self).wf(),
            r == has_outbox_row(old(self).outbox@, order_id),
            !r ==> *final(self) == *old(self),
            r ==> {
                &&& final(self).outbox@ == old(self).outbox@.filter(not_for(order_id))
                &&& final(self).orders@ == old(self).orders@.update(
                    order_id - 1,
                    settled(order_at(old(self).orders@, order_id), InventoryState::spec_for_result(code)),
                )
                &&& final(self).next_msg_id == old(self).next_msg_id
            },
    {
        let k0 = match self.find_outbox_row(order_id) {
            Some(k) => k,
            None => { return false; },
        };
        let ghost old_outbox = self.outbox@;
        let ghost pred = not_for(order_id);
        let mut kept: Vec<OrderDeInventoryMsg> = Vec::new();
        let mut k: usize = 0;
        while k < self.outbox.len()
            invariant
                k <= self.outbox@.len(),
                self.outbox@ == old_outbox,
                pred == not_for(order_id),
                kept@ == self.outbox@.subrange(0, k as int).filter(pred),
            decreases self.outbox@.len() - k,
        {
            let m = self.outbox[k];
            proof {
                let next = self.outbox@.subrange(0, k + 1);
                assert(next.drop_last() =~= self.outbox@.subrange(0, k as int));
                assert(next.last() == m);
                reveal(Seq::filter);
            }
            if m.order_id != order_id {
                kept.push(m);
            }
            k = k + 1;
        }
        assert(self.outbox@.subrange(0, k as int) =~= self.outbox@);
        let idx = (order_id - 1) as usize;
        let state = InventoryState::for_result(code);
        self.outbox = kept;
        self.orders[idx].inventory_state = state.code();
        proof {
            old_outbox.filter_lemma(pred);
            lemma_filter_from(old_outbox, pred);
            let new_orders = self.orders@;
            assert(new_orders =~= old(self).orders@.update(
                order_id - 1,
                settled(order_at(old(self).orders@, order_id), InventoryState::spec_for_result(code)),
            ));
            assert forall|i: int| 0 <= i < new_orders.len() implies {
                &&& #[trigger] new_orders[i].id == i + 1
                &&& 0 <= new_orders[i].inventory_state <= 2
            } by {
                if i != idx {
                    assert(old(self).orders@[i] == new_orders[i]);
                }
            }
            assert forall|i: int|
                0 <= i < new_orders.len() && #[trigger] new_orders[i].inventory_state == 0
                implies has_outbox_row(self.outbox@, new_orders[i].id) by {
                assert(i != idx);
                assert(old(self).orders@[i] == new_orders[i]);
                let w = choose|w: int| 0 <= w < old_outbox.len() && old_outbox[w].order_id == old(self).orders@[i].id;
                assert(pred(old_outbox[w]));
                assert(self.outbox@.contains(old_outbox[w]));
                let j = choose|j: int| 0 <= j < self.outbox@.len() && self.outbox@[j] == old_outbox[w];
                assert(self.outbox@[j].order_id == new_orders[i].id);
            }
            assert forall|j: int| 0 <= j < self.outbox@.len() implies {
                &&& 1 <= #[trigger] self.outbox@[j].order_id <= self.orders@.len()
                &&& order_at(self.orders@, self.outbox@[j].order_id).inventory_state == 0
                &&& 1 <= self.outbox@[j].id < self.next_msg_id
            } by {
                assert(old_outbox.contains(self.outbox@[j]));
                assert(pred(self.outbox@[j]));
                let w = choose|w: int| 0 <= w < old_outbox.len() && old_outbox[w] == self.outbox@[j];
                assert(old_outbox[w].order_id != order_id);
            }
            assert(1 <= self.next_msg_id);
            assert(forall|i: int|
                0 <= i < self.orders@.len() ==> {
                    &&& #[trigger] self.orders@[i].id == i + 1
                    &&& 0 <= self.orders@[i].inventory_state <= 2
                });
            assert(forall|i: int|
                0 <= i < self.orders@.len() && #[trigger] self.orders@[i].inventory_state == 0
                    ==> has_outbox_row(self.outbox@, self.orders@[i].id));
            assert(forall|k: int|
                0 <= k < self.outbox@.len() ==> {
                    &&& 1 <= #[trigger] self.outbox@[k].order_id <= self.orders@.len()
                    &&& order_at(self.orders@, self.outbox@[k].order_id).inventory_state == 0
                    &&& 1 <= self.outbox@[k].id < self.next_msg_id
                });
            assert(self.wf());
        }
        true
    }

    /// Applies what came back from the deduction call for `order_id`: a
    /// definitive answer is committed as by `settle`; an unreachable service
    /// leaves the order in `DOING` with its outbox row, for the reconciler.
    /// Returns whether anything was committed.
    pub fn complete_deduction(&mut self, order_id: i32, reply: DeductionReply) -> (r: bool)
        requires
            old(self).wf(),
        ensures
            final(self).wf(),
            reply is Unreachable ==> !r && *final(self) == *old(self),
            reply matches DeductionReply::Answered(code) ==> {
                &&& r == has_outbox_row(old(self).outbox@, order_id)
                &&& !r ==> *final(self) == *old(self)
                &&& r ==> final(self).outbox@ == old(self).outbox@.filter(not_for(order_id))
                    && final(self).orders@ == old(self).orders@.update(
                        order_id - 1,
                        settled(order_at(old(self).orders@, order_id), InventoryState::spec_for_result(code)),
                    )
            },
    {
        match reply {
            DeductionReply::Answered(code) => self.settle(order_id, code),
            DeductionReply::Unreachable => false,
        }
    }
}

/// An order that is still waiting for its inventory deduction always has
/// an outbox row.
pub proof fn lemma_doing_order_has_outbox_row(book: OrderBook, i: int)
    requires
        book.wf(),
        0 <= i < book.orders@.len(),
        book.orders@[i].inventory_state == InventoryState::DOING.spec_code(),
    ensures
        has_outbox_row(book.outbox@, book.orders@[i].id),
{
}

/// Every outbox row belongs to a committed order that is still waiting for
/// its deduction; once an order is settled no row of it is left.
pub proof fn lemma_outbox_row_has_waiting_order(book: OrderBook, k: int)
    requires
        book.wf(),
        0 <= k < book.outbox@.len(),
    ensures
        1 <= book.outbox@[k].order_id <= book.orders@.len(),
        order_at(book.orders@, book.outbox@[k].order_id).id == book.outbox@[k].order_id,
        order_at(book.orders@, book.outbox@[k].order_id).inventory_state == InventoryState::DOING.spec_code(),
{
    let o = book.outbox@[k].order_id;
    assert(book.orders@[o - 1].id == o);
}

/// Relies on idgenerator::IdInstance::next_id: the next id of the
/// process-wide generator. Nothing is promised of the value.
#[verifier::external_body]
fn next_generated_id() -> (r: i64) {
    idgenerator::IdInstance::next_id()
}

/// Hands an authenticated client a fresh idempotency tag from the id
/// generator; without verified claims the request is unauthorized.
pub fn request_new_order_token(claims: Option<Claims>) -> (r: Result<NewOrderToken, ApiError>)
    ensures
        r is Ok <==> claims is Some,
        r is Err ==> r == Err::<NewOrderToken, ApiError>(ApiError::Unauthorized),
{
    match claims {
        Some(_) => Ok(NewOrderToken { token: next_generated_id() }),
        None => Err(ApiError::Unauthorized),
    }
}

/// Accepts an order from the holder of `claims`. Without verified claims the
/// request is unauthorized and nothing is stored. Otherwise the order's intent
/// is committed as by `place_order`, owned by the claims' subject, and the
/// deduction call to make next is returned with the answer; what that call
/// brings back no longer changes the answer.
pub fn add_new_order(book: &mut OrderBook, claims: Option<Claims>, data: &AddOrder, sub_time: i64)
    -> (r: Result<(AddOrderResult, DeductionCall), ApiError>)
    requires
        old(book).wf(),
    ensures
        final(book).wf(),
        claims is None ==> r == Err::<(AddOrderResult, DeductionCall), ApiError>(ApiError::Unauthorized)
            && *final(book) == *old(book),
        claims matches Some(c) ==> {
            &&& (r is Ok <==> old(book).orders@.len() < i32::MAX && old(book).next_msg_id < i32::MAX)
            &&& r is Err ==> r == Err::<(AddOrderResult, DeductionCall), ApiError>(ApiError::Internal)
                && *final(book) == *old(book)
            &&& r matches Ok((answer, call)) ==> {
                &&& answer.description@ == "add successed."@
                &&& final(book).orders@.drop_last() == old(book).orders@
                &&& final(book).orders@.len() == old(book).orders@.len() + 1
                &&& placed(final(book).orders@.last(), call.order_id, c.sub, *data, sub_time)
                &&& final(book).outbox@ == old(book).outbox@.push(OrderDeInventoryMsg {
                    id: old(book).next_msg_id,
                    user_id: c.sub,
                    order_id: call.order_id,
                })
                &&& call == call_for(final(book).orders@.last())
            }
        },
{
    let c = match claims {
        Some(c) => c,
        None => { return Err(ApiError::Unauthorized); },
    };
    let id = book.place_order(c.sub, data, sub_time)?;
    let call = DeductionCall { inventory_id: data.items_id, count: data.count, order_id: id };
    Ok((AddOrderResult { description: "add successed.".to_string() }, call))
}

} // verus!
