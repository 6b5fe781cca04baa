//! The inventory engine: stock rows, the append-only ledger of changes, and
//! the deduction that is idempotent per order id.
use vstd::prelude::*;
use crate::error::ApiError;

verus! {

/// The result code of a successful stock change.
pub const RESULT_OK: i32 = 200;

/// One stock row.
#[derive(Debug, Clone)]
pub struct Inventory {
    pub id: i32,
    pub count: i32,
    pub description: Option<String>,
}

/// One ledger row: a signed delta on an inventory row. Deductions carry the
/// order id they were made for.
#[derive(Debug, Clone)]
pub struct InventoryChange {
    pub id: i32,
    pub count: i32,
    pub inventory_id: i32,
    pub deduction_order_id: Option<i32>,
    pub description: Option<String>,
}

/// A request to take `count` units from an inventory row for an order.
#[derive(Debug, Clone)]
pub struct DeducteInventoryRequest {
    pub inventory_id: i32,
    pub count: i32,
    pub order_id: i32,
    pub description: Option<String>,
}

/// A request to add `count` units to an inventory row.
#[derive(Debug, Clone)]
pub struct AddInventoryRequest {
    pub inventory_id: i32,
    pub count: i32,
    pub description: Option<String>,
}

/// The answer to a stock change.
#[derive(Debug, Clone)]
pub struct ChangeInventoryResult {
    pub result: i32,
    pub description: Option<String>,
}

/// A lookup by inventory id.
#[derive(Debug, Clone, Copy, PartialEq, Eq, Structural)]
pub struct QueryRequest {
    pub id: i32,
}

/// The description stored with a change: the given one, or empty.
pub open spec fn stored_description(d: Option<String>) -> Seq<char> {
    match d {
        Some(s) => s@,
        None => Seq::empty(),
    }
}

/// Some ledger row already records a deduction for `order_id`.
pub open spec fn deducted_for(changes: Seq<InventoryChange>, order_id: i32) -> bool {
    exists|k: int| 0 <= k < changes.len() && changes[k].deduction_order_id == Some(order_id)
}

/// Some stock row has id `id`.
pub open spec fn has_inventory(stock: Seq<Inventory>, id: i32) -> bool {
    exists|k: int| 0 <= k < stock.len() && stock[k].id == id
}

/// No two ledger rows carry the same deduction order id.
pub open spec fn deductions_unique(changes: Seq<InventoryChange>) -> bool {
    forall|i: int, j: int|
        0 <= i < j < changes.len() && changes[i].deduction_order_id.is_some()
            ==> changes[i].deduction_order_id != changes[j].deduction_order_id
}

/// The stock row `k` after `delta` units were added to it.
pub open spec fn adjusted(stock: Seq<Inventory>, k: int, delta: int) -> Seq<Inventory> {
    stock.update(k, Inventory { count: (stock[k].count + delta) as i32, ..stock[k] })
}

/// Ledger rows that belong to inventory row `id`, in ledger order.
pub open spec fn changes_of(changes: Seq<InventoryChange>, id: i32) -> Seq<InventoryChange> {
    changes.filter(|c: InventoryChange| c.inventory_id == id)
}

impl Inventory {
    /// A field-for-field copy.
    pub fn duplicate(&self) -> (r: Inventory)
        ensures
            r == *self,
    {
        Inventory { id: self.id, count: self.count, description: self.description.clone() }
    }
}

impl InventoryChange {
    /// A field-for-field copy.
    pub fn duplicate(&self) -> (r: InventoryChange)
        ensures
            r == *self,
    {
        InventoryChange {
            id: self.id,
            count: self.count,
            inventory_id: self.inventory_id,
            deduction_order_id: self.deduction_order_id,
            description: self.description.clone(),
        }
    }
}

/// In a ledger where deductions are unique, at most one row records a
/// deduction for any given order id.
pub proof fn lemma_one_deduction_per_order(changes: Seq<InventoryChange>, order_id: i32, i: int, j: int)
    requires
        deductions_unique(changes),
        0 <= i < changes.len(),
        0 <= j < changes.len(),
        changes[i].deduction_order_id == Some(order_id),
        changes[j].deduction_order_id == Some(order_id),
    ensures
        i == j,
{
    if i < j {
        assert(changes[i].deduction_order_id != changes[j].deduction_order_id);
    } else if j < i {
        assert(changes[j].deduction_order_id != changes[i].deduction_order_id);
    }
}

/// The stock rows and the ledger of one inventory database.
pub struct InventoryLedger {
    pub stock: Vec<Inventory>,
    pub changes: Vec<InventoryChange>,
}

impl InventoryLedger {
    /// Stock ids are unique, ledger rows are numbered 1, 2, ... in order of
    /// insertion, and each order id is deducted at most once.
    pub open spec fn wf(&self) -> bool {
        &&& forall|i: int, j: int|
            0 <= i < j < self.stock@.len() ==> self.stock@[i].id != self.stock@[j].id
        &&& forall|i: int| 0 <= i < self.changes@.len() ==> self.changes@[i].id == i + 1
        &&& deductions_unique(self.changes@)
    }

    /// An empty ledger over the given stock rows, which must have distinct ids.
    pub fn new(stock: Vec<Inventory>) -> (r: Self)
        requires
            forall|i: int, j: int| 0 <= i < j < stock@.len() ==> stock@[i].id != stock@[j].id,
        ensures
            r.wf(),
            r.stock@ == stock@,
            r.changes@.len() == 0,
    {
        InventoryLedger { stock, changes: Vec::new() }
    }

    /// Opens a stock row. An id that already has a row is a conflict, and
    /// nothing changes; otherwise the row is added after the others.
    pub fn open_row(&mut self, row: Inventory) -> (r: Result<(), ApiError>)
        requires
            old(self).wf(),
        ensures
            final(self).wf(),
            final(self).changes@ == old(self).changes@,
            has_inventory(old(self).stock@, row.id) ==> r == Err::<(), ApiError>(ApiError::Conflict)
                && *final(self) == *old(self),
            !has_inventory(old(self).stock@, row.id) ==> r is Ok && final(self).stock@ == old(self).stock@.push(row),
    {
        if self.find_stock(row.id).is_some() {
            return Err(ApiError::Conflict);
        }
        self.stock.push(row);
        proof {
            assert forall|i: int, j: int| 0 <= i < j < self.stock@.len() implies self.stock@[i].id != self.stock@[j].id by {
                if j == self.stock@.len() - 1 {
                    assert(self.stock@[i] == old(self).stock@[i]);
                }
            }
        }
        Ok(())
    }

    /// Position of the stock row with id `id`.
    fn find_stock(&self, id: i32) -> (r: Option<usize>)
        requires
            self.wf(),
        ensures
            match r {
                Some(k) => k < self.stock@.len() && self.stock@[k as int].id == id,
                None => !has_inventory(self.stock@, id),
            },
    {
        let mut k: usize = 0;
        while k < self.stock.len()
            invariant
                k <= self.stock@.len(),
                forall|j: int| 0 <= j < k ==> self.stock@[j].id != id,
            decreases self.stock@.len() - k,
        {
            if self.stock[k].id == id {
                return Some(k);
            }
            k = k + 1;
        }
        None
    }

    /// Whether the ledger already records a deduction for `order_id`.
    pub fn already_deducted(&self, order_id: i32) -> (r: bool)
        ensures
            r == deducted_for(self.changes@, order_id),
    {
        let mut k: usize = 0;
        while k < self.changes.len()
            invariant
                k <= self.changes@.len(),
                forall|j: int| 0 <= j < k ==> self.changes@[j].deduction_order_id != Some(order_id),
            decreases self.changes@.len() - k,
        {
            if self.changes[k].deduction_order_id == Some(order_id) {
                return true;
            }
            k = k + 1;
        }
        false
    }

    /// The stock row with id `id`, if there is one.
    pub fn query(&self, id: i32) -> (r: Option<Inventory>)
        requires
            self.wf(),
        ensures
            r.is_none() == !has_inventory(self.stock@, id),
            r matches Some(inv) ==> inv.id == id && self.stock@.contains(inv),
    {
        match self.find_stock(id) {
            Some(k) => {
                let inv = self.stock[k].duplicate();
                assert(self.stock@[k as int] == inv);
                Some(inv)
            },
            None => None,
        }
    }

    /// The ledger rows of inventory row `id`, oldest first.
    pub fn history(&self, id: i32) -> (r: Vec<InventoryChange>)
        ensures
            r@ == changes_of(self.changes@, id),
    {
        let mut r: Vec<InventoryChange> = Vec::new();
        let mut k: usize = 0;
        while k < self.changes.len()
            invariant
                k <= self.changes@.len(),
                r@ == changes_of(self.changes@.subrange(0, k as int), id),
            decreases self.changes@.len() - k,
        {
            let c = self.changes[k].duplicate();
            proof {
                let next = self.changes@.subrange(0, k + 1);
                assert(next.drop_last() =~= self.changes@.subrange(0, k as int));
                assert(next.last() == c);
                reveal(Seq::filter);
            }
            if c.inventory_id == id {
                r.push(c);
            }
            k = k + 1;
        }
        assert(self.changes@.subrange(0, k as int) =~= self.changes@);
        r
    }

    /// Takes `req.count` units from stock for `req.order_id`, at most once per
    /// order id. A count that is not positive is a bad request; a repeated
    /// order id succeeds without a second deduction; an unknown inventory id is
    /// not found; a count or ledger size out of the 32-bit range is internal.
    /// On a fresh deduction the row loses `req.count` units and the ledger
    /// gains one row with delta `-req.count` for the order.
    pub fn deduct(&mut self, req: &DeducteInventoryRequest) -> (r: Result<ChangeInventoryResult, ApiError>)
        requires
            old(self).wf(),
        ensures
            final(self).wf(),
            r is Ok ==> deducted_for(final(self).changes@, req.order_id),
            req.count <= 0 ==> r == Err::<ChangeInventoryResult, ApiError>(ApiError::BadRequest)
                && *final(self) == *old(self),
            req.count > 0 && deducted_for(old(self).changes@, req.order_id) ==> {
                &&& r is Ok && r->Ok_0.result == RESULT_OK
                &&& *final(self) == *old(self)
            },
            req.count > 0 && !deducted_for(old(self).changes@, req.order_id)
                && !has_inventory(old(self).stock@, req.inventory_id) ==> {
                &&& r == Err::<ChangeInventoryResult, ApiError>(ApiError::NotFound)
                &&& *final(self) == *old(self)
            },
            forall|k: int|
                0 <= k < old(self).stock@.len() && old(self).stock@[k].id == req.inventory_id
                    && req.count > 0 && !deducted_for(old(self).changes@, req.order_id) ==> {
                    let fits = old(self).stock@[k].count - req.count >= i32::MIN
                        && old(self).changes@.len() < i32::MAX;
                    &&& !fits ==> r == Err::<ChangeInventoryResult, ApiError>(ApiError::Internal)
                        && *final(self) == *old(self)
                    &&& fits ==> {
                        &&& r is Ok && r->Ok_0.result == RESULT_OK
                        &&& final(self).stock@ == adjusted(old(self).stock@, k, -req.count)
                        &&& final(self).changes@.len() == old(self).changes@.len() + 1
                        &&& final(self).changes@.drop_last() == old(self).changes@
                        &&& final(self).changes@.last().count == -req.count
                        &&& final(self).changes@.last().inventory_id == req.inventory_id
                        &&& final(self).changes@.last().deduction_order_id == Some(req.order_id)
                        &&& stored_description(final(self).changes@.last().description)
                            == stored_description(req.description)
                    }
                },
    {
        if req.count <= 0 {
            return Err(ApiError::BadRequest);
        }
        if self.already_deducted(req.order_id) {
            return Ok(ChangeInventoryResult {
                result: RESULT_OK,
                description: Some("deduction already done, success.".to_string()),
            });
        }
        let k = match self.find_stock(req.inventory_id) {
            Some(k) => k,
            None => { return Err(ApiError::NotFound); },
        };
        let current = self.stock[k].count;
        if current < i32::MIN + req.count || self.changes.len() >= i32::MAX as usize {
            return Err(ApiError::Internal);
        }
        let description = match &req.description {
            Some(d) => d.clone(),
            None => String::new(),
        };
        let change = InventoryChange {
            id: (self.changes.len() + 1) as i32,
            count: -req.count,
            inventory_id: req.inventory_id,
            deduction_order_id: Some(req.order_id),
            description: Some(description),
        };
        self.stock[k].count = current - req.count;
        self.changes.push(change);
        proof {
            assert(self.stock@ =~= adjusted(old(self).stock@, k as int, -req.count));
            assert(self.changes@.drop_last() =~= old(self).changes@);
            assert forall|i: int, j: int|
                0 <= i < j < self.changes@.len() && self.changes@[i].deduction_order_id.is_some()
                implies self.changes@[i].deduction_order_id != self.changes@[j].deduction_order_id by {
                if j == self.changes@.len() - 1 {
                    assert(old(self).changes@[i] == self.changes@[i]);
                }
            }
        }
        Ok(ChangeInventoryResult { result: RESULT_OK, description: Some("success.".to_string()) })
    }

    /// Adds `req.count` units to stock. A count that is not positive is a bad
    /// request; an unknown inventory id is not found; a count or ledger size
    /// out of the 32-bit range is internal. On success the row gains
    /// `req.count` units and the ledger one row with that delta and no order.
    pub fn add(&mut self, req: &AddInventoryRequest) -> (r: Result<ChangeInventoryResult, ApiError>)
        requires
            old(self).wf(),
        ensures
            final(self).wf(),
            req.count <= 0 ==> r == Err::<ChangeInventoryResult, ApiError>(ApiError::BadRequest)
                && *final(self) == *old(self),
            req.count > 0 && !has_inventory(old(self).stock@, req.inventory_id) ==> {
                &&& r == Err::<ChangeInventoryResult, ApiError>(ApiError::NotFound)
                &&& *final(self) == *old(self)
            },
            forall|k: int|
                0 <= k < old(self).stock@.len() && old(self).stock@[k].id == req.inventory_id
                    && req.count > 0 ==> {
                    let fits = old(self).stock@[k].count + req.count <= i32::MAX
                        && old(self).changes@.len() < i32::MAX;
                    &&& !fits ==> r == Err::<ChangeInventoryResult, ApiError>(ApiError::Internal)
                        && *final(self) == *old(self)
                    &&& fits ==> {
                        &&& r is Ok && r->Ok_0.result == RESULT_OK
                        &&& final(self).stock@ == adjusted(old(self).stock@, k, req.count as int)
                        &&& final(self).changes@.len() == old(self).changes@.len() + 1
                        &&& final(self).changes@.drop_last() == old(self).changes@
                        &&& final(self).changes@.last().count == req.count
                        &&& final(self).changes@.last().inventory_id == req.inventory_id
                        &&& final(self).changes@.last().deduction_order_id.is_none()
                        &&& stored_description(final(self).changes@.last().description)
                            == stored_description(req.description)
                    }
                },
    {
        if req.count <= 0 {
            return Err(ApiError::BadRequest);
        }
        let k = match self.find_stock(req.inventory_id) {
            Some(k) => k,
            None => { return Err(ApiError::NotFound); },
        };
        let current = self.stock[k].count;
        if current > i32::MAX - req.count || self.changes.len() >= i32::MAX as usize {
            return Err(ApiError::Internal);
        }
        let description = match &req.description {
            Some(d) => d.clone(),
            None => String::new(),
        };
        let change = InventoryChange {
            id: (self.changes.len() + 1) as i32,
            count: req.count,
            inventory_id: req.inventory_id,
            deduction_order_id: None,
            description: Some(description),
        };
        self.stock[k].count = current + req.count;
        self.changes.push(change);
        proof {
            assert(self.stock@ =~= adjusted(old(self).stock@, k as int, req.count as int));
            assert(self.changes@.drop_last() =~= old(self).changes@);
            assert forall|i: int, j: int|
                0 <= i < j < self.changes@.len() && self.changes@[i].deduction_order_id.is_some()
                implies self.changes@[i].deduction_order_id != self.changes@[j].deduction_order_id by {
                if j == self.changes@.len() - 1 {
                    assert(old(self).changes@[i] == self.changes@[i]);
                }
            }
        }
        Ok(ChangeInventoryResult { result: RESULT_OK, description: Some("success.".to_string()) })
    }
}

/// The result code sent back for a stock change: the change's own code on
/// success, the error's HTTP status otherwise.
pub fn reply_code(r: &Result<ChangeInventoryResult, ApiError>) -> (code: i32)
    ensures
        match r {
            Ok(c) => code == c.result,
            Err(e) => code == e.spec_status() as i32,
        },
{
    match r {
        Ok(c) => c.result,
        Err(e) => e.status_code() as i32,
    }
}

/// Serves a deduction call of the order service: deducts `deduction_count`
/// units of `inventory_id` for `orders_id`, as `InventoryLedger::deduct`
/// does, and answers with the result code, 200 meaning success.
pub fn handle_deduction(ledger: &mut InventoryLedger, inventory_id: i32, deduction_count: i32, orders_id: i32) -> (code: i32)
    requires
        old(ledger).wf(),
    ensures
        final(ledger).wf(),
        deduction_count <= 0 ==> code == 400 && *final(ledger) == *old(ledger),
        deduction_count > 0 && deducted_for(old(ledger).changes@, orders_id)
            ==> code == RESULT_OK && *final(ledger) == *old(ledger),
        deduction_count > 0 && !deducted_for(old(ledger).changes@, orders_id)
            && !has_inventory(old(ledger).stock@, inventory_id) ==> code == 404 && *final(ledger) == *old(ledger),
        code == RESULT_OK ==> deducted_for(final(ledger).changes@, orders_id),
        code != RESULT_OK ==> *final(ledger) == *old(ledger),
        forall|k: int|
            0 <= k < old(ledger).stock@.len() && old(ledger).stock@[k].id == inventory_id
                && deduction_count > 0 && !deducted_for(old(ledger).changes@, orders_id) ==> {
                let fits = old(ledger).stock@[k].count - deduction_count >= i32::MIN
                    && old(ledger).changes@.len() < i32::MAX;
                &&& !fits ==> code == 500
                &&& fits ==> {
                    &&& code == RESULT_OK
                    &&& final(ledger).stock@ == adjusted(old(ledger).stock@, k, -deduction_count)
                    &&& final(ledger).changes@.len() == old(ledger).changes@.len() + 1
                    &&& final(ledger).changes@.drop_last() == old(ledger).changes@
                    &&& final(ledger).changes@.last().count == -deduction_count
                    &&& final(ledger).changes@.last().inventory_id == inventory_id
                    &&& final(ledger).changes@.last().deduction_order_id == Some(orders_id)
                    &&& stored_description(final(ledger).changes@.last().description) == "from grpc."@
                }
            },
{
    let req = DeducteInventoryRequest {
        inventory_id,
        count: deduction_count,
        order_id: orders_id,
        description: Some("from grpc.".to_string()),
    };
    let r = ledger.deduct(&req);
    reply_code(&r)
}

} // verus!
