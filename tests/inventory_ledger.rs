use microshop::error::ApiError;
use microshop::inventory::{
    handle_deduction, reply_code, AddInventoryRequest, ChangeInventoryResult, DeducteInventoryRequest,
    Inventory, InventoryLedger, RESULT_OK,
};

fn ledger_with(id: i32, count: i32) -> InventoryLedger {
    InventoryLedger::new(vec![Inventory { id, count, description: Some("item".to_string()) }])
}

fn deduction(inventory_id: i32, count: i32, order_id: i32) -> DeducteInventoryRequest {
    DeducteInventoryRequest { inventory_id, count, order_id, description: None }
}

#[test]
fn deduct_takes_stock_and_records_the_order() {
    let mut l = ledger_with(10, 5);
    let r = l.deduct(&deduction(10, 2, 7)).unwrap();
    assert_eq!(r.result, 200);
    assert_eq!(l.query(10).unwrap().count, 3);
    let h = l.history(10);
    assert_eq!(h.len(), 1);
    assert_eq!(h[0].count, -2);
    assert_eq!(h[0].deduction_order_id, Some(7));
    assert_eq!(h[0].inventory_id, 10);
    assert_eq!(h[0].id, 1);
}

#[test]
fn repeated_order_id_deducts_once() {
    let mut l = ledger_with(10, 5);
    assert!(l.deduct(&deduction(10, 2, 7)).is_ok());
    let second = l.deduct(&deduction(10, 2, 7)).unwrap();
    assert_eq!(second.result, RESULT_OK);
    assert_eq!(l.query(10).unwrap().count, 3);
    let rows: Vec<_> = l.history(10).into_iter().filter(|c| c.deduction_order_id == Some(7)).collect();
    assert_eq!(rows.len(), 1);
}

#[test]
fn deduct_rejects_non_positive_count() {
    let mut l = ledger_with(10, 5);
    assert_eq!(l.deduct(&deduction(10, 0, 7)).unwrap_err(), ApiError::BadRequest);
    assert_eq!(l.deduct(&deduction(10, -3, 8)).unwrap_err(), ApiError::BadRequest);
    assert_eq!(l.query(10).unwrap().count, 5);
    assert!(l.history(10).is_empty());
}

#[test]
fn deduct_unknown_inventory_is_not_found() {
    let mut l = ledger_with(10, 5);
    assert_eq!(l.deduct(&deduction(11, 1, 7)).unwrap_err(), ApiError::NotFound);
    assert!(l.history(11).is_empty());
}

#[test]
fn deduct_may_go_negative_but_not_overflow() {
    let mut l = ledger_with(10, 1);
    assert!(l.deduct(&deduction(10, 3, 1)).is_ok());
    assert_eq!(l.query(10).unwrap().count, -2);
    let mut low = ledger_with(4, i32::MIN + 1);
    assert_eq!(low.deduct(&deduction(4, 2, 9)).unwrap_err(), ApiError::Internal);
    assert_eq!(low.query(4).unwrap().count, i32::MIN + 1);
}

#[test]
fn add_increases_stock_without_order() {
    let mut l = ledger_with(10, 5);
    let req = AddInventoryRequest { inventory_id: 10, count: 4, description: Some("restock".to_string()) };
    assert_eq!(l.add(&req).unwrap().result, 200);
    assert_eq!(l.query(10).unwrap().count, 9);
    let h = l.history(10);
    assert_eq!(h.len(), 1);
    assert_eq!(h[0].count, 4);
    assert_eq!(h[0].deduction_order_id, None);
    assert_eq!(h[0].description.as_deref(), Some("restock"));
}

#[test]
fn add_rejects_zero_negative_unknown_and_overflow() {
    let mut l = ledger_with(10, i32::MAX - 1);
    let req = |inventory_id, count| AddInventoryRequest { inventory_id, count, description: None };
    assert_eq!(l.add(&req(10, 0)).unwrap_err(), ApiError::BadRequest);
    assert_eq!(l.add(&req(10, -1)).unwrap_err(), ApiError::BadRequest);
    assert_eq!(l.add(&req(12, 1)).unwrap_err(), ApiError::NotFound);
    assert_eq!(l.add(&req(10, 2)).unwrap_err(), ApiError::Internal);
    assert_eq!(l.query(10).unwrap().count, i32::MAX - 1);
}

#[test]
fn history_keeps_only_the_asked_inventory_in_order() {
    let mut l = InventoryLedger::new(vec![
        Inventory { id: 1, count: 10, description: None },
        Inventory { id: 2, count: 10, description: None },
    ]);
    assert!(l.deduct(&deduction(1, 1, 100)).is_ok());
    assert!(l.deduct(&deduction(2, 2, 101)).is_ok());
    assert!(l.deduct(&deduction(1, 3, 102)).is_ok());
    let h = l.history(1);
    assert_eq!(h.iter().map(|c| c.count).collect::<Vec<_>>(), vec![-1, -3]);
    assert_eq!(h.iter().map(|c| c.id).collect::<Vec<_>>(), vec![1, 3]);
    assert!(l.query(3).is_none());
}

#[test]
fn grpc_deduction_answers_codes() {
    let mut l = ledger_with(10, 5);
    assert_eq!(handle_deduction(&mut l, 10, 2, 42), 200);
    assert_eq!(handle_deduction(&mut l, 10, 2, 42), 200);
    assert_eq!(l.query(10).unwrap().count, 3);
    assert_eq!(handle_deduction(&mut l, 10, 0, 43), 400);
    assert_eq!(handle_deduction(&mut l, 99, 1, 44), 404);
    assert_eq!(l.history(10)[0].description.as_deref(), Some("from grpc."));
}

#[test]
fn reply_code_of_results() {
    let ok: Result<ChangeInventoryResult, ApiError> = Ok(ChangeInventoryResult { result: 200, description: None });
    assert_eq!(reply_code(&ok), 200);
    assert_eq!(reply_code(&Err(ApiError::Internal)), 500);
    assert_eq!(reply_code(&Err(ApiError::NotFound)), 404);
}

#[test]
fn opening_a_row_twice_conflicts() {
    let mut l = InventoryLedger::new(vec![]);
    assert!(l.open_row(Inventory { id: 1, count: 5, description: None }).is_ok());
    assert_eq!(l.open_row(Inventory { id: 1, count: 9, description: None }).unwrap_err(), ApiError::Conflict);
    assert_eq!(l.query(1).unwrap().count, 5);
}
