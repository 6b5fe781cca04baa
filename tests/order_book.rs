use microshop::inventory::{handle_deduction, Inventory, InventoryLedger};
use microshop::error::ApiError;
use microshop::order::{
    add_new_order, request_new_order_token, AddOrder, DeductionCall, DeductionReply, GetOrderParams,
    InventoryResult, InventoryState, OrderBook,
};
use microshop::token::Claims;

fn order_payload() -> AddOrder {
    AddOrder { items_id: 10, price: 100, count: 2, currency: "CNY".to_string(), description: None, token: 42 }
}

fn claims(sub: u128) -> Claims {
    Claims { sub, iat: 1_000, exp: 1_000 + 86_400 }
}

#[test]
fn placing_an_order_commits_order_and_outbox_row() {
    let mut book = OrderBook::new();
    let id = book.place_order(5, &order_payload(), 1234).unwrap();
    assert_eq!(id, 1);
    assert_eq!(book.orders.len(), 1);
    let o = &book.orders[0];
    assert_eq!((o.user_id, o.item_id, o.price, o.count, o.sub_time, o.pay_time), (5, 10, 100, 2, 1234, 0));
    assert_eq!(o.currency, "CNY");
    assert_eq!(o.inventory_state, 0);
    assert_eq!(o.description.as_deref(), Some(""));
    assert_eq!(book.outbox.len(), 1);
    assert_eq!(book.outbox[0].order_id, 1);
    assert_eq!(book.outbox[0].user_id, 5);
}

#[test]
fn answered_deduction_settles_order_and_drains_outbox() {
    let mut book = OrderBook::new();
    let id = book.place_order(5, &order_payload(), 0).unwrap();
    assert!(book.complete_deduction(id, DeductionReply::Answered(200)));
    assert_eq!(book.orders[0].inventory_state, InventoryState::SUCCESS.code());
    assert!(book.outbox.is_empty());
    assert!(!book.settle(id, 200));
}

#[test]
fn refused_deduction_marks_order_failed() {
    let mut book = OrderBook::new();
    let id = book.place_order(5, &order_payload(), 0).unwrap();
    assert!(book.settle(id, 500));
    assert_eq!(book.orders[0].inventory_state, 2);
    assert!(book.outbox.is_empty());
}

#[test]
fn unreachable_inventory_leaves_work_for_reconciler() {
    let mut book = OrderBook::new();
    let id = book.place_order(5, &order_payload(), 0).unwrap();
    assert!(!book.complete_deduction(id, DeductionReply::Unreachable));
    assert_eq!(book.orders[0].inventory_state, 0);
    assert_eq!(book.outbox.len(), 1);
    let calls = book.pending();
    assert_eq!(calls, vec![DeductionCall { inventory_id: 10, count: 2, order_id: id }]);
    book.reconcile(&calls, &vec![DeductionReply::Answered(200)]);
    assert!(book.outbox.is_empty());
    assert_eq!(book.orders[0].inventory_state, 1);
}

#[test]
fn reconcile_keeps_rows_that_got_no_answer() {
    let mut book = OrderBook::new();
    let a = book.place_order(1, &order_payload(), 0).unwrap();
    let b = book.place_order(2, &order_payload(), 0).unwrap();
    let calls = book.pending();
    assert_eq!(calls.len(), 2);
    book.reconcile(&calls, &vec![DeductionReply::Unreachable, DeductionReply::Answered(200)]);
    assert_eq!(book.outbox.len(), 1);
    assert_eq!(book.outbox[0].order_id, a);
    assert_eq!(book.orders[(b - 1) as usize].inventory_state, 1);
    assert_eq!(book.orders[(a - 1) as usize].inventory_state, 0);
}

#[test]
fn add_new_order_requires_claims() {
    let mut book = OrderBook::new();
    let r = add_new_order(&mut book, None, &order_payload(), 0);
    assert_eq!(r.unwrap_err(), ApiError::Unauthorized);
    assert!(book.orders.is_empty());
    assert!(book.outbox.is_empty());
}

#[test]
fn add_new_order_with_claims_returns_the_call() {
    let mut book = OrderBook::new();
    let (answer, call) = add_new_order(&mut book, Some(claims(77)), &order_payload(), 9).unwrap();
    assert_eq!(answer.description, "add successed.");
    assert_eq!(call, DeductionCall { inventory_id: 10, count: 2, order_id: 1 });
    assert_eq!(book.orders[0].user_id, 77);
    assert_eq!(book.outbox.len(), 1);
}

#[test]
fn order_pages_follow_limit_and_offset() {
    let mut book = OrderBook::new();
    for user in [1u128, 2, 1, 1, 2, 1] {
        book.place_order(user, &order_payload(), 0).unwrap();
    }
    let page = |page, page_size| GetOrderParams { user_id: 1, page, page_size };
    let ids = |v: Vec<microshop::order::Order>| v.iter().map(|o| o.id).collect::<Vec<_>>();
    assert_eq!(ids(book.orders_of_user(&page(0, 2)).unwrap()), vec![1, 3]);
    assert_eq!(ids(book.orders_of_user(&page(1, 2)).unwrap()), vec![4, 6]);
    assert_eq!(ids(book.orders_of_user(&page(2, 2)).unwrap()), Vec::<i32>::new());
    assert_eq!(ids(book.orders_of_user(&page(0, 10)).unwrap()), vec![1, 3, 4, 6]);
    assert_eq!(book.orders_of_user(&page(-1, 2)).unwrap_err(), ApiError::BadRequest);
    assert_eq!(book.orders_of_user(&page(0, -2)).unwrap_err(), ApiError::BadRequest);
    assert_eq!(book.orders_of_user(&page(i64::MAX, 2)).unwrap_err(), ApiError::BadRequest);
}

#[test]
fn inventory_state_codes() {
    assert_eq!(InventoryState::DOING.code(), 0);
    assert_eq!(InventoryState::SUCCESS.code(), 1);
    assert_eq!(InventoryState::FAIL.code(), 2);
    assert_eq!(InventoryState::from_code(1), Some(InventoryState::SUCCESS));
    assert_eq!(InventoryState::from_code(3), None);
    assert_eq!(InventoryState::for_result(200), InventoryState::SUCCESS);
    assert_eq!(InventoryState::for_result(0), InventoryState::FAIL);
    assert_eq!(InventoryResult::SUCCESS.code(), 200);
}

#[test]
fn order_token_needs_claims() {
    assert_eq!(request_new_order_token(None).unwrap_err(), ApiError::Unauthorized);
    let a = request_new_order_token(Some(claims(1))).unwrap();
    let b = request_new_order_token(Some(claims(1))).unwrap();
    assert_ne!(a.token, b.token);
}

fn outbox_matches_waiting_orders(book: &OrderBook) -> bool {
    let doing_have_rows = book
        .orders
        .iter()
        .filter(|o| o.inventory_state == 0)
        .all(|o| book.outbox.iter().any(|m| m.order_id == o.id));
    let rows_have_waiting_orders = book
        .outbox
        .iter()
        .all(|m| book.orders.iter().any(|o| o.id == m.order_id && o.inventory_state == 0));
    doing_have_rows && rows_have_waiting_orders
}

#[test]
fn outbox_matches_waiting_orders_after_mixed_operations() {
    let mut book = OrderBook::new();
    for user in 0..6u128 {
        book.place_order(user, &order_payload(), 0).unwrap();
        assert!(outbox_matches_waiting_orders(&book));
    }
    assert!(book.complete_deduction(2, DeductionReply::Answered(200)));
    assert!(!book.complete_deduction(3, DeductionReply::Unreachable));
    assert!(book.settle(5, 409));
    assert!(outbox_matches_waiting_orders(&book));
    let calls = book.pending();
    assert_eq!(calls.iter().map(|c| c.order_id).collect::<Vec<_>>(), vec![1, 3, 4, 6]);
    let replies = vec![
        DeductionReply::Answered(200),
        DeductionReply::Unreachable,
        DeductionReply::Answered(500),
        DeductionReply::Answered(200),
    ];
    book.reconcile(&calls, &replies);
    assert!(outbox_matches_waiting_orders(&book));
    assert_eq!(book.outbox.iter().map(|m| m.order_id).collect::<Vec<_>>(), vec![3]);
    let states: Vec<i32> = book.orders.iter().map(|o| o.inventory_state).collect();
    assert_eq!(states, vec![1, 1, 0, 2, 2, 1]);
}

#[test]
fn placed_order_deducted_and_settled_end_to_end() {
    let mut ledger = InventoryLedger::new(vec![Inventory { id: 10, count: 5, description: None }]);
    let mut book = OrderBook::new();
    let (_, call) = add_new_order(&mut book, Some(claims(1)), &order_payload(), 0).unwrap();
    let code = handle_deduction(&mut ledger, call.inventory_id, call.count, call.order_id);
    assert!(book.complete_deduction(call.order_id, DeductionReply::Answered(code)));
    let code_again = handle_deduction(&mut ledger, call.inventory_id, call.count, call.order_id);
    assert_eq!(code_again, 200);
    assert_eq!(ledger.query(10).unwrap().count, 3);
    let rows: Vec<_> = ledger.history(10).into_iter().filter(|c| c.deduction_order_id == Some(call.order_id)).collect();
    assert_eq!(rows.len(), 1);
    assert_eq!(rows[0].count, -2);
    assert_eq!(book.orders[0].inventory_state, 1);
    assert!(book.outbox.is_empty());
}
