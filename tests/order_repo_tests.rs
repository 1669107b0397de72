use arrow_server::models::{NewOrder, NewUserRole, Timestamp, UpdateOrder};
use arrow_server::order_repo::OrderRepo;
use arrow_server::user_role_repo::UserRoleRepo;

fn at(secs: i64) -> Timestamp {
    Timestamp { secs }
}

fn order(user_id: i32, status: &str) -> NewOrder {
    NewOrder { user_id, status: status.to_string() }
}

fn ids(orders: Option<Vec<arrow_server::models::Order>>) -> Vec<i32> {
    orders.map(|v| v.iter().map(|o| o.order_id).collect()).unwrap_or_default()
}

#[test]
fn orders_by_user_and_status() {
    let mut repo = OrderRepo::new();
    assert_eq!(repo.get_all(), Ok(None));
    assert_eq!(repo.insert(order(1, "pending"), at(1)), Ok(1));
    assert_eq!(repo.insert(order(2, "shipped"), at(2)), Ok(2));
    assert_eq!(repo.insert(order(1, "shipped"), at(3)), Ok(3));
    assert_eq!(ids(repo.get_by_user_id(1).unwrap()), vec![1, 3]);
    assert_eq!(repo.get_by_user_id(9), Ok(None));
    assert_eq!(ids(repo.get_by_status("shipped").unwrap()), vec![2, 3]);
    assert_eq!(repo.get_by_status("lost"), Ok(None));
}

#[test]
fn orders_by_role_name_join_through_roles() {
    let mut roles = UserRoleRepo::new();
    let role = |user_id: i32, name: &'static str| NewUserRole {
        user_id,
        name,
        description: None,
        permissions: Some("read"),
    };
    roles.insert(role(1, "customer"), at(0)).unwrap();
    roles.insert(role(2, "staff"), at(0)).unwrap();
    roles.insert(role(3, "customer"), at(0)).unwrap();
    let mut repo = OrderRepo::new();
    repo.add(order(1, "pending"), at(1)).unwrap();
    repo.add(order(2, "pending"), at(1)).unwrap();
    repo.add(order(3, "pending"), at(1)).unwrap();
    assert_eq!(ids(repo.get_orders_by_role_name(&roles, "customer").unwrap()), vec![1, 3]);
    assert_eq!(ids(repo.get_orders_by_role_name(&roles, "staff").unwrap()), vec![2]);
    assert_eq!(repo.get_orders_by_role_name(&roles, "nobody"), Ok(None));
}

#[test]
fn order_update_and_delete() {
    let mut repo = OrderRepo::new();
    let id = repo.insert(order(4, "pending"), at(1)).unwrap();
    assert_eq!(repo.update(id, UpdateOrder { user_id: None, status: Some("paid") }, at(2)), Ok(()));
    let o = repo.get_by_id(id).unwrap().unwrap();
    assert_eq!(o.status, "paid");
    assert_eq!(o.user_id, 4);
    assert_eq!(o.created_at, Some(at(1)));
    assert_eq!(o.updated_at, Some(at(2)));
    assert_eq!(repo.update(id, UpdateOrder { user_id: None, status: None }, at(3)), Ok(()));
    assert_eq!(repo.get_by_id(id).unwrap().unwrap(), o);
    assert_eq!(repo.delete(id), Ok(()));
    assert_eq!(repo.delete(id), Ok(()));
    assert_eq!(repo.get_by_id(id), Ok(None));
}
