use user_api::errors::ErrorResponse;
use user_api::handlers::{
    create_user, delete_user, get_user, get_users, update_user, PaginationParams, STATUS_CREATED,
    STATUS_OK,
};
use user_api::logging::{request_log_line, response_log_line};
use user_api::user::make_sample_user;
use user_api::{User, UserError, UserRequest, UserStore};

fn req(name: &str, email: &str) -> UserRequest {
    UserRequest { name: name.to_string(), email: email.to_string() }
}

fn seeded() -> UserStore {
    let mut store = UserStore::new();
    store.populate_sample_data();
    store
}

fn ids(users: &[User]) -> Vec<u32> {
    users.iter().map(|u| u.id).collect()
}

#[test]
fn create_on_empty_store_returns_id_one() {
    let mut store = UserStore::new();
    let rep = create_user(&mut store, req("A", "a@x.com")).unwrap();
    assert_eq!(rep.status, 201);
    assert_eq!(rep.status, STATUS_CREATED);
    assert_eq!(rep.body, User { id: 1, name: "A".to_string(), email: "a@x.com".to_string() });
    assert_eq!(store.len(), 1);
}

#[test]
fn sequential_creates_give_ids_one_to_n() {
    let mut store = UserStore::new();
    for n in 1..=25u32 {
        let u = store.create(req(&format!("n{}", n), "e@x"));
        assert_eq!(u.id, n);
    }
    assert_eq!(ids(&store.list()), (1..=25).collect::<Vec<u32>>());
}

#[test]
fn create_id_is_count_plus_one_after_delete() {
    let mut store = UserStore::new();
    store.create(req("a", "a"));
    store.create(req("b", "b"));
    store.create(req("c", "c"));
    store.delete(1).unwrap();
    // two left, so the next id is 3, which replaces the record under 3
    let u = store.create(req("d", "d"));
    assert_eq!(u.id, 3);
    assert_eq!(store.len(), 2);
    assert_eq!(store.get(3).unwrap().name, "d");
}

#[test]
fn get_after_create_returns_same_record() {
    let mut store = seeded();
    let created = create_user(&mut store, req("Zed", "zed@x.com")).unwrap().body;
    assert_eq!(created.id, 101);
    let got = get_user(&store, created.id).unwrap();
    assert_eq!(got.status, STATUS_OK);
    assert_eq!(got.body, created);
}

#[test]
fn get_missing_user_is_not_found() {
    let store = seeded();
    let err = get_user(&store, 999).unwrap_err();
    assert_eq!(err, UserError::NotFound);
    assert_eq!(
        err.error_response(),
        ErrorResponse { status: 404, body: "\"User not found\"".to_string() }
    );
}

#[test]
fn delete_then_get_is_not_found() {
    let mut store = seeded();
    let rep = delete_user(&mut store, 5).unwrap();
    assert_eq!(rep.status, 200);
    assert_eq!(rep.body.id, 5);
    assert_eq!(rep.body.name, "User 5");
    assert_eq!(get_user(&store, 5).unwrap_err().status_code(), 404);
    assert_eq!(store.len(), 99);
}

#[test]
fn delete_missing_leaves_store_unchanged() {
    let mut store = seeded();
    let before = store.list();
    assert_eq!(delete_user(&mut store, 1000).unwrap_err(), UserError::NotFound);
    assert_eq!(store.len(), 100);
    assert_eq!(store.list(), before);
}

#[test]
fn delete_on_empty_store_is_not_found() {
    let mut store = UserStore::new();
    assert_eq!(store.delete(1), Err(UserError::NotFound));
    assert_eq!(store.len(), 0);
}

#[test]
fn update_existing_replaces_in_place() {
    let mut store = seeded();
    let rep = update_user(&mut store, 7, req("Seven", "7@x"));
    assert_eq!(rep.status, 200);
    assert_eq!(rep.body, User { id: 7, name: "Seven".to_string(), email: "7@x".to_string() });
    assert_eq!(get_user(&store, 7).unwrap().body, rep.body);
    assert_eq!(store.len(), 100);
    assert_eq!(store.list()[6], rep.body);
}

#[test]
fn update_missing_inserts() {
    let mut store = UserStore::new();
    let rep = update_user(&mut store, 42, req("X", "x@x"));
    assert_eq!(rep.body.id, 42);
    assert_eq!(store.len(), 1);
    assert_eq!(store.get(42).unwrap(), rep.body);
}

#[test]
fn sample_data_has_hundred_users() {
    let store = seeded();
    assert_eq!(store.len(), 100);
    let u = store.get(1).unwrap();
    assert_eq!(u.name, "User 1");
    assert_eq!(u.email, "user1@example.com");
    assert_eq!(store.get(100).unwrap().email, "user100@example.com");
    assert_eq!(ids(&store.list()), (1..=100).collect::<Vec<u32>>());
}

#[test]
fn sample_user_names_use_decimal_digits() {
    let u = make_sample_user(37);
    assert_eq!(u.name, "User 37");
    assert_eq!(u.email, "user37@example.com");
}

#[test]
fn second_page_of_ten_on_seeded_store() {
    let store = seeded();
    let params = PaginationParams { page: Some(2), per_page: Some(10) };
    let rep = get_users(&store, params).unwrap();
    assert_eq!(rep.status, 200);
    assert_eq!(ids(&rep.body.data), (11..=20).collect::<Vec<u32>>());
    assert_eq!(rep.body.total, 100);
    assert_eq!(rep.body.total_pages, 10);
    assert_eq!(rep.body.page, 2);
    assert_eq!(rep.body.per_page, 10);
}

#[test]
fn defaults_are_first_page_of_ten() {
    let store = seeded();
    let rep = get_users(&store, PaginationParams { page: None, per_page: None }).unwrap();
    assert_eq!(ids(&rep.body.data), (1..=10).collect::<Vec<u32>>());
    assert_eq!(rep.body.page, 1);
    assert_eq!(rep.body.per_page, 10);
}

#[test]
fn partial_last_page_and_ceiling() {
    let mut store = UserStore::new();
    for i in 0..23 {
        store.create(req(&format!("u{}", i), "e"));
    }
    let last = get_users(&store, PaginationParams { page: Some(3), per_page: Some(10) }).unwrap();
    assert_eq!(ids(&last.body.data), vec![21, 22, 23]);
    assert_eq!(last.body.total_pages, 3);
    let past = get_users(&store, PaginationParams { page: Some(4), per_page: Some(10) }).unwrap();
    assert!(past.body.data.is_empty());
    assert_eq!(past.body.total, 23);
}

#[test]
fn empty_store_has_zero_pages() {
    let store = UserStore::new();
    let rep = get_users(&store, PaginationParams { page: None, per_page: None }).unwrap();
    assert!(rep.body.data.is_empty());
    assert_eq!(rep.body.total, 0);
    assert_eq!(rep.body.total_pages, 0);
}

#[test]
fn huge_page_number_is_empty_not_overflow() {
    let store = seeded();
    let rep = get_users(&store, PaginationParams { page: Some(usize::MAX), per_page: Some(usize::MAX) })
        .unwrap();
    assert!(rep.body.data.is_empty());
    assert_eq!(rep.body.total_pages, 1);
}

#[test]
fn zero_page_or_size_is_validation_error() {
    let store = seeded();
    let zero_page = get_users(&store, PaginationParams { page: Some(0), per_page: None });
    assert_eq!(zero_page.unwrap_err(), UserError::ValidationError);
    let zero_size = get_users(&store, PaginationParams { page: Some(1), per_page: Some(0) });
    assert_eq!(zero_size.unwrap_err(), UserError::ValidationError);
}

#[test]
fn error_responses_are_fixed() {
    assert_eq!(
        UserError::ValidationError.error_response(),
        ErrorResponse { status: 400, body: "\"Invalid input\"".to_string() }
    );
    assert_eq!(
        UserError::InternalServerError.error_response(),
        ErrorResponse { status: 500, body: "\"Internal server error\"".to_string() }
    );
    assert_eq!(UserError::NotFound.message(), "User not found");
}

#[test]
fn log_lines() {
    assert_eq!(request_log_line("GET", "/users/5"), "Request: GET /users/5");
    assert_eq!(response_log_line("404 Not Found"), "Response: 404 Not Found");
}
