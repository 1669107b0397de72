use arrow_server::auth_service::AuthService;
use arrow_server::models::{NewUser, NewUserDTO, Timestamp};
use arrow_server::user_repo::UserRepo;

fn now() -> Timestamp {
    Timestamp { secs: 1_700_000_000 }
}

#[test]
fn test_create_user() {
    let auth = AuthService::new();

    let raw_password = "securepassword";
    let hashed = match auth.hash_password(raw_password) {
        Ok(h) => h,
        Err(_) => panic!("Password hashing failed"),
    };

    let user = "testuser";

    let test_user = NewUser { username: user, password_hash: &hashed };

    assert_eq!(
        match auth.verify_password(raw_password, &hashed) {
            Ok(valid) => valid,
            Err(_) => panic!("Password verification failed"),
        },
        true
    );

    let mut repo = UserRepo::new();

    match repo.add(test_user, now()) {
        Ok(_) => (),
        Err(_) => panic!("Failed to add test_user"),
    };

    let db_user = match repo.get_by_username(user) {
        Ok(user) => match user {
            Some(u) => u,
            None => panic!("test_user not found in database"),
        },
        Err(_) => panic!("Failed to retrieve test_user"),
    };

    assert_eq!(db_user.username, user);
}

#[test]
fn test_get_all_users() {
    let repo = UserRepo::new();

    let users = match repo.get_all() {
        Ok(u) => u,
        Err(_) => panic!("Failed to get all users"),
    };

    assert_eq!(users, None, "Expected no users in the database");
}

#[test]
fn usernames_are_unique() {
    let mut repo = UserRepo::new();
    assert!(repo.add(NewUser { username: "ann", password_hash: "h1" }, now()).is_ok());
    assert!(repo.add(NewUser { username: "ann", password_hash: "h2" }, now()).is_err());
    let ann = repo.get_by_username("ann").unwrap().unwrap();
    assert_eq!(ann.password_hash, "h1");
    assert_eq!(repo.delete(ann.user_id), Ok(()));
    assert_eq!(repo.get_by_username("ann"), Ok(None));
}

#[test]
fn registration_fields_carry_over() {
    let dto = NewUserDTO { username: "bob".to_string(), password: "digest".to_string() };
    let new_user = NewUser::from_dto(&dto);
    assert_eq!(new_user.username, "bob");
    assert_eq!(new_user.password_hash, "digest");
}
