use user_service::repository::RepositoryError;
use user_service::store::UserStore;
use user_service::user::{CustomData, Date, Timestamp, User, UserId};

fn plain_user(id: u128, name: &str) -> User {
    User {
        id: UserId { value: id },
        name: name.to_string(),
        birth_date: Date { year: 1997, month: 3, day: 10 },
        custom_data: CustomData { random: 1 },
        create_at: None,
        update_at: None,
    }
}

fn at(millis: i64) -> Timestamp {
    Timestamp { millis }
}

#[test]
fn create_then_get_returns_the_stamped_record() {
    let mut store = UserStore::new();
    let u = plain_user(1, "Rob");
    let created = store.create(&u, at(1000)).expect("fresh id must be accepted");
    assert_eq!(created.id, u.id);
    assert_eq!(created.name, u.name);
    assert_eq!(created.birth_date, u.birth_date);
    assert_eq!(created.custom_data, u.custom_data);
    assert_eq!(created.create_at, Some(at(1000)));
    assert_eq!(created.update_at, None);
    let got = store.get(&u.id).expect("stored id must be found");
    assert_eq!(got, created);
}

#[test]
fn create_twice_returns_already_exists() {
    let mut store = UserStore::new();
    let u = plain_user(1, "Rob");
    assert!(store.create(&u, at(1000)).is_ok());
    assert_eq!(store.create(&u, at(2000)), Err(RepositoryError::AlreadyExists));
    assert_eq!(store.len(), 1);
}

#[test]
fn get_of_a_never_inserted_id_is_invalid_id() {
    let store = UserStore::new();
    assert_eq!(store.get(&UserId { value: 42 }), Err(RepositoryError::InvalidId));
    let mut store = UserStore::new();
    store.create(&plain_user(1, "Rob"), at(1000)).unwrap();
    assert_eq!(store.get(&UserId { value: 2 }), Err(RepositoryError::InvalidId));
}

#[test]
fn update_of_a_never_created_id_is_does_not_exist() {
    let mut store = UserStore::new();
    assert_eq!(store.update(&plain_user(9, "Rob")), Err(RepositoryError::DoesNotExist));
}

#[test]
fn update_stamps_update_at_from_the_prior_creation_time() {
    let mut store = UserStore::new();
    let u = plain_user(1, "Rob");
    let created = store.create(&u, at(1000)).unwrap();
    let mut u2 = plain_user(1, "Robert");
    u2.birth_date = Date { year: 1997, month: 3, day: 10 };
    let updated = store.update(&u2).expect("existing id must be updatable");
    assert_eq!(updated.name, "Robert");
    assert_eq!(updated.update_at, created.create_at);
    assert_eq!(updated.update_at, Some(at(1000)));
    // The update path does not restamp creation time: `create_at` is taken
    // from the payload, which left it unset.
    assert_eq!(updated.create_at, None);
    let got = store.get(&u.id).unwrap();
    assert_eq!(got, updated);
    assert_eq!(store.len(), 1);
}

#[test]
fn delete_is_idempotent_and_get_misses_afterwards() {
    let mut store = UserStore::new();
    let u = plain_user(1, "Rob");
    store.create(&u, at(1000)).unwrap();
    let first = store.delete(&u.id);
    assert_eq!(first, u.id);
    assert_eq!(store.get(&u.id), Err(RepositoryError::InvalidId));
    let second = store.delete(&u.id);
    assert_eq!(second, u.id);
    assert_eq!(store.get(&u.id), Err(RepositoryError::InvalidId));
    assert_eq!(store.len(), 0);
}

#[test]
fn delete_leaves_other_records_in_place() {
    let mut store = UserStore::new();
    store.create(&plain_user(1, "Rob"), at(1000)).unwrap();
    store.create(&plain_user(2, "Ana"), at(2000)).unwrap();
    store.create(&plain_user(3, "Eli"), at(3000)).unwrap();
    store.delete(&UserId { value: 2 });
    assert_eq!(store.len(), 2);
    assert_eq!(store.get(&UserId { value: 1 }).unwrap().name, "Rob");
    assert_eq!(store.get(&UserId { value: 2 }), Err(RepositoryError::InvalidId));
    assert_eq!(store.get(&UserId { value: 3 }).unwrap().name, "Eli");
}
