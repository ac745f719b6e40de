use user_service::repository::{MemoryRepository, Repository, RepositoryError};
use user_service::user::{CustomData, Date, Timestamp, User, UserId};

fn payload(id: u128, name: &str, ymd: (i32, u32, u32)) -> User {
    User {
        id: UserId { value: id },
        name: name.to_string(),
        birth_date: Date { year: ymd.0, month: ymd.1, day: ymd.2 },
        custom_data: CustomData { random: 1 },
        create_at: None,
        update_at: None,
    }
}

#[test]
fn full_lifecycle_scenario() {
    let repo = MemoryRepository::default();
    let id_a: UserId = UserId { value: 0xa };

    // Create: success, `create_at` set, `update_at` absent.
    let rob = payload(0xa, "Rob", (1997, 3, 10));
    let created = repo.create_user(&rob).expect("fresh id must be accepted");
    assert_eq!(created.id, id_a);
    assert_eq!(created.name, "Rob");
    assert_eq!(created.birth_date, Date { year: 1997, month: 3, day: 10 });
    assert!(created.create_at.is_some());
    assert!(created.update_at.is_none());

    // Get: the same record.
    let got = repo.get_users(&id_a).expect("stored id must be found");
    assert_eq!(got, created);

    // Update: success, `update_at` equals the original `create_at`.
    let robert = payload(0xa, "Robert", (1997, 3, 10));
    let updated = repo.update_user(&robert).expect("existing id must be updatable");
    assert_eq!(updated.name, "Robert");
    assert_eq!(updated.update_at, created.create_at);
    assert_eq!(updated.create_at, None);

    // Delete: success, returning the id; get afterwards misses.
    assert_eq!(repo.delete_users(&id_a), Ok(id_a));
    assert_eq!(repo.get_users(&id_a), Err(RepositoryError::InvalidId));
}

#[test]
fn duplicate_create_through_the_repository() {
    let repo = MemoryRepository::default();
    let rob = payload(1, "Rob", (1997, 3, 10));
    assert!(repo.create_user(&rob).is_ok());
    assert_eq!(repo.create_user(&rob), Err(RepositoryError::AlreadyExists));
}

#[test]
fn get_through_the_repository_misses_on_unknown_ids() {
    let repo = MemoryRepository::default();
    assert_eq!(repo.get_users(&UserId { value: 9 }), Err(RepositoryError::InvalidId));
}

#[test]
fn update_through_the_repository_misses_on_unknown_ids() {
    let repo = MemoryRepository::default();
    let rob = payload(9, "Rob", (1997, 3, 10));
    assert_eq!(repo.update_user(&rob), Err(RepositoryError::DoesNotExist));
}

#[test]
fn delete_through_the_repository_is_idempotent() {
    let repo = MemoryRepository::default();
    let rob = payload(5, "Rob", (1997, 3, 10));
    repo.create_user(&rob).unwrap();
    assert_eq!(repo.delete_users(&rob.id), Ok(rob.id));
    assert_eq!(repo.delete_users(&rob.id), Ok(rob.id));
}

#[test]
fn creation_stamps_come_from_the_clock() {
    // The stamp the store assigns is the wall clock in milliseconds: for a
    // record created now it lies strictly after the year 2020.
    let repo = MemoryRepository::default();
    let rob = payload(3, "Rob", (1997, 3, 10));
    let created = repo.create_user(&rob).unwrap();
    let epoch_2020_millis: i64 = 1_577_836_800_000;
    match created.create_at {
        Some(Timestamp { millis }) => assert!(millis > epoch_2020_millis),
        None => panic!("create must stamp a creation time"),
    }
}
