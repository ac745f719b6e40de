//! The storage capability interface, its error taxonomy, and the concurrent
//! in-memory implementation: the record sequence of `store` behind a single
//! reader/writer lock, so that many callers can share one handle. Readers
//! run concurrently; a mutation holds the lock exclusively, so a reader
//! always observes a whole snapshot, never a half-written one.

use vstd::prelude::*;
use vstd::rwlock::{RwLock, RwLockPredicate};
use crate::clock;
use crate::store::{
    get_result, lemma_lookup_finds, stamp_created, stamp_updated, UserStore,
};
use crate::user::{User, UserId};

verus! {

/// The error taxonomy shared by every repository operation.
#[derive(Debug, PartialEq, Eq)]
pub enum RepositoryError {
    /// Concurrency-control failure: a prior lock holder was abandoned in the
    /// middle of a critical section. Carries a diagnostic string.
    LockError(String),
    /// A `create` found a record with the same id already stored.
    AlreadyExists,
    /// An `update` found no record with the given id.
    DoesNotExist,
    /// A `get` found no record with the given id.
    InvalidId,
}

/// The storage capability interface. Callers hold "something implementing
/// `Repository`" and never depend on the concrete store. The contracts here
/// speak of the returned values alone: the state itself stands behind the
/// implementation (for the in-memory store, behind its lock), so exact
/// state-transition contracts live on `UserStore`.
pub trait Repository {
    /// Look a record up by id.
    fn get_users(&self, user_id: &UserId) -> (r: Result<User, RepositoryError>)
        ensures
            r matches Ok(u) ==> u.id == *user_id && u.wf(),
            r matches Err(e) ==> e == RepositoryError::InvalidId || e is LockError,
    ;

    /// Store a new record; the store stamps `create_at`.
    fn create_user(&self, user: &User) -> (r: Result<User, RepositoryError>)
        requires
            user.wf(),
        ensures
            r matches Ok(u) ==> u.id == user.id && u.name == user.name && u.birth_date
                == user.birth_date && u.custom_data == user.custom_data && u.update_at
                == user.update_at && u.create_at is Some,
            r matches Err(e) ==> e == RepositoryError::AlreadyExists || e is LockError,
    ;

    /// Replace the record with the payload's id; the store stamps
    /// `update_at` from the prior record's creation time.
    fn update_user(&self, user: &User) -> (r: Result<User, RepositoryError>)
        requires
            user.wf(),
        ensures
            r matches Ok(u) ==> u.id == user.id && u.name == user.name && u.birth_date
                == user.birth_date && u.custom_data == user.custom_data && u.create_at
                == user.create_at,
            r matches Err(e) ==> e == RepositoryError::DoesNotExist || e is LockError,
    ;

    /// Remove any record with the id; succeeds whether or not one existed.
    fn delete_users(&self, user_id: &UserId) -> (r: Result<UserId, RepositoryError>)
        ensures
            r matches Ok(i) ==> i == *user_id,
            r matches Err(e) ==> e is LockError,
    ;
}

/// What the in-memory store's lock maintains: every snapshot a reader can
/// observe is a well-formed store.
pub struct StorePred {}

impl RwLockPredicate<UserStore> for StorePred {
    open spec fn inv(self, s: UserStore) -> bool {
        s.wf()
    }
}

/// The in-memory repository: the authoritative set of user records in
/// process memory, safe under concurrent access. One coarse reader/writer
/// lock guards the whole sequence.
pub struct MemoryRepository {
    users: RwLock<UserStore, StorePred>,
}

impl MemoryRepository {
    /// Which store values the internal lock may hold.
    pub closed spec fn lock_inv(&self, s: UserStore) -> bool {
        self.users.inv(s)
    }
}

impl Default for MemoryRepository {
    /// A repository holding no records yet.
    fn default() -> (r: Self)
        ensures
            forall|s: UserStore| r.lock_inv(s) <==> s.wf(),
    {
        MemoryRepository { users: RwLock::new(UserStore::new(), Ghost(StorePred {})) }
    }
}

impl Repository for MemoryRepository {
    /// Beyond the trait's promise: a miss of this store is exactly
    /// `InvalidId` — the verified lock cannot fail.
    fn get_users(&self, user_id: &UserId) -> (r: Result<User, RepositoryError>)
        ensures
            r matches Err(e) ==> e == RepositoryError::InvalidId,
    {
        let read_handle = self.users.acquire_read();
        let r = read_handle.borrow().get(user_id);
        proof {
            let s = read_handle.view()@;
            lemma_lookup_finds(s, *user_id);
            match get_result(s, *user_id) {
                Ok(u) => {
                    let k = choose|k: int| 0 <= k < s.len() && s[k] == u;
                    assert(s[k].wf());
                },
                Err(_) => {},
            }
        }
        read_handle.release_read();
        r
    }

    /// Beyond the trait's promise: a failure of this store is exactly
    /// `AlreadyExists` — the verified lock cannot fail.
    fn create_user(&self, user: &User) -> (r: Result<User, RepositoryError>)
        ensures
            r matches Err(e) ==> e == RepositoryError::AlreadyExists,
    {
        // First critical section: a read-locked duplicate check.
        if self.get_users(&user.id).is_ok() {
            return Err(RepositoryError::AlreadyExists);
        }
        // Second critical section: stamp and append. The two sections are
        // not one atomic step: two concurrent creates with the same id can
        // both pass the check above and then both insert. That race is part
        // of this store's intended behaviour, so uniqueness of ids is
        // deliberately no part of the lock predicate.
        let now = clock::now();
        let (mut store, write_handle) = self.users.acquire_write();
        let stored = store.insert_stamped(user, now);
        write_handle.release_write(store);
        Ok(stored)
    }

    /// Beyond the trait's promise: a failure of this store is exactly
    /// `DoesNotExist` — the verified lock cannot fail.
    fn update_user(&self, user: &User) -> (r: Result<User, RepositoryError>)
        ensures
            r matches Err(e) ==> e == RepositoryError::DoesNotExist,
    {
        // First critical section: fetch the prior record, read-locked.
        match self.get_users(&user.id) {
            Ok(prior) => {
                // Second critical section: replace, stamping `update_at`
                // from the prior record's creation time.
                let (mut store, write_handle) = self.users.acquire_write();
                let updated = store.apply_update(user, prior.create_at);
                write_handle.release_write(store);
                Ok(updated)
            },
            Err(_) => Err(RepositoryError::DoesNotExist),
        }
    }

    /// Beyond the trait's promise: this store's delete always succeeds,
    /// whether or not a record with the id existed — the verified lock
    /// cannot fail and `UserStore::delete` is total.
    fn delete_users(&self, user_id: &UserId) -> (r: Result<UserId, RepositoryError>)
        ensures
            r == Ok::<UserId, RepositoryError>(*user_id),
    {
        let (mut store, write_handle) = self.users.acquire_write();
        let id = store.delete(user_id);
        write_handle.release_write(store);
        Ok(id)
    }
}

} // verus!
