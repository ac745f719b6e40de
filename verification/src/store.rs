//! The sequential core of the in-memory repository: an ordered sequence of
//! user records, with an exact mathematical model of every operation. The
//! concurrent wrapper around it lives in `repository`.

use vstd::prelude::*;
use crate::repository::RepositoryError;
use crate::user::{Timestamp, User, UserId};

verus! {

/// Whether some record in `s` carries the id `id`.
pub open spec fn contains_id(s: Seq<User>, id: UserId) -> bool {
    exists|i: int| 0 <= i < s.len() && s[i].id == id
}

/// The record a linear scan of `s` finds for `id`: the first match in
/// insertion order, or nothing.
pub open spec fn lookup(s: Seq<User>, id: UserId) -> Option<User>
    decreases s.len(),
{
    if s.len() == 0 {
        None
    } else if s[0].id == id {
        Some(s[0])
    } else {
        lookup(s.skip(1), id)
    }
}

/// `s` with every record carrying `id` removed, order of the rest kept.
pub open spec fn without_id(s: Seq<User>, id: UserId) -> Seq<User>
    decreases s.len(),
{
    if s.len() == 0 {
        Seq::empty()
    } else {
        let rest = without_id(s.drop_last(), id);
        if s.last().id == id {
            rest
        } else {
            rest.push(s.last())
        }
    }
}

/// What `get` returns on the state `s`.
pub open spec fn get_result(s: Seq<User>, id: UserId) -> Result<User, RepositoryError> {
    match lookup(s, id) {
        Some(u) => Ok(u),
        None => Err(RepositoryError::InvalidId),
    }
}

/// The record `create` stores: the submitted record with `create_at` set to
/// the creation time.
pub open spec fn stamp_created(u: User, t: Timestamp) -> User {
    User { create_at: Some(t), ..u }
}

/// The record `update` stores: the submitted record with `update_at` set to
/// the prior record's creation time. `create_at` is taken from the payload,
/// not restamped.
pub open spec fn stamp_updated(u: User, prior_create: Option<Timestamp>) -> User {
    User { update_at: prior_create, ..u }
}

/// What `create` returns on the state `s`.
pub open spec fn create_result(s: Seq<User>, u: User, t: Timestamp) -> Result<
    User,
    RepositoryError,
> {
    if contains_id(s, u.id) {
        Err(RepositoryError::AlreadyExists)
    } else {
        Ok(stamp_created(u, t))
    }
}

/// The state `create` leaves behind.
pub open spec fn create_post(s: Seq<User>, u: User, t: Timestamp) -> Seq<User> {
    if contains_id(s, u.id) {
        s
    } else {
        s.push(stamp_created(u, t))
    }
}

/// What `update` returns on the state `s`.
pub open spec fn update_result(s: Seq<User>, u: User) -> Result<User, RepositoryError> {
    match lookup(s, u.id) {
        Some(prior) => Ok(stamp_updated(u, prior.create_at)),
        None => Err(RepositoryError::DoesNotExist),
    }
}

/// The state `update` leaves behind.
pub open spec fn update_post(s: Seq<User>, u: User) -> Seq<User> {
    match lookup(s, u.id) {
        Some(prior) => without_id(s, u.id).push(stamp_updated(u, prior.create_at)),
        None => s,
    }
}

/// The state `delete` leaves behind. `delete` itself always succeeds.
pub open spec fn delete_post(s: Seq<User>, id: UserId) -> Seq<User> {
    without_id(s, id)
}

/// The scan finds a record exactly when one with that id is present, and
/// what it finds carries that id and is one of the records of `s`.
pub proof fn lemma_lookup_finds(s: Seq<User>, id: UserId)
    ensures
        lookup(s, id) is Some <==> contains_id(s, id),
        lookup(s, id) matches Some(u) ==> u.id == id && s.contains(u),
    decreases s.len(),
{
    if s.len() == 0 {
    } else if s[0].id == id {
        assert(contains_id(s, id));
    } else {
        lemma_lookup_finds(s.skip(1), id);
        if contains_id(s, id) {
            let i = choose|i: int| 0 <= i < s.len() && s[i].id == id;
            assert(s.skip(1)[i - 1] == s[i]);
            assert(contains_id(s.skip(1), id));
        }
        match lookup(s.skip(1), id) {
            Some(u) => {
                let j = choose|j: int| 0 <= j < s.skip(1).len() && s.skip(1)[j] == u;
                assert(s[j + 1] == s.skip(1)[j]);
            },
            None => {},
        }
        assert(contains_id(s.skip(1), id) ==> contains_id(s, id)) by {
            if contains_id(s.skip(1), id) {
                let i = choose|i: int| 0 <= i < s.skip(1).len() && s.skip(1)[i].id == id;
                assert(s[i + 1] == s.skip(1)[i]);
            }
        }
    }
}

/// Appending a record does not disturb what the scan finds for ids already
/// present; for an absent id, the scan afterwards finds exactly the new
/// record if its id matches.
pub proof fn lemma_lookup_push(s: Seq<User>, id: UserId, v: User)
    ensures
        lookup(s.push(v), id) == (if contains_id(s, id) {
            lookup(s, id)
        } else if v.id == id {
            Some(v)
        } else {
            None::<User>
        }),
    decreases s.len(),
{
    lemma_lookup_finds(s, id);
    assert(s.push(v).len() == s.len() + 1);
    if s.len() == 0 {
        assert(s.push(v)[0] == v);
        if v.id != id {
            assert(s.push(v).skip(1) =~= Seq::<User>::empty());
            assert(lookup(s.push(v), id) == lookup(s.push(v).skip(1), id));
            assert(lookup(Seq::<User>::empty(), id) is None);
        }
    } else {
        assert(s.push(v)[0] == s[0]);
        if s[0].id == id {
            assert(contains_id(s, id));
            assert(lookup(s.push(v), id) == Some(s[0]));
            assert(lookup(s, id) == Some(s[0]));
        } else {
            assert(s.push(v).skip(1) =~= s.skip(1).push(v));
            assert(lookup(s.push(v), id) == lookup(s.skip(1).push(v), id));
            assert(lookup(s, id) == lookup(s.skip(1), id));
            lemma_lookup_push(s.skip(1), id, v);
            assert(contains_id(s.skip(1), id) ==> contains_id(s, id)) by {
                if contains_id(s.skip(1), id) {
                    let i = choose|i: int| 0 <= i < s.skip(1).len() && s.skip(1)[i].id == id;
                    assert(s[i + 1] == s.skip(1)[i]);
                }
            }
            assert(contains_id(s, id) ==> contains_id(s.skip(1), id)) by {
                if contains_id(s, id) {
                    let i = choose|i: int| 0 <= i < s.len() && s[i].id == id;
                    assert(s.skip(1)[i - 1] == s[i]);
                }
            }
        }
    }
}

/// Removal removes every record with the id, keeps only records of `s`, and
/// never grows the sequence.
pub proof fn lemma_without_id(s: Seq<User>, id: UserId)
    ensures
        !contains_id(without_id(s, id), id),
        forall|j: int|
            0 <= j < without_id(s, id).len() ==> s.contains(#[trigger] without_id(s, id)[j]),
        without_id(s, id).len() <= s.len(),
    decreases s.len(),
{
    if s.len() == 0 {
    } else {
        lemma_without_id(s.drop_last(), id);
        let rest = without_id(s.drop_last(), id);
        assert(forall|j: int| 0 <= j < s.drop_last().len() ==> s.drop_last()[j] == s[j]);
        assert(forall|j: int|
            0 <= j < rest.len() ==> s.contains(#[trigger] rest[j])) by {
            assert forall|j: int| 0 <= j < rest.len() implies s.contains(#[trigger] rest[j]) by {
                let k = choose|k: int| 0 <= k < s.drop_last().len() && s.drop_last()[k] == rest[j];
                assert(s[k] == rest[j]);
            }
        }
        if s.last().id == id {
        } else {
            let out = rest.push(s.last());
            assert(s.contains(s.last())) by {
                assert(s[s.len() - 1] == s.last());
            }
            assert(forall|j: int| 0 <= j < out.len() - 1 ==> out[j] == rest[j]);
            assert(out[out.len() - 1] == s.last());
            assert(!contains_id(out, id)) by {
                if contains_id(out, id) {
                    let i = choose|i: int| 0 <= i < out.len() && out[i].id == id;
                    if i < out.len() - 1 {
                        assert(rest[i].id == id);
                        assert(contains_id(rest, id));
                    }
                }
            }
        }
    }
}

/// The authoritative sequence of user records, in insertion order. Each
/// operation is one critical section of the concurrent repository; the
/// contracts model every operation exactly over `Seq<User>`.
pub struct UserStore {
    users: Vec<User>,
}

impl View for UserStore {
    type V = Seq<User>;

    closed spec fn view(&self) -> Seq<User> {
        self.users@
    }
}

impl UserStore {
    /// Every record held is well formed.
    pub open spec fn wf(&self) -> bool {
        forall|i: int| 0 <= i < self@.len() ==> (#[trigger] self@[i]).wf()
    }

    /// An empty store.
    pub fn new() -> (s: UserStore)
        ensures
            s@ == Seq::<User>::empty(),
            s.wf(),
    {
        UserStore { users: Vec::new() }
    }

    /// How many records are held.
    pub fn len(&self) -> (n: usize)
        ensures
            n == self@.len(),
    {
        self.users.len()
    }

    /// Linear scan for the id, in insertion order; the first match is
    /// copied out, a miss is `InvalidId`.
    pub fn get(&self, user_id: &UserId) -> (r: Result<User, RepositoryError>)
        ensures
            r == get_result(self@, *user_id),
    {
        let n = self.users.len();
        let mut i: usize = 0;
        proof {
            assert(self.users@.skip(0) =~= self.users@);
        }
        while i < n
            invariant
                n == self.users.len(),
                i <= n,
                lookup(self.users@, *user_id) == lookup(self.users@.skip(i as int), *user_id),
                forall|j: int| 0 <= j < i ==> self.users@[j].id != *user_id,
            decreases n - i,
        {
            let ghost rest = self.users@.skip(i as int);
            proof {
                assert(rest.len() == n - i);
                assert(rest[0] == self.users@[i as int]);
            }
            if self.users[i].id == *user_id {
                return Ok(self.users[i].clone());
            }
            proof {
                assert(rest.skip(1) =~= self.users@.skip(i as int + 1));
            }
            i = i + 1;
        }
        proof {
            assert(self.users@.skip(n as int) =~= Seq::<User>::empty());
        }
        Err(RepositoryError::InvalidId)
    }

    /// The write phase of `create`: stamp `create_at` with the creation
    /// time and append. The duplicate check happens in a separate, earlier
    /// critical section; see `MemoryRepository::create_user`.
    pub fn insert_stamped(&mut self, user: &User, now: Timestamp) -> (r: User)
        ensures
            final(self)@ == old(self)@.push(stamp_created(*user, now)),
            r == stamp_created(*user, now),
            old(self).wf() && user.wf() ==> final(self).wf(),
    {
        let mut new_user = user.clone();
        new_user.create_at = Some(now);
        self.users.push(new_user.clone());
        proof {
            if old(self).wf() && user.wf() {
                assert forall|i: int| 0 <= i < self@.len() implies (#[trigger] self@[i]).wf() by {
                    if i < self@.len() - 1 {
                        assert(self@[i] == old(self)@[i]);
                    }
                }
            }
        }
        new_user
    }

    /// The write phase of `update`: drop every record with the payload's
    /// id, stamp `update_at` from the prior record's creation time, and
    /// append. The prior record is read in a separate, earlier critical
    /// section; see `MemoryRepository::update_user`.
    pub fn apply_update(&mut self, user: &User, prior_create: Option<Timestamp>) -> (r: User)
        ensures
            final(self)@ == without_id(old(self)@, user.id).push(stamp_updated(*user, prior_create)),
            r == stamp_updated(*user, prior_create),
            old(self).wf() && user.wf() ==> final(self).wf(),
    {
        let mut updated = user.clone();
        updated.update_at = prior_create;
        self.remove_all(&user.id);
        self.users.push(updated.clone());
        proof {
            if old(self).wf() && user.wf() {
                lemma_without_id(old(self)@, user.id);
                assert forall|i: int| 0 <= i < self@.len() implies (#[trigger] self@[i]).wf() by {
                    let kept = without_id(old(self)@, user.id);
                    if i < self@.len() - 1 {
                        assert(self@[i] == kept[i]);
                        let k = choose|k: int| 0 <= k < old(self)@.len() && old(self)@[k] == kept[i];
                        assert(old(self)@[k].wf());
                    }
                }
            }
        }
        updated
    }

    /// Remove every record with the id; succeeds whether or not one was
    /// held, handing the id back.
    pub fn delete(&mut self, user_id: &UserId) -> (r: UserId)
        ensures
            final(self)@ == delete_post(old(self)@, *user_id),
            r == *user_id,
            old(self).wf() ==> final(self).wf(),
    {
        self.remove_all(user_id);
        proof {
            if old(self).wf() {
                lemma_without_id(old(self)@, *user_id);
                assert forall|i: int| 0 <= i < self@.len() implies (#[trigger] self@[i]).wf() by {
                    let k = choose|k: int|
                        0 <= k < old(self)@.len() && old(self)@[k] == self@[i];
                    assert(old(self)@[k].wf());
                }
            }
        }
        *user_id
    }

    /// `create` as one uninterrupted step: the duplicate check and the
    /// insert with no other mutation in between.
    pub fn create(&mut self, user: &User, now: Timestamp) -> (r: Result<User, RepositoryError>)
        ensures
            final(self)@ == create_post(old(self)@, *user, now),
            r == create_result(old(self)@, *user, now),
            old(self).wf() && user.wf() ==> final(self).wf(),
    {
        proof {
            lemma_lookup_finds(self@, user.id);
        }
        if self.get(&user.id).is_ok() {
            return Err(RepositoryError::AlreadyExists);
        }
        Ok(self.insert_stamped(user, now))
    }

    /// `update` as one uninterrupted step: the prior-record read and the
    /// replacement with no other mutation in between.
    pub fn update(&mut self, user: &User) -> (r: Result<User, RepositoryError>)
        ensures
            final(self)@ == update_post(old(self)@, *user),
            r == update_result(old(self)@, *user),
            old(self).wf() && user.wf() ==> final(self).wf(),
    {
        match self.get(&user.id) {
            Ok(prior) => Ok(self.apply_update(user, prior.create_at)),
            Err(_) => Err(RepositoryError::DoesNotExist),
        }
    }

    fn remove_all(&mut self, id: &UserId)
        ensures
            final(self)@ == without_id(old(self)@, *id),
    {
        let ghost s = self.users@;
        let mut kept: Vec<User> = Vec::new();
        let n = self.users.len();
        let mut i: usize = 0;
        while i < n
            invariant
                n == self.users.len(),
                s == self.users@,
                i <= n,
                kept@ == without_id(s.take(i as int), *id),
            decreases n - i,
        {
            proof {
                assert(s.take(i as int + 1).drop_last() =~= s.take(i as int));
                assert(s.take(i as int + 1).last() == s[i as int]);
            }
            if self.users[i].id != *id {
                kept.push(self.users[i].clone());
            }
            i = i + 1;
        }
        proof {
            assert(s.take(n as int) =~= s);
        }
        self.users = kept;
    }
}

/// For any state and any record whose id is not yet present, `create`
/// succeeds, the stored record equals the submitted one except that
/// `create_at` is now populated, and a subsequent `get` of that id returns
/// exactly the stored record.
pub proof fn lemma_create_then_get(s: Seq<User>, u: User, t: Timestamp)
    requires
        !contains_id(s, u.id),
    ensures
        create_result(s, u, t) == Ok::<User, RepositoryError>(stamp_created(u, t)),
        get_result(create_post(s, u, t), u.id) == Ok::<User, RepositoryError>(stamp_created(u, t)),
        stamp_created(u, t).id == u.id,
        stamp_created(u, t).name == u.name,
        stamp_created(u, t).birth_date == u.birth_date,
        stamp_created(u, t).custom_data == u.custom_data,
        stamp_created(u, t).update_at == u.update_at,
        stamp_created(u, t).create_at == Some(t),
{
    lemma_lookup_push(s, u.id, stamp_created(u, t));
}

/// `create(u)` followed immediately by `create(u)` with the same id yields
/// `AlreadyExists` on the second call, whatever the first call returned.
pub proof fn lemma_create_twice(s: Seq<User>, u: User, t1: Timestamp, t2: Timestamp)
    ensures
        create_result(create_post(s, u, t1), u, t2) == Err::<User, RepositoryError>(
            RepositoryError::AlreadyExists,
        ),
{
    if !contains_id(s, u.id) {
        let s1 = s.push(stamp_created(u, t1));
        assert(s1[s.len() as int] == stamp_created(u, t1));
        assert(contains_id(s1, u.id));
    }
}

/// `get` of an id that no record carries returns `InvalidId`.
pub proof fn lemma_get_never_inserted(s: Seq<User>, id: UserId)
    requires
        !contains_id(s, id),
    ensures
        get_result(s, id) == Err::<User, RepositoryError>(RepositoryError::InvalidId),
{
    lemma_lookup_finds(s, id);
}

/// `update` for an id that no record carries returns `DoesNotExist`.
pub proof fn lemma_update_never_created(s: Seq<User>, u: User)
    requires
        !contains_id(s, u.id),
    ensures
        update_result(s, u) == Err::<User, RepositoryError>(RepositoryError::DoesNotExist),
{
    lemma_lookup_finds(s, u.id);
}

/// `update(u2)` after `create(u)` with the same id succeeds; the stored
/// record's `update_at` equals the `create_at` the create stamped, while its
/// `create_at` is exactly what the update payload carried (the store does
/// not restamp creation time on update), and a subsequent `get` returns
/// that stored record.
pub proof fn lemma_update_after_create(s: Seq<User>, u: User, u2: User, t: Timestamp)
    requires
        !contains_id(s, u.id),
        u2.id == u.id,
    ensures
        update_result(create_post(s, u, t), u2) == Ok::<User, RepositoryError>(
            stamp_updated(u2, Some(t)),
        ),
        get_result(update_post(create_post(s, u, t), u2), u2.id) == Ok::<User, RepositoryError>(
            stamp_updated(u2, Some(t)),
        ),
        stamp_updated(u2, Some(t)).update_at == Some(t),
        stamp_updated(u2, Some(t)).create_at == u2.create_at,
        stamp_updated(u2, Some(t)).name == u2.name,
{
    let stamped = stamp_created(u, t);
    let s1 = create_post(s, u, t);
    lemma_lookup_push(s, u.id, stamped);
    assert(lookup(s1, u2.id) == Some(stamped));
    let updated = stamp_updated(u2, Some(t));
    lemma_without_id(s1, u2.id);
    lemma_lookup_push(without_id(s1, u2.id), u2.id, updated);
}

/// `delete` is idempotent: deleting the same id twice in a row leaves the
/// state of the first delete unchanged (and each call succeeds with that
/// id, by `delete`'s own contract); after the first delete, `get` of the id
/// returns `InvalidId`.
pub proof fn lemma_delete_idempotent(s: Seq<User>, id: UserId)
    ensures
        delete_post(delete_post(s, id), id) == delete_post(s, id),
        get_result(delete_post(s, id), id) == Err::<User, RepositoryError>(
            RepositoryError::InvalidId,
        ),
{
    lemma_without_id(s, id);
    lemma_without_id_absent(without_id(s, id), id);
    lemma_lookup_finds(without_id(s, id), id);
}

/// Removing an id that is absent changes nothing.
pub proof fn lemma_without_id_absent(s: Seq<User>, id: UserId)
    requires
        !contains_id(s, id),
    ensures
        without_id(s, id) == s,
    decreases s.len(),
{
    if s.len() == 0 {
        assert(without_id(s, id) =~= s);
    } else {
        assert(!contains_id(s.drop_last(), id)) by {
            if contains_id(s.drop_last(), id) {
                let i = choose|i: int| 0 <= i < s.drop_last().len() && s.drop_last()[i].id == id;
                assert(s[i] == s.drop_last()[i]);
            }
        }
        lemma_without_id_absent(s.drop_last(), id);
        assert(s.last().id != id) by {
            assert(s[s.len() - 1] == s.last());
        }
        assert(without_id(s, id) =~= s);
    }
}

} // verus!
