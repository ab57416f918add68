//! The persistence gateway's record store, modelled in memory: one table of
//! user rows, kept sorted by ascending id, with an increasing id counter.
//! The five gateway operations are exact about what they return and how
//! they change the table.
use crate::user::{copy_bytes, copy_user, User, UserView};
use vstd::pervasive::VecAdditionalExecFns;
use vstd::prelude::*;

verus! {

/// A store-level failure: the id matched no row, or the backend refused.
#[derive(Clone, Copy, Debug, PartialEq, Eq, Structural)]
pub enum StoreError {
    NotFound,
    Backend,
}

/// The id of a persisted row (meaningful only when `id` is `Some`).
pub open spec fn id_of(u: UserView) -> int {
    u.id->Some_0
}

/// The spec image of a sequence of records.
pub open spec fn views_of(s: Seq<User>) -> Seq<UserView> {
    Seq::new(s.len(), |i: int| s[i]@)
}

/// A persisted row: id assigned, positive, and below the counter.
pub open spec fn row_ok(u: UserView, next: int) -> bool {
    u.id is Some && 1 <= id_of(u) < next
}

/// Well-formed table: counter at least 1, every row persisted, rows in
/// strictly ascending id order (so ids are unique).
pub open spec fn rows_wf(rows: Seq<UserView>, next: int) -> bool {
    &&& 1 <= next
    &&& forall|i: int| 0 <= i < rows.len() ==> row_ok(#[trigger] rows[i], next)
    &&& forall|i: int, j: int|
        #![trigger rows[i], rows[j]]
        0 <= i < j < rows.len() ==> id_of(rows[i]) < id_of(rows[j])
}

/// Index of the first row with the given id, or -1 if there is none.
pub open spec fn find_id(rows: Seq<UserView>, id: int) -> int
    decreases rows.len(),
{
    if rows.len() == 0 {
        -1
    } else if id_of(rows[0]) == id {
        0
    } else {
        let r = find_id(rows.skip(1), id);
        if r == -1 {
            -1
        } else {
            r + 1
        }
    }
}

pub open spec fn contains_id(rows: Seq<UserView>, id: int) -> bool {
    find_id(rows, id) >= 0
}

/// The row with the given id, if any.
pub open spec fn lookup(rows: Seq<UserView>, id: int) -> Option<UserView> {
    if contains_id(rows, id) {
        Some(rows[find_id(rows, id)])
    } else {
        None
    }
}

/// What `find_id` finds: a first match, or evidence of no match at all.
pub proof fn lemma_find_id(rows: Seq<UserView>, id: int)
    ensures
        -1 <= find_id(rows, id) < rows.len(),
        find_id(rows, id) == -1 ==> forall|i: int|
            0 <= i < rows.len() ==> id_of(#[trigger] rows[i]) != id,
        find_id(rows, id) >= 0 ==> {
            &&& 0 <= find_id(rows, id) < rows.len()
            &&& id_of(rows[find_id(rows, id)]) == id
            &&& forall|i: int| 0 <= i < find_id(rows, id) ==> id_of(#[trigger] rows[i]) != id
        },
    decreases rows.len(),
{
    if rows.len() == 0 {
    } else if id_of(rows[0]) == id {
    } else {
        lemma_find_id(rows.skip(1), id);
        let r = find_id(rows.skip(1), id);
        if r == -1 {
            assert forall|i: int| 0 <= i < rows.len() implies id_of(#[trigger] rows[i]) != id by {
                if i >= 1 {
                    assert(rows.skip(1)[i - 1] == rows[i]);
                    assert(id_of(rows.skip(1)[i - 1]) != id);
                }
            }
        } else {
            assert(rows.skip(1)[r] == rows[r + 1]);
            assert forall|i: int| 0 <= i < r + 1 implies id_of(#[trigger] rows[i]) != id by {
                if i >= 1 {
                    assert(rows.skip(1)[i - 1] == rows[i]);
                    assert(id_of(rows.skip(1)[i - 1]) != id);
                }
            }
        }
    }
}

/// A row that is present is found.
pub proof fn lemma_find_id_present(rows: Seq<UserView>, id: int, i: int)
    requires
        0 <= i < rows.len(),
        id_of(rows[i]) == id,
    ensures
        find_id(rows, id) >= 0,
    decreases rows.len(),
{
    if i == 0 {
    } else if id_of(rows[0]) == id {
    } else {
        assert(rows.skip(1)[i - 1] == rows[i]);
        lemma_find_id_present(rows.skip(1), id, i - 1);
    }
}

/// In a well-formed table, the row holding an id is the one `find_id` gives.
pub proof fn lemma_find_id_unique(rows: Seq<UserView>, next: int, id: int, i: int)
    requires
        rows_wf(rows, next),
        0 <= i < rows.len(),
        id_of(rows[i]) == id,
    ensures
        find_id(rows, id) == i,
        lookup(rows, id) == Some(rows[i]),
{
    lemma_find_id_present(rows, id, i);
    lemma_find_id(rows, id);
    let k = find_id(rows, id);
    if k < i {
        assert(id_of(rows[k]) < id_of(rows[i]));
    } else if k > i {
        assert(id_of(rows[i]) < id_of(rows[k]));
    }
}

/// An id on which every row differs is not found.
pub proof fn lemma_find_id_absent(rows: Seq<UserView>, id: int)
    requires
        forall|i: int| 0 <= i < rows.len() ==> id_of(#[trigger] rows[i]) != id,
    ensures
        find_id(rows, id) == -1,
        lookup(rows, id) is None,
{
    lemma_find_id(rows, id);
    let k = find_id(rows, id);
    if k >= 0 {
        assert(id_of(rows[k]) == id);
        assert(id_of(rows[k]) != id);
    }
}

/// The users table: rows in ascending id order and the next id to assign.
pub struct UserStore {
    users: Vec<User>,
    next_id: i32,
}

impl UserStore {
    /// The table's rows, as spec views.
    pub closed spec fn rows(&self) -> Seq<UserView> {
        views_of(self.users@)
    }

    /// The next id the store will assign.
    pub closed spec fn next(&self) -> int {
        self.next_id as int
    }

    pub open spec fn wf(&self) -> bool {
        rows_wf(self.rows(), self.next()) && self.next() <= 2147483647
    }

    /// An empty table; the first assigned id will be 1.
    pub fn new() -> (s: UserStore)
        ensures
            s.wf(),
            s.rows() == Seq::<UserView>::empty(),
            s.next() == 1,
    {
        let s = UserStore { users: Vec::new(), next_id: 1 };
        proof {
            assert(s.rows() =~= Seq::<UserView>::empty());
        }
        s
    }
}

/// `true` iff the record's assigned id is `id`.
fn user_id_is(u: &User, id: i32) -> (r: bool)
    ensures
        r == (u@.id is Some && id_of(u@) == id as int),
{
    match u.id {
        Some(x) => x == id,
        None => false,
    }
}

/// Inserts a record: the store assigns the next id (any id on the record is
/// ignored), appends the row, and returns the persisted record. Fails with
/// `Backend` only when the id counter is exhausted.
#[verifier::loop_isolation(false)]
pub fn create_user(store: &mut UserStore, user: &User) -> (r: Result<User, StoreError>)
    requires
        old(store).wf(),
    ensures
        final(store).wf(),
        old(store).next() < 2147483647 ==> {
            &&& r is Ok
            &&& r->Ok_0@ == (UserView {
                id: Some(old(store).next()),
                name: user@.name,
                email: user@.email,
            })
            &&& final(store).rows() == old(store).rows().push(r->Ok_0@)
            &&& final(store).next() == old(store).next() + 1
        },
        old(store).next() == 2147483647 ==> {
            &&& r is Err
            &&& r->Err_0 == StoreError::Backend
            &&& final(store).rows() == old(store).rows()
            &&& final(store).next() == old(store).next()
        },
{
    if store.next_id == 2147483647 {
        return Err(StoreError::Backend);
    }
    let id = store.next_id;
    let row = User { id: Some(id), name: copy_bytes(&user.name), email: copy_bytes(&user.email) };
    let echo = copy_user(&row);
    store.users.push(row);
    store.next_id = id + 1;
    proof {
        let rows0 = old(store).rows();
        let uv = (UserView { id: Some(id as int), name: user@.name, email: user@.email });
        assert(store.rows() =~= rows0.push(uv));
        assert forall|i: int| 0 <= i < store.rows().len() implies row_ok(
            #[trigger] store.rows()[i],
            store.next(),
        ) by {
            if i < rows0.len() {
                assert(row_ok(rows0[i], old(store).next()));
            }
        }
        assert forall|a: int, b: int|
            #![trigger store.rows()[a], store.rows()[b]]
            0 <= a < b < store.rows().len() implies id_of(store.rows()[a]) < id_of(
            store.rows()[b],
        ) by {
            if b < rows0.len() {
                assert(id_of(rows0[a]) < id_of(rows0[b]));
            } else {
                assert(row_ok(rows0[a], old(store).next()));
            }
        }
    }
    Ok(echo)
}

/// Fetches the record with the given id, or `NotFound`.
#[verifier::loop_isolation(false)]
pub fn get_user(store: &UserStore, id: i32) -> (r: Result<User, StoreError>)
    requires
        store.wf(),
    ensures
        match lookup(store.rows(), id as int) {
            Some(u) => r is Ok && r->Ok_0@ == u,
            None => r is Err && r->Err_0 == StoreError::NotFound,
        },
{
    let n = store.users.len();
    let mut i: usize = 0;
    while i < n
        invariant
            0 <= i <= n,
            forall|j: int| 0 <= j < i ==> id_of(#[trigger] store.rows()[j]) != id as int,
        decreases n - i,
    {
        let u = &store.users[i];
        if user_id_is(u, id) {
            proof {
                lemma_find_id_unique(store.rows(), store.next(), id as int, i as int);
            }
            return Ok(copy_user(u));
        }
        i = i + 1;
    }
    proof {
        lemma_find_id_absent(store.rows(), id as int);
    }
    Err(StoreError::NotFound)
}

/// Lists every record, in ascending id order.
#[verifier::loop_isolation(false)]
pub fn get_all_users(store: &UserStore) -> (r: Result<Vec<User>, StoreError>)
    requires
        store.wf(),
    ensures
        r is Ok,
        views_of(r->Ok_0@) == store.rows(),
{
    let n = store.users.len();
    let mut out: Vec<User> = Vec::new();
    let mut i: usize = 0;
    while i < n
        invariant
            0 <= i <= n,
            views_of(out@) =~= store.rows().take(i as int),
        decreases n - i,
    {
        out.push(copy_user(&store.users[i]));
        proof {
            assert(views_of(out@) =~= store.rows().take(i + 1));
        }
        i = i + 1;
    }
    proof {
        assert(store.rows().take(n as int) =~= store.rows());
        assert(views_of(out@) =~= store.rows());
    }
    Ok(out)
}

/// Updates the name and email of the row whose id the record carries;
/// `NotFound` when no row has that id.
#[verifier::loop_isolation(false)]
pub fn update_user(store: &mut UserStore, user: User) -> (r: Result<User, StoreError>)
    requires
        old(store).wf(),
        user.id is Some,
    ensures
        final(store).wf(),
        final(store).next() == old(store).next(),
        match lookup(old(store).rows(), id_of(user@)) {
            Some(_) => {
                &&& r is Ok
                &&& r->Ok_0@ == user@
                &&& final(store).rows() == old(store).rows().update(
                    find_id(old(store).rows(), id_of(user@)),
                    user@,
                )
            },
            None => {
                &&& r is Err
                &&& r->Err_0 == StoreError::NotFound
                &&& final(store).rows() == old(store).rows()
            },
        },
{
    let id = match user.id {
        Some(x) => x,
        None => 0,
    };
    let n = store.users.len();
    let mut i: usize = 0;
    while i < n
        invariant
            0 <= i <= n,
            store.rows() == old(store).rows(),
            store.next() == old(store).next(),
            n == store.rows().len(),
            forall|j: int| 0 <= j < i ==> id_of(#[trigger] store.rows()[j]) != id as int,
        decreases n - i,
    {
        let present = user_id_is(&store.users[i], id);
        if present {
            proof {
                lemma_find_id_unique(store.rows(), store.next(), id as int, i as int);
            }
            let echo = copy_user(&user);
            let ghost rows0 = store.rows();
            store.users.set(i, user);
            proof {
                assert(store.rows() =~= rows0.update(i as int, echo@));
                assert forall|a: int| 0 <= a < store.rows().len() implies row_ok(
                    #[trigger] store.rows()[a],
                    store.next(),
                ) by {
                    assert(row_ok(rows0[a], old(store).next()));
                }
                assert forall|a: int, b: int|
                    #![trigger store.rows()[a], store.rows()[b]]
                    0 <= a < b < store.rows().len() implies id_of(store.rows()[a]) < id_of(
                    store.rows()[b],
                ) by {
                    assert(id_of(rows0[a]) < id_of(rows0[b]));
                }
            }
            return Ok(echo);
        }
        i = i + 1;
    }
    proof {
        lemma_find_id_absent(store.rows(), id as int);
    }
    Err(StoreError::NotFound)
}

/// Deletes the row with the given id; `NotFound` when no row has it.
/// Rows that remain keep their order.
#[verifier::loop_isolation(false)]
pub fn delete_user(store: &mut UserStore, id: i32) -> (r: Result<(), StoreError>)
    requires
        old(store).wf(),
    ensures
        final(store).wf(),
        final(store).next() == old(store).next(),
        match lookup(old(store).rows(), id as int) {
            Some(_) => r is Ok && final(store).rows() == old(store).rows().remove(
                find_id(old(store).rows(), id as int),
            ),
            None => {
                &&& r is Err
                &&& r->Err_0 == StoreError::NotFound
                &&& final(store).rows() == old(store).rows()
            },
        },
{
    let n = store.users.len();
    let mut i: usize = 0;
    while i < n
        invariant
            0 <= i <= n,
            store.rows() == old(store).rows(),
            store.next() == old(store).next(),
            n == store.rows().len(),
            forall|j: int| 0 <= j < i ==> id_of(#[trigger] store.rows()[j]) != id as int,
        decreases n - i,
    {
        let present = user_id_is(&store.users[i], id);
        if present {
            proof {
                lemma_find_id_unique(store.rows(), store.next(), id as int, i as int);
            }
            let ghost rows0 = store.rows();
            let _ = store.users.remove(i);
            proof {
                assert(store.rows() =~= rows0.remove(i as int));
                assert forall|a: int| 0 <= a < store.rows().len() implies row_ok(
                    #[trigger] store.rows()[a],
                    store.next(),
                ) by {
                    let a0 = if a < i { a } else { a + 1 };
                    assert(row_ok(rows0[a0], old(store).next()));
                }
                assert forall|a: int, b: int|
                    #![trigger store.rows()[a], store.rows()[b]]
                    0 <= a < b < store.rows().len() implies id_of(store.rows()[a]) < id_of(
                    store.rows()[b],
                ) by {
                    let a0 = if a < i { a } else { a + 1 };
                    let b0 = if b < i { b } else { b + 1 };
                    assert(id_of(rows0[a0]) < id_of(rows0[b0]));
                }
            }
            return Ok(());
        }
        i = i + 1;
    }
    proof {
        lemma_find_id_absent(store.rows(), id as int);
    }
    Err(StoreError::NotFound)
}

} // verus!
