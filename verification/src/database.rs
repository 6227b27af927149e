//! The simulated record store: users kept in memory, single operations,
//! batches and transactions over them. Connections come from the pool;
//! this module owns the data the connections work on.

use vstd::prelude::*;

use crate::errors::ResourceError;

verus! {

/// A stored user record.
#[derive(Clone, Debug)]
pub struct User {
    pub id: u64,
    pub name: String,
    pub email: String,
    pub created_at: u64,
}

impl User {
    /// A field-for-field copy of the record.
    pub fn duplicate(&self) -> (r: User)
        ensures
            r == *self,
    {
        User {
            id: self.id,
            name: self.name.clone(),
            email: self.email.clone(),
            created_at: self.created_at,
        }
    }
}

/// One operation against the store.
#[derive(Clone, Debug)]
pub enum DatabaseOperation {
    Create(User),
    Update(User),
    Delete(u64),
}

impl DatabaseOperation {
    /// A field-for-field copy of the operation.
    pub fn duplicate(&self) -> (r: DatabaseOperation)
        ensures
            r == *self,
    {
        match self {
            DatabaseOperation::Create(u) => DatabaseOperation::Create(u.duplicate()),
            DatabaseOperation::Update(u) => DatabaseOperation::Update(u.duplicate()),
            DatabaseOperation::Delete(id) => DatabaseOperation::Delete(*id),
        }
    }
}

/// Whether some record of `s` carries identifier `id`.
pub open spec fn has_user(s: Seq<User>, id: u64) -> bool {
    exists|i: int| 0 <= i < s.len() && (#[trigger] s[i]).id == id
}

/// The index of the record with identifier `id`; under unique identifiers
/// there is at most one.
pub open spec fn user_at(s: Seq<User>, id: u64) -> int {
    choose|i: int| 0 <= i < s.len() && (#[trigger] s[i]).id == id
}

/// Whether identifiers are unique in `s`.
pub open spec fn unique_ids(s: Seq<User>) -> bool {
    forall|i: int, j: int| 0 <= i < j < s.len() ==> (#[trigger] s[i]).id != (#[trigger] s[j]).id
}

/// What storing `user` leaves behind: the record under its identifier is
/// replaced, or appended when the identifier is new.
pub open spec fn spec_put(s: Seq<User>, user: User) -> Seq<User> {
    if has_user(s, user.id) {
        s.update(user_at(s, user.id), user)
    } else {
        s.push(user)
    }
}

/// What one operation does to the store, and whether it succeeds: create
/// always stores, update stores only over an existing record, delete
/// always succeeds and removes the record if one is there.
pub open spec fn spec_apply(s: Seq<User>, op: DatabaseOperation) -> (Seq<User>, bool) {
    match op {
        DatabaseOperation::Create(user) => (spec_put(s, user), true),
        DatabaseOperation::Update(user) => if has_user(s, user.id) {
            (spec_put(s, user), true)
        } else {
            (s, false)
        },
        DatabaseOperation::Delete(id) => if has_user(s, id) {
            (s.remove(user_at(s, id)), true)
        } else {
            (s, true)
        },
    }
}

/// What a batch does: each operation is applied in order, each with its
/// own verdict, failures skipped over.
pub open spec fn spec_apply_all(s: Seq<User>, ops: Seq<DatabaseOperation>) -> (
    Seq<User>,
    Seq<bool>,
)
    decreases ops.len(),
{
    if ops.len() == 0 {
        (s, Seq::empty())
    } else {
        let (s1, oks) = spec_apply_all(s, ops.drop_last());
        let (s2, ok) = spec_apply(s1, ops.last());
        (s2, oks.push(ok))
    }
}

/// What a transaction does: operations are applied in order until the
/// first failure, which stops the run there.
pub open spec fn spec_commit(s: Seq<User>, ops: Seq<DatabaseOperation>) -> (Seq<User>, bool)
    decreases ops.len(),
{
    if ops.len() == 0 {
        (s, true)
    } else {
        let (s1, ok) = spec_apply(s, ops[0]);
        if ok {
            spec_commit(s1, ops.drop_first())
        } else {
            (s1, false)
        }
    }
}

/// The in-memory user store.
pub struct Database {
    users: Vec<User>,
}

impl View for Database {
    type V = Seq<User>;

    closed spec fn view(&self) -> Seq<User> {
        self.users@
    }
}

impl Database {
    /// An empty store.
    pub fn new() -> (r: Database)
        ensures
            r@.len() == 0,
            unique_ids(r@),
    {
        Database { users: Vec::new() }
    }

    pub fn user_count(&self) -> (r: usize)
        ensures
            r == self@.len(),
    {
        self.users.len()
    }

    /// A simulated query over a checked-out connection: the statement
    /// text is only carried along; the store answers with every record,
    /// in storage order.
    pub fn query(&self, _sql: &str) -> (r: Vec<User>)
        ensures
            r@ == self@,
    {
        let n = self.users.len();
        let mut out: Vec<User> = Vec::new();
        let mut i: usize = 0;
        while i < n
            invariant
                0 <= i <= n,
                n == self@.len(),
                out@ == self@.subrange(0, i as int),
            decreases n - i,
        {
            out.push(self.users[i].duplicate());
            proof {
                assert(out@ =~= self@.subrange(0, i + 1));
            }
            i = i + 1;
        }
        proof {
            assert(self@.subrange(0, n as int) =~= self@);
        }
        out
    }

    /// A simulated update over a checked-out connection: the statement
    /// text is only carried along; one affected row is reported.
    pub fn execute(&self, _sql: &str) -> (r: u64)
        ensures
            r == 1,
    {
        1
    }

    /// The index of the record with identifier `id`, if one is stored.
    fn find_index(&self, id: u64) -> (r: Option<usize>)
        requires
            unique_ids(self@),
        ensures
            match r {
                Some(i) => i < self@.len() && self@[i as int].id == id && has_user(self@, id)
                    && user_at(self@, id) == i,
                None => !has_user(self@, id),
            },
    {
        let n = self.users.len();
        let mut i: usize = 0;
        while i < n
            invariant
                0 <= i <= n,
                n == self@.len(),
                unique_ids(self@),
                forall|j: int| 0 <= j < i ==> (#[trigger] self@[j]).id != id,
            decreases n - i,
        {
            if self.users[i].id == id {
                return Some(i);
            }
            i = i + 1;
        }
        None
    }

    /// The record stored under `id`, if any.
    pub fn find_user(&self, id: u64) -> (r: Option<User>)
        requires
            unique_ids(self@),
        ensures
            has_user(self@, id) ==> r == Some(self@[user_at(self@, id)]),
            !has_user(self@, id) ==> r is None,
    {
        match self.find_index(id) {
            Some(i) => Some(self.users[i].duplicate()),
            None => None,
        }
    }

    /// Stores `user`, overwriting any record already under its
    /// identifier.
    pub fn create_user(&mut self, user: User)
        requires
            unique_ids(old(self)@),
        ensures
            unique_ids(final(self)@),
            final(self)@ == spec_put(old(self)@, user),
            has_user(final(self)@, user.id),
    {
        let ghost guser = user;
        match self.find_index(user.id) {
            Some(i) => {
                self.users[i] = user;
            },
            None => {
                self.users.push(user);
            },
        }
        proof {
            assert(self@ =~= spec_put(old(self)@, guser));
            lemma_put_unique(old(self)@, guser);
        }
    }

    /// Replaces the record under `user`'s identifier; a user never stored
    /// cannot be updated and is reported missing.
    pub fn update_user(&mut self, user: User) -> (r: Result<(), ResourceError>)
        requires
            unique_ids(old(self)@),
        ensures
            unique_ids(final(self)@),
            has_user(old(self)@, user.id) ==> r == Ok::<(), ResourceError>(()) && final(self)@
                == spec_put(old(self)@, user),
            !has_user(old(self)@, user.id) ==> r == Err::<(), ResourceError>(
                ResourceError::NotFound,
            ) && final(self)@ == old(self)@,
    {
        let ghost guser = user;
        match self.find_index(user.id) {
            Some(i) => {
                self.users[i] = user;
                proof {
                    assert(self@ =~= spec_put(old(self)@, guser));
                    lemma_put_unique(old(self)@, guser);
                }
                Ok(())
            },
            None => Err(ResourceError::NotFound),
        }
    }

    /// Removes the record under `id`, if one is stored; removing an
    /// unknown identifier is no error.
    pub fn delete_user(&mut self, id: u64)
        requires
            unique_ids(old(self)@),
        ensures
            unique_ids(final(self)@),
            has_user(old(self)@, id) ==> final(self)@ == old(self)@.remove(
                user_at(old(self)@, id),
            ),
            !has_user(old(self)@, id) ==> final(self)@ == old(self)@,
            !has_user(final(self)@, id),
    {
        match self.find_index(id) {
            Some(i) => {
                self.users.remove(i);
                proof {
                    lemma_remove_unique(old(self)@, i as int, id);
                }
            },
            None => {
            },
        }
    }

    /// Applies one operation.
    fn apply_operation(&mut self, op: DatabaseOperation) -> (r: bool)
        requires
            unique_ids(old(self)@),
        ensures
            unique_ids(final(self)@),
            final(self)@ == spec_apply(old(self)@, op).0,
            r == spec_apply(old(self)@, op).1,
    {
        match op {
            DatabaseOperation::Create(user) => {
                self.create_user(user);
                true
            },
            DatabaseOperation::Update(user) => {
                match self.update_user(user) {
                    Ok(_) => true,
                    Err(_) => false,
                }
            },
            DatabaseOperation::Delete(id) => {
                self.delete_user(id);
                true
            },
        }
    }

    /// Applies a batch of operations in order; each gets its own verdict
    /// and a failed one skips nothing that follows.
    pub fn batch_operations(&mut self, ops: Vec<DatabaseOperation>) -> (r: Vec<bool>)
        requires
            unique_ids(old(self)@),
        ensures
            unique_ids(final(self)@),
            final(self)@ == spec_apply_all(old(self)@, ops@).0,
            r@ == spec_apply_all(old(self)@, ops@).1,
            r@.len() == ops@.len(),
    {
        let n = ops.len();
        let mut results: Vec<bool> = Vec::new();
        let mut j: usize = 0;
        proof {
            assert(ops@.subrange(0, 0) =~= Seq::<DatabaseOperation>::empty());
        }
        while j < n
            invariant
                0 <= j <= n,
                n == ops@.len(),
                unique_ids(self@),
                self@ == spec_apply_all(old(self)@, ops@.subrange(0, j as int)).0,
                results@ == spec_apply_all(old(self)@, ops@.subrange(0, j as int)).1,
                results@.len() == j,
            decreases n - j,
        {
            proof {
                assert(ops@.subrange(0, j + 1).drop_last() =~= ops@.subrange(0, j as int));
                assert(ops@.subrange(0, j + 1).last() == ops@[j as int]);
            }
            let op = ops[j].duplicate();
            let ok = self.apply_operation(op);
            results.push(ok);
            j = j + 1;
        }
        proof {
            assert(ops@.subrange(0, n as int) =~= ops@);
        }
        results
    }
}

/// Storing a record keeps identifiers unique.
proof fn lemma_put_unique(s: Seq<User>, user: User)
    requires
        unique_ids(s),
    ensures
        unique_ids(spec_put(s, user)),
        has_user(spec_put(s, user), user.id),
{
    let s2 = spec_put(s, user);
    if has_user(s, user.id) {
        assert(s2[user_at(s, user.id)].id == user.id);
    } else {
        assert(s2[s.len() as int].id == user.id);
    }
}

/// Removing the only record under an identifier leaves the identifiers
/// unique and the identifier gone.
proof fn lemma_remove_unique(s: Seq<User>, k: int, id: u64)
    requires
        unique_ids(s),
        0 <= k < s.len(),
        s[k].id == id,
    ensures
        unique_ids(s.remove(k)),
        !has_user(s.remove(k), id),
{
    let s2 = s.remove(k);
    assert forall|i: int| 0 <= i < s2.len() implies (#[trigger] s2[i]).id != id by {
        if i < k {
            assert(s2[i] == s[i]);
        } else {
            assert(s2[i] == s[i + 1]);
        }
    }
}

/// A buffered list of operations, committed against the store in one go.
pub struct Transaction {
    operations: Vec<DatabaseOperation>,
}

impl View for Transaction {
    type V = Seq<DatabaseOperation>;

    closed spec fn view(&self) -> Seq<DatabaseOperation> {
        self.operations@
    }
}

impl Transaction {
    /// A transaction holding no operations yet.
    pub fn new() -> (r: Transaction)
        ensures
            r@.len() == 0,
    {
        Transaction { operations: Vec::new() }
    }

    /// Buffers one more operation.
    pub fn add_operation(&mut self, operation: DatabaseOperation)
        ensures
            final(self)@ == old(self)@.push(operation),
    {
        self.operations.push(operation);
    }

    pub fn operation_count(&self) -> (r: usize)
        ensures
            r == self@.len(),
    {
        self.operations.len()
    }

    /// Runs the buffered operations against `db` in order, stopping at
    /// the first that fails; what ran before a failure stays applied.
    pub fn commit(self, db: &mut Database) -> (r: Result<(), ResourceError>)
        requires
            unique_ids(old(db)@),
        ensures
            unique_ids(final(db)@),
            final(db)@ == spec_commit(old(db)@, self@).0,
            (r == Ok::<(), ResourceError>(())) <==> spec_commit(old(db)@, self@).1,
            r is Err ==> r == Err::<(), ResourceError>(ResourceError::NotFound),
    {
        let ghost gops = self@;
        let n = self.operations.len();
        let ops = self.operations;
        let mut j: usize = 0;
        proof {
            assert(gops.subrange(0, n as int) =~= gops);
        }
        while j < n
            invariant
                0 <= j <= n,
                n == gops.len(),
                ops@ == gops,
                gops == self@,
                unique_ids(db@),
                spec_commit(old(db)@, gops) == spec_commit(db@, gops.subrange(j as int, n as int)),
            decreases n - j,
        {
            proof {
                assert(gops.subrange(j as int, n as int).drop_first() =~= gops.subrange(
                    j + 1,
                    n as int,
                ));
                assert(gops.subrange(j as int, n as int)[0] == gops[j as int]);
            }
            let op = ops[j].duplicate();
            let ghost pre = db@;
            let ok = db.apply_operation(op);
            if !ok {
                proof {
                    assert(spec_commit(pre, gops.subrange(j as int, n as int)) == (
                        db@,
                        false,
                    ));
                }
                return Err(ResourceError::NotFound);
            }
            j = j + 1;
        }
        proof {
            assert(gops.subrange(n as int, n as int) =~= Seq::<DatabaseOperation>::empty());
        }
        Ok(())
    }
}

} // verus!
