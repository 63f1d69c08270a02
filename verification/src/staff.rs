//! Staff users and the table that holds them.
//!
//! A user is found for a login attempt only while active and not deleted.
//! Among the users that are not deleted no login occurs twice, and a new
//! user gets a login that no row carries, deleted or not.

use vstd::prelude::*;
use crate::errors::Failure;
use crate::password::SALT_LEN;

verus! {

/// A staff user as a mathematical record.
#[verifier::ext_equal]
pub struct StaffUserView {
    pub id: u64,
    pub project_id: i32,
    pub email: Seq<char>,
    pub created_at: u64,
    pub updated_at: u64,
    pub login: Seq<char>,
    pub active: bool,
    pub deleted: bool,
    /// The encoded hash of the password, never the password.
    pub password: Seq<char>,
    pub salt: Seq<u8>,
}

impl StaffUserView {
    /// Only a user that is active and not deleted may log in.
    pub open spec fn may_authenticate(self) -> bool {
        self.active && !self.deleted
    }
}

/// The user that registration adds: active, not deleted, created at `now`.
pub open spec fn fresh_user(
    id: u64,
    project_id: i32,
    email: Seq<char>,
    login: Seq<char>,
    encoded_hash: Seq<char>,
    salt: Seq<u8>,
    now: u64,
) -> StaffUserView {
    StaffUserView {
        id,
        project_id,
        email,
        created_at: now,
        updated_at: now,
        login,
        active: true,
        deleted: false,
        password: encoded_hash,
        salt,
    }
}

/// One row of the table of staff users.
#[derive(Debug)]
pub struct StaffUser {
    id: u64,
    project_id: i32,
    email: String,
    created_at: u64,
    updated_at: u64,
    login: String,
    active: bool,
    deleted: bool,
    password: String,
    salt: Vec<u8>,
}

impl View for StaffUser {
    type V = StaffUserView;

    closed spec fn view(&self) -> StaffUserView {
        StaffUserView {
            id: self.id,
            project_id: self.project_id,
            email: self.email@,
            created_at: self.created_at,
            updated_at: self.updated_at,
            login: self.login@,
            active: self.active,
            deleted: self.deleted,
            password: self.password@,
            salt: self.salt@,
        }
    }
}

impl Clone for StaffUser {
    fn clone(&self) -> (copy: StaffUser)
        ensures
            copy@ == self@,
    {
        StaffUser {
            id: self.id,
            project_id: self.project_id,
            email: self.email.clone(),
            created_at: self.created_at,
            updated_at: self.updated_at,
            login: self.login.clone(),
            active: self.active,
            deleted: self.deleted,
            password: self.password.clone(),
            salt: self.salt.clone(),
        }
    }
}

impl StaffUser {
    /// A user with the given fields, as read from a table.
    pub fn new(
        id: u64,
        project_id: i32,
        email: String,
        created_at: u64,
        updated_at: u64,
        login: String,
        active: bool,
        deleted: bool,
        password: String,
        salt: Vec<u8>,
    ) -> (user: StaffUser)
        ensures
            user@ == (StaffUserView {
                id,
                project_id,
                email: email@,
                created_at,
                updated_at,
                login: login@,
                active,
                deleted,
                password: password@,
                salt: salt@,
            }),
    {
        StaffUser {
            id,
            project_id,
            email,
            created_at,
            updated_at,
            login,
            active,
            deleted,
            password,
            salt,
        }
    }

    pub fn id(&self) -> (id: u64)
        ensures
            id == self@.id,
    {
        self.id
    }

    pub fn project_id(&self) -> (project_id: i32)
        ensures
            project_id == self@.project_id,
    {
        self.project_id
    }

    pub fn email(&self) -> (email: &str)
        ensures
            email@ == self@.email,
    {
        self.email.as_str()
    }

    pub fn login(&self) -> (login: &str)
        ensures
            login@ == self@.login,
    {
        self.login.as_str()
    }

    pub fn created_at(&self) -> (at: u64)
        ensures
            at == self@.created_at,
    {
        self.created_at
    }

    pub fn updated_at(&self) -> (at: u64)
        ensures
            at == self@.updated_at,
    {
        self.updated_at
    }

    pub fn active(&self) -> (active: bool)
        ensures
            active == self@.active,
    {
        self.active
    }

    pub fn deleted(&self) -> (deleted: bool)
        ensures
            deleted == self@.deleted,
    {
        self.deleted
    }

    /// The encoded hash of the user's password.
    pub fn password(&self) -> (encoded: &str)
        ensures
            encoded@ == self@.password,
    {
        self.password.as_str()
    }

    pub fn salt(&self) -> (salt: &Vec<u8>)
        ensures
            salt@ == self@.salt,
    {
        &self.salt
    }

    /// Whether the user may log in: active and not deleted.
    pub fn may_authenticate(&self) -> (allowed: bool)
        ensures
            allowed == self@.may_authenticate(),
    {
        self.active && !self.deleted
    }
}

/// The table of staff users as a mathematical value.
#[verifier::ext_equal]
pub struct StaffTable {
    pub rows: Seq<StaffUserView>,
    pub next_id: u64,
}

/// No identifier occurs twice.
pub open spec fn distinct_ids(rows: Seq<StaffUserView>) -> bool {
    forall|i: int, j: int|
        0 <= i < j < rows.len() ==> (#[trigger] rows[i]).id != (#[trigger] rows[j]).id
}

/// Among the rows that are not deleted no login occurs twice.
pub open spec fn unique_logins(rows: Seq<StaffUserView>) -> bool {
    forall|i: int, j: int|
        0 <= i < j < rows.len() && !(#[trigger] rows[i]).deleted && !(#[trigger] rows[j]).deleted
            ==> rows[i].login != rows[j].login
}

/// Every identifier is below `bound`.
pub open spec fn ids_below(rows: Seq<StaffUserView>, bound: u64) -> bool {
    forall|i: int| 0 <= i < rows.len() ==> (#[trigger] rows[i]).id < bound
}

impl StaffTable {
    pub open spec fn wf(self) -> bool {
        &&& self.next_id >= 1
        &&& ids_below(self.rows, self.next_id)
        &&& distinct_ids(self.rows)
        &&& unique_logins(self.rows)
    }

    /// Whether some row, deleted or not, carries the login.
    pub open spec fn has_login(self, login: Seq<char>) -> bool {
        exists|i: int| 0 <= i < self.rows.len() && (#[trigger] self.rows[i]).login == login
    }

    /// Whether `user` is a row with this login that may log in. In a
    /// well-formed table there is at most one.
    pub open spec fn is_active_user(self, login: Seq<char>, user: StaffUserView) -> bool {
        self.rows.contains(user) && user.login == login && user.may_authenticate()
    }

    /// Whether some user with the login may log in.
    pub open spec fn has_active(self, login: Seq<char>) -> bool {
        exists|user: StaffUserView| self.is_active_user(login, user)
    }

    /// The user with the login that may log in.
    pub open spec fn active_user(self, login: Seq<char>) -> StaffUserView
        recommends
            self.has_active(login),
    {
        choose|user: StaffUserView| self.is_active_user(login, user)
    }

    /// Whether a user with this login can be added.
    pub open spec fn accepts(self, login: Seq<char>) -> bool {
        !self.has_login(login) && self.next_id < u64::MAX
    }

    /// The table after `user` was added under the next identifier.
    pub open spec fn inserted(self, user: StaffUserView) -> StaffTable {
        StaffTable { rows: self.rows.push(user), next_id: (self.next_id + 1) as u64 }
    }
}

/// The rows of a table as mathematical records.
pub open spec fn views(rows: Seq<StaffUser>) -> Seq<StaffUserView> {
    rows.map_values(|u: StaffUser| u@)
}

/// Rows that can make up a table: no identifier twice, no login twice
/// among the rows that are not deleted, and an identifier left for the
/// next row.
pub open spec fn consistent(rows: Seq<StaffUserView>) -> bool {
    distinct_ids(rows) && unique_logins(rows) && ids_below(rows, u64::MAX)
}

/// `next` is the identifier after the largest one in `rows`, and 1 where
/// there is none.
pub open spec fn follows_ids(rows: Seq<StaffUserView>, next: u64) -> bool {
    &&& next >= 1
    &&& ids_below(rows, next)
    &&& (next == 1 || exists|i: int| 0 <= i < rows.len() && (#[trigger] rows[i]).id + 1 == next)
}

/// The table of staff users.
pub struct StaffRepo {
    rows: Vec<StaffUser>,
    next_id: u64,
}

impl View for StaffRepo {
    type V = StaffTable;

    closed spec fn view(&self) -> StaffTable {
        StaffTable { rows: views(self.rows@), next_id: self.next_id }
    }
}

impl StaffRepo {
    /// Every table is well-formed, at all times.
    #[verifier::type_invariant]
    pub open spec fn inv(self) -> bool {
        self@.wf()
    }

    /// An empty table.
    pub fn new() -> (repo: StaffRepo)
        ensures
            repo@.rows.len() == 0,
            repo@.next_id == 1,
            repo@.wf(),
    {
        StaffRepo { rows: Vec::new(), next_id: 1 }
    }

    /// The table that holds exactly the given rows, in their order. Rows
    /// that are not consistent give `Failure::Store`.
    pub fn from_rows(rows: Vec<StaffUser>) -> (r: Result<StaffRepo, Failure>)
        ensures
            r is Ok <==> consistent(views(rows@)),
            r matches Ok(repo) ==> {
                &&& repo@.rows == views(rows@)
                &&& follows_ids(views(rows@), repo@.next_id)
                &&& repo@.wf()
            },
            r matches Err(e) ==> e == Failure::Store,
    {
        let ghost all = views(rows@);
        let n = rows.len();
        let mut next_id: u64 = 1;
        let mut i: usize = 0;
        while i < n
            invariant
                n == rows.len(),
                all == views(rows@),
                i <= n,
                follows_ids(all.take(i as int), next_id),
                consistent(all.take(i as int)),
            decreases n - i,
        {
            let id = rows[i].id;
            if id == u64::MAX {
                proof {
                    assert(all[i as int].id == u64::MAX);
                }
                return Err(Failure::Store);
            }
            let mut j: usize = 0;
            while j < i
                invariant
                    n == rows.len(),
                    all == views(rows@),
                    j <= i < n,
                    id == all[i as int].id,
                    forall|k: int| 0 <= k < j ==> (#[trigger] all[k]).id != id,
                    forall|k: int|
                        0 <= k < j && !(#[trigger] all[k]).deleted && !all[i as int].deleted
                            ==> all[k].login != all[i as int].login,
                decreases i - j,
            {
                if rows[j].id == id {
                    proof {
                        assert(all[j as int].id == all[i as int].id);
                    }
                    return Err(Failure::Store);
                }
                if !rows[j].deleted && !rows[i].deleted && rows[j].login == rows[i].login {
                    proof {
                        assert(!all[j as int].deleted && !all[i as int].deleted);
                        assert(all[j as int].login == all[i as int].login);
                    }
                    return Err(Failure::Store);
                }
                j += 1;
            }
            proof {
                let before = all.take(i as int);
                let after = all.take(i + 1);
                assert forall|k: int| 0 <= k < i implies #[trigger] after[k] == before[k] by {}
                assert(after[i as int] == all[i as int]);
                assert forall|a: int, b: int| 0 <= a < b < after.len() implies (#[trigger] after[a]).id
                    != (#[trigger] after[b]).id by {
                    if b < i {
                        assert(before[a].id != before[b].id);
                    } else {
                        assert(all[a].id != id);
                    }
                }
                assert forall|a: int, b: int|
                    0 <= a < b < after.len() && !(#[trigger] after[a]).deleted && !(
                    #[trigger] after[b]).deleted implies after[a].login != after[b].login by {
                    if b < i {
                        assert(!before[a].deleted && !before[b].deleted);
                        assert(before[a].login != before[b].login);
                    } else {
                        assert(!all[a].deleted);
                    }
                }
                assert forall|k: int| 0 <= k < after.len() implies (#[trigger] after[k]).id
                    < u64::MAX by {
                    if k < i {
                        assert(before[k].id < u64::MAX);
                    }
                }
                let bound = if id >= next_id { (id + 1) as u64 } else { next_id };
                assert forall|k: int| 0 <= k < after.len() implies (#[trigger] after[k]).id
                    < bound by {
                    if k < i {
                        assert(before[k].id < next_id);
                    }
                }
                if id >= next_id {
                    assert(after[i as int].id + 1 == bound);
                } else if next_id != 1 {
                    let w = choose|w: int| 0 <= w < before.len() && (#[trigger] before[w]).id + 1 == next_id;
                    assert(after[w].id + 1 == bound);
                }
            }
            if id >= next_id {
                next_id = id + 1;
            }
            i += 1;
        }
        proof {
            assert(all.take(n as int) =~= all);
        }
        Ok(StaffRepo { rows, next_id })
    }

    /// Whether some user, active or not, deleted or not, has the login.
    pub fn exists_by_login(&self, login: &str) -> (found: bool)
        ensures
            found == self@.has_login(login@),
    {
        let wanted = login.to_owned();
        let mut i: usize = 0;
        while i < self.rows.len()
            invariant
                i <= self.rows.len(),
                wanted@ == login@,
                forall|k: int| 0 <= k < i ==> (#[trigger] self@.rows[k]).login != login@,
            decreases self.rows.len() - i,
        {
            if self.rows[i].login == wanted {
                proof {
                    assert(self@.rows[i as int].login == login@);
                }
                return true;
            }
            i += 1;
        }
        false
    }

    /// The user with the login that is active and not deleted, or
    /// `Failure::NotFound`.
    pub fn find_active_by_login(&self, login: &str) -> (r: Result<StaffUser, Failure>)
        ensures
            self@.wf(),
            match r {
                Ok(user) => self@.has_active(login@) && user@ == self@.active_user(login@),
                Err(e) => e == Failure::NotFound && !self@.has_active(login@),
            },
    {
        proof {
            use_type_invariant(self);
        }
        let wanted = login.to_owned();
        let ghost t = self@;
        let mut i: usize = 0;
        while i < self.rows.len()
            invariant
                i <= self.rows.len(),
                t == self@,
                t.wf(),
                wanted@ == login@,
                forall|k: int|
                    0 <= k < i ==> !t.is_active_user(login@, #[trigger] t.rows[k]),
            decreases self.rows.len() - i,
        {
            let row = &self.rows[i];
            if row.active && !row.deleted && row.login == wanted {
                proof {
                    let found = t.rows[i as int];
                    assert(t.is_active_user(login@, found));
                    let chosen = t.active_user(login@);
                    assert(t.is_active_user(login@, chosen));
                    let k = choose|k: int| 0 <= k < t.rows.len() && t.rows[k] == chosen;
                    if k < i {
                        assert(!t.rows[k].deleted && !t.rows[i as int].deleted);
                        assert(t.rows[k].login != t.rows[i as int].login);
                    } else if i < k {
                        assert(!t.rows[i as int].deleted && !t.rows[k].deleted);
                        assert(t.rows[i as int].login != t.rows[k].login);
                    }
                }
                return Ok(row.clone());
            }
            i += 1;
        }
        proof {
            if t.has_active(login@) {
                let user = choose|user: StaffUserView| t.is_active_user(login@, user);
                let k = choose|k: int| 0 <= k < t.rows.len() && t.rows[k] == user;
                assert(t.is_active_user(login@, t.rows[k]));
            }
        }
        Err(Failure::NotFound)
    }

    /// Adds a user under the next identifier: active, not deleted, created
    /// at `now`, with the encoded hash in place of a password. Returns the
    /// row as the table now holds it.
    ///
    /// A login that some row already carries gives `Failure::Conflict`,
    /// and a table with no identifier left gives `Failure::Store`; both
    /// leave the table as it was.
    pub fn insert(
        &mut self,
        project_id: i32,
        email: &str,
        login: &str,
        encoded_hash: String,
        salt: &[u8; SALT_LEN],
        now: u64,
    ) -> (r: Result<StaffUser, Failure>)
        ensures
            final(self)@.wf(),
            match r {
                Ok(user) => {
                    &&& old(self)@.accepts(login@)
                    &&& user@ == fresh_user(
                        old(self)@.next_id,
                        project_id,
                        email@,
                        login@,
                        encoded_hash@,
                        salt@,
                        now,
                    )
                    &&& final(self)@ == old(self)@.inserted(user@)
                },
                Err(e) => {
                    &&& !old(self)@.accepts(login@)
                    &&& e == (if old(self)@.has_login(login@) {
                        Failure::Conflict
                    } else {
                        Failure::Store
                    })
                    &&& final(self)@ == old(self)@
                },
            },
    {
        proof {
            use_type_invariant(&*self);
        }
        if self.exists_by_login(login) {
            return Err(Failure::Conflict);
        }
        if self.next_id == u64::MAX {
            return Err(Failure::Store);
        }
        let id = self.next_id;
        let user = StaffUser {
            id,
            project_id,
            email: email.to_owned(),
            created_at: now,
            updated_at: now,
            login: login.to_owned(),
            active: true,
            deleted: false,
            password: encoded_hash,
            salt: vstd::slice::slice_to_vec(salt.as_slice()),
        };
        let copy = user.clone();
        let mut rows = Vec::new();
        std::mem::swap(&mut rows, &mut self.rows);
        rows.push(user);
        proof {
            let before = old(self)@.rows;
            let after = views(rows@);
            assert(after =~= before.push(copy@));
            assert forall|a: int, b: int| 0 <= a < b < after.len() implies (#[trigger] after[a]).id
                != (#[trigger] after[b]).id by {
                if b < before.len() {
                    assert(before[a].id != before[b].id);
                } else {
                    assert(before[a].id < id);
                }
            }
            assert forall|a: int, b: int|
                0 <= a < b < after.len() && !(#[trigger] after[a]).deleted && !(
                #[trigger] after[b]).deleted implies after[a].login != after[b].login by {
                if b < before.len() {
                    assert(!before[a].deleted && !before[b].deleted);
                    assert(before[a].login != before[b].login);
                } else {
                    assert(before[a].login != login@);
                }
            }
            assert forall|k: int| 0 <= k < after.len() implies (#[trigger] after[k]).id < id + 1 by {
                if k < before.len() {
                    assert(before[k].id < id);
                }
            }
        }
        self.next_id = id + 1;
        self.rows = rows;
        Ok(copy)
    }
}

} // verus!
