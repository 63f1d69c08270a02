//! Sessions and the table that holds them.
//!
//! A session is opened for a staff user with a lifetime in seconds. It is
//! valid while it is neither expired nor locked, and nothing makes a
//! session valid again. Rows are never removed.

use vstd::prelude::*;
use crate::errors::{Failure, ValidationError};

verus! {

/// A session as a mathematical record.
#[verifier::ext_equal]
pub struct SessionView {
    pub id: u64,
    pub staff_id: u64,
    pub token: Seq<char>,
    pub created_at: u64,
    pub updated_at: u64,
    pub expire_at: u64,
    pub locked: bool,
}

impl SessionView {
    /// A session is valid at a time when it has not expired by then and is
    /// not locked.
    pub open spec fn is_valid_at(self, now: u64) -> bool {
        self.expire_at > now && !self.locked
    }

    /// The same session, expiring at `now`.
    pub open spec fn expired(self, now: u64) -> SessionView {
        SessionView { expire_at: now, updated_at: now, ..self }
    }

    /// The same session, locked at `now`.
    pub open spec fn locked_at(self, now: u64) -> SessionView {
        SessionView { locked: true, updated_at: now, ..self }
    }
}

/// The session that opens at `now` and lasts `lifetime` seconds.
pub open spec fn fresh_session(
    id: u64,
    staff_id: u64,
    token: Seq<char>,
    now: u64,
    lifetime: u64,
) -> SessionView
    recommends
        now + lifetime <= u64::MAX,
{
    SessionView {
        id,
        staff_id,
        token,
        created_at: now,
        updated_at: now,
        expire_at: (now + lifetime) as u64,
        locked: false,
    }
}

/// One row of the session table.
#[derive(Debug)]
pub struct Session {
    id: u64,
    staff_id: u64,
    token: String,
    created_at: u64,
    updated_at: u64,
    expire_at: u64,
    locked: bool,
}

impl View for Session {
    type V = SessionView;

    closed spec fn view(&self) -> SessionView {
        SessionView {
            id: self.id,
            staff_id: self.staff_id,
            token: self.token@,
            created_at: self.created_at,
            updated_at: self.updated_at,
            expire_at: self.expire_at,
            locked: self.locked,
        }
    }
}

impl Clone for Session {
    fn clone(&self) -> (copy: Session)
        ensures
            copy@ == self@,
    {
        Session {
            id: self.id,
            staff_id: self.staff_id,
            token: self.token.clone(),
            created_at: self.created_at,
            updated_at: self.updated_at,
            expire_at: self.expire_at,
            locked: self.locked,
        }
    }
}

impl Session {
    /// A session with the given fields, as read from a table.
    pub fn new(
        id: u64,
        staff_id: u64,
        token: String,
        created_at: u64,
        updated_at: u64,
        expire_at: u64,
        locked: bool,
    ) -> (s: Session)
        ensures
            s@ == (SessionView {
                id,
                staff_id,
                token: token@,
                created_at,
                updated_at,
                expire_at,
                locked,
            }),
    {
        Session { id, staff_id, token, created_at, updated_at, expire_at, locked }
    }

    /// The bearer token of the session.
    pub fn get_token(&self) -> (token: &str)
        ensures
            token@ == self@.token,
    {
        self.token.as_str()
    }

    pub fn id(&self) -> (id: u64)
        ensures
            id == self@.id,
    {
        self.id
    }

    pub fn staff_id(&self) -> (staff_id: u64)
        ensures
            staff_id == self@.staff_id,
    {
        self.staff_id
    }

    pub fn created_at(&self) -> (at: u64)
        ensures
            at == self@.created_at,
    {
        self.created_at
    }

    pub fn updated_at(&self) -> (at: u64)
        ensures
            at == self@.updated_at,
    {
        self.updated_at
    }

    pub fn expire_at(&self) -> (at: u64)
        ensures
            at == self@.expire_at,
    {
        self.expire_at
    }

    pub fn locked(&self) -> (locked: bool)
        ensures
            locked == self@.locked,
    {
        self.locked
    }

    /// Whether the session is valid at `now`.
    pub fn is_valid_at(&self, now: u64) -> (valid: bool)
        ensures
            valid == self@.is_valid_at(now),
    {
        self.expire_at > now && !self.locked
    }
}

/// The session table as a mathematical value: its rows in the order in
/// which they were added, and the identifier that the next row gets.
#[verifier::ext_equal]
pub struct SessionTable {
    pub rows: Seq<SessionView>,
    pub next_id: u64,
}

impl SessionTable {
    /// Identifiers start at 1, grow with each row and stay below
    /// `next_id`; no token occurs twice.
    pub open spec fn wf(self) -> bool {
        &&& self.next_id >= 1
        &&& forall|i: int| 0 <= i < self.rows.len() ==> 1 <= (#[trigger] self.rows[i]).id < self.next_id
        &&& forall|i: int, j: int|
            0 <= i < j < self.rows.len() ==> (#[trigger] self.rows[i]).id < (#[trigger] self.rows[j]).id
        &&& forall|i: int, j: int|
            0 <= i < j < self.rows.len() ==> (#[trigger] self.rows[i]).token != (#[trigger] self.rows[j]).token
    }

    /// Whether some row carries the token.
    pub open spec fn has_token(self, token: Seq<char>) -> bool {
        exists|i: int| 0 <= i < self.rows.len() && (#[trigger] self.rows[i]).token == token
    }

    /// Whether some row carries the identifier.
    pub open spec fn has_id(self, id: u64) -> bool {
        exists|i: int| 0 <= i < self.rows.len() && (#[trigger] self.rows[i]).id == id
    }

    /// Whether the token names a session that is valid at `now`.
    pub open spec fn is_valid(self, token: Seq<char>, now: u64) -> bool {
        exists|i: int|
            0 <= i < self.rows.len() && (#[trigger] self.rows[i]).token == token
                && self.rows[i].is_valid_at(now)
    }

    /// Whether a session with this token and lifetime can be opened at
    /// `now`.
    pub open spec fn accepts(self, token: Seq<char>, now: u64, lifetime: u64) -> bool {
        &&& lifetime > 0
        &&& now + lifetime <= u64::MAX
        &&& self.next_id < u64::MAX
        &&& !self.has_token(token)
    }

    /// The table after a session was opened.
    pub open spec fn opened(self, staff_id: u64, token: Seq<char>, now: u64, lifetime: u64) -> SessionTable {
        SessionTable {
            rows: self.rows.push(fresh_session(self.next_id, staff_id, token, now, lifetime)),
            next_id: (self.next_id + 1) as u64,
        }
    }

    /// The table after the session `id` was made to expire at `now`.
    pub open spec fn expired(self, id: u64, now: u64) -> SessionTable {
        SessionTable {
            rows: self.rows.map_values(
                |s: SessionView| if s.id == id { s.expired(now) } else { s },
            ),
            next_id: self.next_id,
        }
    }

    /// The table after the session `id` was locked at `now`.
    pub open spec fn locked(self, id: u64, now: u64) -> SessionTable {
        SessionTable {
            rows: self.rows.map_values(
                |s: SessionView| if s.id == id { s.locked_at(now) } else { s },
            ),
            next_id: self.next_id,
        }
    }
}

/// The error of a session that would last no time.
pub open spec fn zero_lifetime() -> Failure {
    Failure::Validation(
        ValidationError { login: false, email: false, password: false, lifetime: true },
    )
}

/// The session table.
pub struct SessionRepo {
    rows: Vec<Session>,
    next_id: u64,
}

impl View for SessionRepo {
    type V = SessionTable;

    closed spec fn view(&self) -> SessionTable {
        SessionTable { rows: self.rows@.map_values(|s: Session| s@), next_id: self.next_id }
    }
}

impl SessionRepo {
    /// Every table is well-formed, at all times.
    #[verifier::type_invariant]
    pub open spec fn inv(self) -> bool {
        self@.wf()
    }

    /// An empty table.
    pub fn new() -> (repo: SessionRepo)
        ensures
            repo@.rows.len() == 0,
            repo@.next_id == 1,
            repo@.wf(),
    {
        SessionRepo { rows: Vec::new(), next_id: 1 }
    }

    /// The place of the row with the token, if there is one.
    fn position_of_token(&self, token: &String) -> (at: Option<usize>)
        ensures
            match at {
                Some(i) => i < self@.rows.len() && self@.rows[i as int].token == token@,
                None => !self@.has_token(token@),
            },
    {
        let mut i: usize = 0;
        while i < self.rows.len()
            invariant
                i <= self.rows.len(),
                forall|k: int| 0 <= k < i ==> (#[trigger] self@.rows[k]).token != token@,
            decreases self.rows.len() - i,
        {
            if self.rows[i].token == *token {
                return Some(i);
            }
            i += 1;
        }
        None
    }

    /// The place of the row with the identifier, if there is one.
    fn position_of_id(&self, id: u64) -> (at: Option<usize>)
        ensures
            match at {
                Some(i) => i < self@.rows.len() && self@.rows[i as int].id == id,
                None => !self@.has_id(id),
            },
    {
        let mut i: usize = 0;
        while i < self.rows.len()
            invariant
                i <= self.rows.len(),
                forall|k: int| 0 <= k < i ==> (#[trigger] self@.rows[k]).id != id,
            decreases self.rows.len() - i,
        {
            if self.rows[i].id == id {
                return Some(i);
            }
            i += 1;
        }
        None
    }

    /// The session with the token, or `Failure::NotFound`.
    pub fn get_by_token(&self, token: &str) -> (r: Result<Session, Failure>)
        ensures
            self@.wf(),
            match r {
                Ok(s) => self@.rows.contains(s@) && s@.token == token@,
                Err(e) => e == Failure::NotFound && !self@.has_token(token@),
            },
    {
        proof {
            use_type_invariant(self);
        }
        let wanted = token.to_owned();
        match self.position_of_token(&wanted) {
            Some(i) => Ok(self.rows[i].clone()),
            None => Err(Failure::NotFound),
        }
    }

    /// The session with the identifier, or `Failure::NotFound`.
    pub fn get_by_id(&self, id: u64) -> (r: Result<Session, Failure>)
        ensures
            self@.wf(),
            match r {
                Ok(s) => self@.rows.contains(s@) && s@.id == id,
                Err(e) => e == Failure::NotFound && !self@.has_id(id),
            },
    {
        proof {
            use_type_invariant(self);
        }
        match self.position_of_id(id) {
            Some(i) => Ok(self.rows[i].clone()),
            None => Err(Failure::NotFound),
        }
    }

    /// Whether the token names a session that has not expired by `now` and
    /// is not locked.
    pub fn is_valid(&self, token: &str, now: u64) -> (valid: bool)
        ensures
            valid == self@.is_valid(token@, now),
    {
        proof {
            use_type_invariant(self);
        }
        let wanted = token.to_owned();
        match self.position_of_token(&wanted) {
            Some(i) => {
                let valid = self.rows[i].is_valid_at(now);
                proof {
                    let t = self@;
                    if t.is_valid(token@, now) {
                        let k = choose|k: int|
                            0 <= k < t.rows.len() && (#[trigger] t.rows[k]).token == token@
                                && t.rows[k].is_valid_at(now);
                        assert(k == i as int);
                    }
                }
                valid
            },
            None => false,
        }
    }
    /// Opens a session for a staff user: it starts at `now`, lasts
    /// `lifetime` seconds, is not locked, and gets the next identifier.
    ///
    /// A lifetime of zero is refused as invalid. The table refuses the row
    /// with `Failure::Store` where the token is already in use, where the
    /// expiry time does not fit in 64 bits, or where no identifier is
    /// left. A refusal leaves the table as it was.
    pub fn add(&mut self, staff_id: u64, lifetime: u64, now: u64, token: &str) -> (r: Result<
        Session,
        Failure,
    >)
        ensures
            final(self)@.wf(),
            match r {
                Ok(s) => {
                    &&& old(self)@.accepts(token@, now, lifetime)
                    &&& s@ == fresh_session(old(self)@.next_id, staff_id, token@, now, lifetime)
                    &&& final(self)@ == old(self)@.opened(staff_id, token@, now, lifetime)
                },
                Err(e) => {
                    &&& !old(self)@.accepts(token@, now, lifetime)
                    &&& e == (if lifetime == 0 {
                        zero_lifetime()
                    } else {
                        Failure::Store
                    })
                    &&& final(self)@ == old(self)@
                },
            },
            r matches Ok(s) ==> s@.expire_at - s@.created_at == lifetime && !s@.locked,
            r matches Ok(s) ==> final(self)@.is_valid(token@, now),
    {
        proof {
            use_type_invariant(&*self);
        }
        if lifetime == 0 {
            return Err(
                Failure::Validation(
                    ValidationError { login: false, email: false, password: false, lifetime: true },
                ),
            );
        }
        if lifetime > u64::MAX - now || self.next_id == u64::MAX {
            return Err(Failure::Store);
        }
        let owned = token.to_owned();
        if self.position_of_token(&owned).is_some() {
            return Err(Failure::Store);
        }
        let id = self.next_id;
        let session = Session {
            id,
            staff_id,
            token: owned,
            created_at: now,
            updated_at: now,
            expire_at: now + lifetime,
            locked: false,
        };
        let copy = session.clone();
        let mut rows = Vec::new();
        std::mem::swap(&mut rows, &mut self.rows);
        rows.push(session);
        proof {
            let before = old(self)@.rows;
            let after = rows@.map_values(|s: Session| s@);
            assert(after =~= before.push(copy@));
            assert(after[after.len() - 1].token == token@);
            assert forall|i: int, j: int| 0 <= i < j < after.len() implies (#[trigger] after[i]).token
                != (#[trigger] after[j]).token by {
                if j == after.len() - 1 {
                    assert(before[i].token != token@);
                }
            }
        }
        self.next_id = id + 1;
        self.rows = rows;
        Ok(copy)
    }
    /// Makes the session with the identifier of `session` expire at `now`.
    /// Returns whether the table holds such a session. No other row
    /// changes.
    pub fn expire(&mut self, session: &Session, now: u64) -> (found: bool)
        ensures
            final(self)@.wf(),
            found == old(self)@.has_id(session@.id),
            final(self)@ == old(self)@.expired(session@.id, now),
    {
        proof {
            use_type_invariant(&*self);
        }
        let id = session.id;
        match self.position_of_id(id) {
            None => {
                proof {
                    let t = old(self)@;
                    assert forall|k: int| 0 <= k < t.rows.len() implies (#[trigger] t.rows[k]).id != id by {
                        if t.rows[k].id == id {
                            assert(t.has_id(id));
                        }
                    }
                    assert(t.expired(id, now).rows =~= t.rows);
                }
                false
            },
            Some(i) => {
                let mut rows = Vec::new();
                std::mem::swap(&mut rows, &mut self.rows);
                let row = &rows[i];
                let updated = Session {
                    id: row.id,
                    staff_id: row.staff_id,
                    token: row.token.clone(),
                    created_at: row.created_at,
                    updated_at: now,
                    expire_at: now,
                    locked: row.locked,
                };
                rows.set(i, updated);
                proof {
                    let t = old(self)@;
                    let after = rows@.map_values(|s: Session| s@);
                    assert forall|k: int| 0 <= k < t.rows.len() implies #[trigger] after[k]
                        == t.expired(id, now).rows[k] by {
                        if k != i {
                            assert(t.rows[k].id != t.rows[i as int].id);
                        }
                    }
                    assert(after =~= t.expired(id, now).rows);
                }
                self.rows = rows;
                true
            },
        }
    }

    /// Locks the session with the identifier of `session`. Returns whether
    /// the table holds such a session. No other row changes.
    pub fn lock(&mut self, session: &Session, now: u64) -> (found: bool)
        ensures
            final(self)@.wf(),
            found == old(self)@.has_id(session@.id),
            final(self)@ == old(self)@.locked(session@.id, now),
    {
        proof {
            use_type_invariant(&*self);
        }
        let id = session.id;
        match self.position_of_id(id) {
            None => {
                proof {
                    let t = old(self)@;
                    assert forall|k: int| 0 <= k < t.rows.len() implies (#[trigger] t.rows[k]).id != id by {
                        if t.rows[k].id == id {
                            assert(t.has_id(id));
                        }
                    }
                    assert(t.locked(id, now).rows =~= t.rows);
                }
                false
            },
            Some(i) => {
                let mut rows = Vec::new();
                std::mem::swap(&mut rows, &mut self.rows);
                let row = &rows[i];
                let updated = Session {
                    id: row.id,
                    staff_id: row.staff_id,
                    token: row.token.clone(),
                    created_at: row.created_at,
                    updated_at: now,
                    expire_at: row.expire_at,
                    locked: true,
                };
                rows.set(i, updated);
                proof {
                    let t = old(self)@;
                    let after = rows@.map_values(|s: Session| s@);
                    assert forall|k: int| 0 <= k < t.rows.len() implies #[trigger] after[k]
                        == t.locked(id, now).rows[k] by {
                        if k != i {
                            assert(t.rows[k].id != t.rows[i as int].id);
                        }
                    }
                    assert(after =~= t.locked(id, now).rows);
                }
                self.rows = rows;
                true
            },
        }
    }
}

/// A session that was just opened lasts exactly its lifetime and is not
/// locked.
pub proof fn law_fresh_session_lifetime(
    id: u64,
    staff_id: u64,
    token: Seq<char>,
    now: u64,
    lifetime: u64,
)
    requires
        now + lifetime <= u64::MAX,
    ensures
        fresh_session(id, staff_id, token, now, lifetime).expire_at - fresh_session(
            id,
            staff_id,
            token,
            now,
            lifetime,
        ).created_at == lifetime,
        !fresh_session(id, staff_id, token, now, lifetime).locked,
{
}

/// After a session was opened, its token is valid from the moment of
/// opening until the lifetime has passed, and at no time from then on.
/// The validity of every other token is as before.
pub proof fn law_opened_session_valid_until_expiry(
    table: SessionTable,
    staff_id: u64,
    token: Seq<char>,
    now: u64,
    lifetime: u64,
)
    requires
        table.wf(),
        table.accepts(token, now, lifetime),
    ensures
        table.opened(staff_id, token, now, lifetime).wf(),
        table.opened(staff_id, token, now, lifetime).is_valid(token, now),
        forall|at: u64|
            table.opened(staff_id, token, now, lifetime).is_valid(token, at) <==> at < now
                + lifetime,
        forall|other: Seq<char>, at: u64|
            other != token ==> (table.opened(staff_id, token, now, lifetime).is_valid(other, at)
                <==> table.is_valid(other, at)),
{
    let after = table.opened(staff_id, token, now, lifetime);
    let last = after.rows.len() - 1;
    assert(after.rows[last] == fresh_session(table.next_id, staff_id, token, now, lifetime));
    assert forall|i: int, j: int| 0 <= i < j < after.rows.len() implies (#[trigger] after.rows[i]).token
        != (#[trigger] after.rows[j]).token by {
        if j == last {
            assert(table.rows[i].token != token);
        } else {
            assert(table.rows[i].token != table.rows[j].token);
        }
    }
    assert forall|at: u64| after.is_valid(token, at) <==> at < now + lifetime by {
        if at < now + lifetime {
            assert(after.rows[last].token == token && after.rows[last].is_valid_at(at));
        }
        if after.is_valid(token, at) {
            let k = choose|k: int|
                0 <= k < after.rows.len() && (#[trigger] after.rows[k]).token == token
                    && after.rows[k].is_valid_at(at);
            if k != last {
                assert(table.rows[k].token == token);
            }
        }
    }
    assert forall|other: Seq<char>, at: u64| other != token implies (after.is_valid(other, at)
        <==> table.is_valid(other, at)) by {
        if after.is_valid(other, at) {
            let k = choose|k: int|
                0 <= k < after.rows.len() && (#[trigger] after.rows[k]).token == other
                    && after.rows[k].is_valid_at(at);
            assert(table.rows[k].token == other && table.rows[k].is_valid_at(at));
        }
        if table.is_valid(other, at) {
            let k = choose|k: int|
                0 <= k < table.rows.len() && (#[trigger] table.rows[k]).token == other
                    && table.rows[k].is_valid_at(at);
            assert(after.rows[k].token == other && after.rows[k].is_valid_at(at));
        }
    }
}

/// Once a session is locked its token is valid at no time, whatever
/// lifetime was left. Locking keeps the table well-formed and makes no
/// token valid that was not.
pub proof fn law_locked_session_never_valid(table: SessionTable, session: SessionView, now: u64)
    requires
        table.wf(),
        table.rows.contains(session),
    ensures
        table.locked(session.id, now).wf(),
        forall|at: u64| !table.locked(session.id, now).is_valid(session.token, at),
        forall|token: Seq<char>, at: u64|
            table.locked(session.id, now).is_valid(token, at) ==> table.is_valid(token, at),
{
    let after = table.locked(session.id, now);
    let p = choose|p: int| 0 <= p < table.rows.len() && table.rows[p] == session;
    assert forall|k: int| 0 <= k < after.rows.len() implies (#[trigger] after.rows[k]).token
        == table.rows[k].token && after.rows[k].id == table.rows[k].id by {}
    assert forall|i: int, j: int| 0 <= i < j < after.rows.len() implies (#[trigger] after.rows[i]).token
        != (#[trigger] after.rows[j]).token by {
        assert(table.rows[i].token != table.rows[j].token);
    }
    assert forall|i: int, j: int| 0 <= i < j < after.rows.len() implies (#[trigger] after.rows[i]).id
        < (#[trigger] after.rows[j]).id by {
        assert(table.rows[i].id < table.rows[j].id);
    }
    assert forall|i: int| 0 <= i < after.rows.len() implies 1 <= (#[trigger] after.rows[i]).id
        < after.next_id by {
        assert(1 <= table.rows[i].id < table.next_id);
    }
    assert forall|at: u64| !after.is_valid(session.token, at) by {
        if after.is_valid(session.token, at) {
            let k = choose|k: int|
                0 <= k < after.rows.len() && (#[trigger] after.rows[k]).token == session.token
                    && after.rows[k].is_valid_at(at);
            if k < p {
                assert(table.rows[k].token != table.rows[p].token);
            } else if p < k {
                assert(table.rows[p].token != table.rows[k].token);
            }
        }
    }
    assert forall|token: Seq<char>, at: u64| after.is_valid(token, at) implies table.is_valid(
        token,
        at,
    ) by {
        let k = choose|k: int|
            0 <= k < after.rows.len() && (#[trigger] after.rows[k]).token == token
                && after.rows[k].is_valid_at(at);
        assert(table.rows[k].token == token && table.rows[k].is_valid_at(at));
    }
}

/// Once a session was made to expire at `now`, its token is valid at no
/// time from `now` on. Expiring keeps the table well-formed and makes no
/// token valid from `now` on that was not.
pub proof fn law_expired_session_invalid_from_then_on(
    table: SessionTable,
    session: SessionView,
    now: u64,
)
    requires
        table.wf(),
        table.rows.contains(session),
    ensures
        table.expired(session.id, now).wf(),
        forall|at: u64| at >= now ==> !table.expired(session.id, now).is_valid(session.token, at),
        forall|token: Seq<char>, at: u64|
            at >= now && table.expired(session.id, now).is_valid(token, at) ==> table.is_valid(
                token,
                at,
            ),
{
    let after = table.expired(session.id, now);
    let p = choose|p: int| 0 <= p < table.rows.len() && table.rows[p] == session;
    assert forall|k: int| 0 <= k < after.rows.len() implies (#[trigger] after.rows[k]).token
        == table.rows[k].token && after.rows[k].id == table.rows[k].id by {}
    assert forall|i: int, j: int| 0 <= i < j < after.rows.len() implies (#[trigger] after.rows[i]).token
        != (#[trigger] after.rows[j]).token by {
        assert(table.rows[i].token != table.rows[j].token);
    }
    assert forall|i: int, j: int| 0 <= i < j < after.rows.len() implies (#[trigger] after.rows[i]).id
        < (#[trigger] after.rows[j]).id by {
        assert(table.rows[i].id < table.rows[j].id);
    }
    assert forall|i: int| 0 <= i < after.rows.len() implies 1 <= (#[trigger] after.rows[i]).id
        < after.next_id by {
        assert(1 <= table.rows[i].id < table.next_id);
    }
    assert forall|at: u64| at >= now implies !after.is_valid(session.token, at) by {
        if after.is_valid(session.token, at) {
            let k = choose|k: int|
                0 <= k < after.rows.len() && (#[trigger] after.rows[k]).token == session.token
                    && after.rows[k].is_valid_at(at);
            if k < p {
                assert(table.rows[k].token != table.rows[p].token);
            } else if p < k {
                assert(table.rows[p].token != table.rows[k].token);
            }
        }
    }
    assert forall|token: Seq<char>, at: u64|
        at >= now && after.is_valid(token, at) implies table.is_valid(token, at) by {
        let k = choose|k: int|
            0 <= k < after.rows.len() && (#[trigger] after.rows[k]).token == token
                && after.rows[k].is_valid_at(at);
        assert(table.rows[k].token == token && table.rows[k].is_valid_at(at));
    }
}

} // verus!
