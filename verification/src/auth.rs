//! Registration and login over the two tables.
//!
//! `register` adds a staff user after checking that the login is free and
//! that the input is well-shaped; `authenticate` opens a session for a
//! user whose password matches. A refused login says nothing of its
//! reason and leaves both tables as they were.

use vstd::prelude::*;
use vstd::string::StrSliceExecFns;
use crate::errors::{AuthError, Failure, ValidationError};
use crate::password::{
    encoded_hash, generate_random_salt, hash_password, lemma_utf8_length, password_verifies,
    verify_password, SALT_LEN,
};
use crate::staff::{fresh_user, StaffRepo, StaffTable, StaffUser, StaffUserView};
use crate::staff_session::{fresh_session, zero_lifetime, Session, SessionRepo, SessionTable};

verus! {

/// Least number of characters in a password.
pub const PASSWD_MIN_LEN: usize = 12;

/// Greatest number of characters in a password.
pub const PASSWD_MAX_LEN: usize = 64;

/// Whether `validator::validate_email` takes the text for an e-mail
/// address.
pub uninterp spec fn email_shaped(text: Seq<char>) -> bool;

/// Calls `validator::validate_email`.
///
/// Trusted: its answer is a function of the text.
#[verifier::external_body]
fn is_email(text: &str) -> (shaped: bool)
    ensures
        shaped == email_shaped(text@),
{
    validator::validate_email(text)
}

/// A password has between `PASSWD_MIN_LEN` and `PASSWD_MAX_LEN`
/// characters, both included.
pub open spec fn password_length_ok(password: Seq<char>) -> bool {
    PASSWD_MIN_LEN <= password.len() <= PASSWD_MAX_LEN
}

/// Whether a registration is well-shaped: login and e-mail address look
/// like e-mail addresses and the password has an allowed length.
pub open spec fn registration_valid(
    login: Seq<char>,
    email: Seq<char>,
    password: Seq<char>,
) -> bool {
    email_shaped(login) && email_shaped(email) && password_length_ok(password)
}

/// The fields of a registration that are not well-shaped.
pub open spec fn registration_errors(
    login: Seq<char>,
    email: Seq<char>,
    password: Seq<char>,
) -> ValidationError {
    ValidationError {
        login: !email_shaped(login),
        email: !email_shaped(email),
        password: !password_length_ok(password),
        lifetime: false,
    }
}

/// Why a registration is turned down on its input alone: the login is
/// taken, or else the input is not well-shaped. `None` where it is
/// neither.
pub open spec fn input_refusal(
    users: StaffTable,
    login: Seq<char>,
    email: Seq<char>,
    password: Seq<char>,
) -> Option<Failure> {
    if users.has_login(login) {
        Some(Failure::Conflict)
    } else if !registration_valid(login, email, password) {
        Some(Failure::Validation(registration_errors(login, email, password)))
    } else {
        None
    }
}

/// Why a registration fails once a salt is at hand: on its input, or else
/// because the table has no identifier left. `None` where the user is
/// added.
pub open spec fn registration_refusal(
    users: StaffTable,
    login: Seq<char>,
    email: Seq<char>,
    password: Seq<char>,
) -> Option<Failure> {
    if input_refusal(users, login, email, password) is Some {
        input_refusal(users, login, email, password)
    } else if users.next_id == u64::MAX {
        Some(Failure::Store)
    } else {
        None
    }
}

/// Whether a login attempt is to be let in: a user with the login may log
/// in and the password matches that user's hash.
pub open spec fn credentials_accepted(
    users: StaffTable,
    login: Seq<char>,
    password: Seq<char>,
) -> bool {
    users.has_active(login) && password_verifies(users.active_user(login).password, password)
}

/// The refusal of a login attempt.
pub open spec fn refused() -> Failure {
    Failure::Auth(AuthError)
}

/// Judges the shape of a registration from the two format checks and the
/// number of characters in the password. The error names every field
/// that failed.
pub fn validation_of(login_shaped: bool, email_shaped: bool, password_chars: usize) -> (r: Result<
    (),
    ValidationError,
>)
    ensures
        r is Ok <==> login_shaped && email_shaped && PASSWD_MIN_LEN <= password_chars
            <= PASSWD_MAX_LEN,
        r matches Err(e) ==> e == (ValidationError {
            login: !login_shaped,
            email: !email_shaped,
            password: !(PASSWD_MIN_LEN <= password_chars <= PASSWD_MAX_LEN),
            lifetime: false,
        }),
{
    let password_ok = PASSWD_MIN_LEN <= password_chars && password_chars <= PASSWD_MAX_LEN;
    if login_shaped && email_shaped && password_ok {
        Ok(())
    } else {
        Err(
            ValidationError {
                login: !login_shaped,
                email: !email_shaped,
                password: !password_ok,
                lifetime: false,
            },
        )
    }
}

/// Checks the shape of a registration: login and e-mail address by their
/// format, the password by its number of characters.
pub fn validate_registration(login: &str, email: &str, password: &str) -> (r: Result<
    (),
    ValidationError,
>)
    ensures
        r is Ok <==> registration_valid(login@, email@, password@),
        r matches Err(e) ==> e == registration_errors(login@, email@, password@),
{
    validation_of(is_email(login), is_email(email), password.unicode_len())
}

/// Decides a login attempt from the user that was looked up and the
/// answer of the password check: the user's identifier where there is a
/// user who may log in and the password matched, and otherwise a refusal
/// that is the same whatever was missing.
pub fn login_decision(user: Option<&StaffUser>, password_matches: bool) -> (r: Result<
    u64,
    AuthError,
>)
    ensures
        r is Ok <==> (user matches Some(u) && u@.may_authenticate() && password_matches),
        r matches Ok(id) ==> user matches Some(u) && id == u@.id,
{
    match user {
        Some(u) => {
            if u.may_authenticate() && password_matches {
                Ok(u.id())
            } else {
                Err(AuthError)
            }
        },
        None => Err(AuthError),
    }
}

/// The two tables as mathematical values.
#[verifier::ext_equal]
pub struct AuthState {
    pub users: StaffTable,
    pub sessions: SessionTable,
}

/// The table of staff users and the table of sessions, with the
/// operations that work on both.
pub struct AuthService {
    pub users: StaffRepo,
    pub sessions: SessionRepo,
}

impl View for AuthService {
    type V = AuthState;

    open spec fn view(&self) -> AuthState {
        AuthState { users: self.users@, sessions: self.sessions@ }
    }
}

impl AuthService {
    /// A service over two empty tables.
    pub fn new() -> (service: AuthService)
        ensures
            service@.users.rows.len() == 0,
            service@.users.next_id == 1,
            service@.sessions.rows.len() == 0,
            service@.sessions.next_id == 1,
    {
        AuthService { users: StaffRepo::new(), sessions: SessionRepo::new() }
    }

    /// A service over the given tables.
    pub fn with_tables(users: StaffRepo, sessions: SessionRepo) -> (service: AuthService)
        ensures
            service@.users == users@,
            service@.sessions == sessions@,
    {
        AuthService { users, sessions }
    }

    /// Says whether a registration is turned down on its input alone:
    /// with `Failure::Conflict` where the login is taken, whatever the
    /// rest of the input, and else with the fields that are not
    /// well-shaped.
    pub fn check_registration(&self, login: &str, email: &str, password: &str) -> (r: Result<
        (),
        Failure,
    >)
        ensures
            r == (match input_refusal(self@.users, login@, email@, password@) {
                Some(e) => Err::<(), Failure>(e),
                None => Ok::<(), Failure>(()),
            }),
    {
        if self.users.exists_by_login(login) {
            return Err(Failure::Conflict);
        }
        match validate_registration(login, email, password) {
            Ok(_) => Ok(()),
            Err(e) => Err(Failure::Validation(e)),
        }
    }

    /// Hashes the password with the salt and stores the user.
    fn store_registration(
        &mut self,
        login: &str,
        email: &str,
        password: &str,
        project_id: i32,
        now: u64,
        salt: &[u8; SALT_LEN],
    ) -> (r: Result<StaffUser, Failure>)
        requires
            input_refusal(old(self)@.users, login@, email@, password@) is None,
        ensures
            final(self)@.sessions == old(self)@.sessions,
            final(self)@.users.wf(),
            match r {
                Ok(user) => {
                    &&& old(self)@.users.next_id < u64::MAX
                    &&& user@ == fresh_user(
                        old(self)@.users.next_id,
                        project_id,
                        email@,
                        login@,
                        encoded_hash(password@, salt@),
                        salt@,
                        now,
                    )
                    &&& final(self)@.users == old(self)@.users.inserted(user@)
                    &&& credentials_accepted(final(self)@.users, login@, password@)
                },
                Err(e) => {
                    &&& old(self)@.users.next_id == u64::MAX
                    &&& e == Failure::Store
                    &&& final(self)@.users == old(self)@.users
                },
            },
    {
        proof {
            use_type_invariant(&self.users);
            lemma_utf8_length(password@);
        }
        match hash_password(password, salt) {
            Err(e) => Err(e),
            Ok(encoded) => {
                let r = self.users.insert(project_id, email, login, encoded, salt, now);
                proof {
                    if let Ok(ref user) = r {
                        law_registered_user_can_log_in(old(self)@.users, user@, password@);
                    }
                }
                r
            },
        }
    }

    /// Registers a staff user with a salt that the caller drew.
    ///
    /// A login that is taken gives `Failure::Conflict`, whatever the rest
    /// of the input. Otherwise input that is not well-shaped gives
    /// `Failure::Validation` with the fields that failed, and a table with
    /// no identifier left gives `Failure::Store`. Otherwise the password
    /// is hashed with the salt and the user is added, active and not
    /// deleted; from then on the login and the password are accepted.
    /// Every failure leaves the table of users as it was, and the table of
    /// sessions is never touched.
    pub fn register_with_salt(
        &mut self,
        login: &str,
        email: &str,
        password: &str,
        project_id: i32,
        now: u64,
        salt: &[u8; SALT_LEN],
    ) -> (r: Result<StaffUser, Failure>)
        ensures
            final(self)@.sessions == old(self)@.sessions,
            final(self)@.users.wf(),
            match r {
                Ok(user) => {
                    &&& registration_refusal(old(self)@.users, login@, email@, password@) is None
                    &&& user@ == fresh_user(
                        old(self)@.users.next_id,
                        project_id,
                        email@,
                        login@,
                        encoded_hash(password@, salt@),
                        salt@,
                        now,
                    )
                    &&& final(self)@.users == old(self)@.users.inserted(user@)
                    &&& credentials_accepted(final(self)@.users, login@, password@)
                },
                Err(e) => {
                    &&& registration_refusal(old(self)@.users, login@, email@, password@) == Some(e)
                    &&& final(self)@.users == old(self)@.users
                },
            },
    {
        proof {
            use_type_invariant(&self.users);
        }
        match self.check_registration(login, email, password) {
            Err(e) => Err(e),
            Ok(_) => self.store_registration(login, email, password, project_id, now, salt),
        }
    }

    /// Registers a staff user with a salt drawn from the random source.
    ///
    /// A login that is taken gives `Failure::Conflict` and input that is
    /// not well-shaped `Failure::Validation`, as in `register_with_salt`;
    /// neither draws a salt. After that a random source that fails gives
    /// `Failure::Crypto`, and a table with no identifier left
    /// `Failure::Store`. A user that is added was added as
    /// `register_with_salt` adds one, under the salt that the row holds.
    /// Every failure leaves the table of users as it was.
    pub fn register(
        &mut self,
        login: &str,
        email: &str,
        password: &str,
        project_id: i32,
        now: u64,
    ) -> (r: Result<StaffUser, Failure>)
        ensures
            final(self)@.sessions == old(self)@.sessions,
            final(self)@.users.wf(),
            input_refusal(old(self)@.users, login@, email@, password@) matches Some(early) ==> r
                == Err::<StaffUser, Failure>(early),
            match r {
                Ok(user) => {
                    &&& registration_refusal(old(self)@.users, login@, email@, password@) is None
                    &&& user@.salt.len() == SALT_LEN
                    &&& user@ == fresh_user(
                        old(self)@.users.next_id,
                        project_id,
                        email@,
                        login@,
                        encoded_hash(password@, user@.salt),
                        user@.salt,
                        now,
                    )
                    &&& final(self)@.users == old(self)@.users.inserted(user@)
                    &&& credentials_accepted(final(self)@.users, login@, password@)
                },
                Err(e) => {
                    &&& final(self)@.users == old(self)@.users
                    &&& (e == Failure::Crypto || registration_refusal(
                        old(self)@.users,
                        login@,
                        email@,
                        password@,
                    ) == Some(e))
                    &&& (e == Failure::Crypto ==> input_refusal(
                        old(self)@.users,
                        login@,
                        email@,
                        password@,
                    ) is None)
                },
            },
    {
        proof {
            use_type_invariant(&self.users);
        }
        match self.check_registration(login, email, password) {
            Err(e) => Err(e),
            Ok(_) => match generate_random_salt() {
                Err(e) => Err(e),
                Ok(salt) => self.store_registration(
                    login,
                    email,
                    password,
                    project_id,
                    now,
                    &salt,
                ),
            },
        }
    }

    /// Answers a login attempt.
    ///
    /// Where no user with the login may log in, and where the password
    /// does not match that user's hash, the answer is the same refusal
    /// and no session is opened. Otherwise a session is opened for the
    /// user as `SessionRepo::add` opens one, with its failures. The table
    /// of users is never touched.
    pub fn authenticate(
        &mut self,
        login: &str,
        password: &str,
        lifetime: u64,
        now: u64,
        token: &str,
    ) -> (r: Result<Session, Failure>)
        ensures
            final(self)@.users == old(self)@.users,
            final(self)@.sessions.wf(),
            !credentials_accepted(old(self)@.users, login@, password@) ==> {
                &&& r == Err::<Session, Failure>(refused())
                &&& final(self)@.sessions == old(self)@.sessions
            },
            credentials_accepted(old(self)@.users, login@, password@) ==> (match r {
                Ok(s) => {
                    &&& old(self)@.sessions.accepts(token@, now, lifetime)
                    &&& s@ == fresh_session(
                        old(self)@.sessions.next_id,
                        old(self)@.users.active_user(login@).id,
                        token@,
                        now,
                        lifetime,
                    )
                    &&& final(self)@.sessions == old(self)@.sessions.opened(
                        old(self)@.users.active_user(login@).id,
                        token@,
                        now,
                        lifetime,
                    )
                    &&& final(self)@.sessions.is_valid(token@, now)
                },
                Err(e) => {
                    &&& !old(self)@.sessions.accepts(token@, now, lifetime)
                    &&& e == (if lifetime == 0 {
                        zero_lifetime()
                    } else {
                        Failure::Store
                    })
                    &&& final(self)@.sessions == old(self)@.sessions
                },
            }),
    {
        proof {
            use_type_invariant(&self.sessions);
        }
        let found = self.users.find_active_by_login(login);
        let decision = match &found {
            Ok(user) => login_decision(Some(user), verify_password(user.password(), password)),
            Err(_) => login_decision(None, false),
        };
        match decision {
            Ok(staff_id) => self.sessions.add(staff_id, lifetime, now, token),
            Err(e) => Err(Failure::Auth(e)),
        }
    }
}

/// A user who was just added, who may log in, and whose stored hash
/// verifies against a password, is let in with that login and password.
pub proof fn law_registered_user_can_log_in(
    users: StaffTable,
    user: StaffUserView,
    password: Seq<char>,
)
    requires
        users.wf(),
        users.accepts(user.login),
        user.id == users.next_id,
        user.may_authenticate(),
        password_verifies(user.password, password),
    ensures
        users.inserted(user).wf(),
        users.inserted(user).has_active(user.login),
        users.inserted(user).active_user(user.login) == user,
        credentials_accepted(users.inserted(user), user.login, password),
{
    let after = users.inserted(user);
    let last = after.rows.len() - 1;
    assert(after.rows[last] == user);
    assert forall|a: int, b: int| 0 <= a < b < after.rows.len() implies (#[trigger] after.rows[a]).id
        != (#[trigger] after.rows[b]).id by {
        if b < last {
            assert(users.rows[a].id != users.rows[b].id);
        } else {
            assert(users.rows[a].id < users.next_id);
        }
    }
    assert forall|a: int, b: int|
        0 <= a < b < after.rows.len() && !(#[trigger] after.rows[a]).deleted && !(
        #[trigger] after.rows[b]).deleted implies after.rows[a].login != after.rows[b].login by {
        if b < last {
            assert(!users.rows[a].deleted && !users.rows[b].deleted);
            assert(users.rows[a].login != users.rows[b].login);
        } else {
            assert(users.rows[a].login != user.login);
        }
    }
    assert forall|k: int| 0 <= k < after.rows.len() implies (#[trigger] after.rows[k]).id
        < after.next_id by {
        if k < last {
            assert(users.rows[k].id < users.next_id);
        }
    }
    assert(after.is_active_user(user.login, user));
    let chosen = after.active_user(user.login);
    assert(after.is_active_user(user.login, chosen));
    let k = choose|k: int| 0 <= k < after.rows.len() && after.rows[k] == chosen;
    if k < last {
        assert(users.rows[k].login == user.login);
    }
}

/// A login attempt that is not accepted is answered in one way only,
/// whether the login is unknown or the password is wrong.
pub proof fn law_refusals_are_alike(
    users: StaffTable,
    unknown_login: Seq<char>,
    known_login: Seq<char>,
    any_password: Seq<char>,
    wrong_password: Seq<char>,
)
    requires
        !users.has_active(unknown_login),
        users.has_active(known_login),
        !password_verifies(users.active_user(known_login).password, wrong_password),
    ensures
        !credentials_accepted(users, unknown_login, any_password),
        !credentials_accepted(users, known_login, wrong_password),
{
}

} // verus!
