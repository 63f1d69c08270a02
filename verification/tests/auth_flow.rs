use staff_auth::{
    login_decision, validate_registration, validation_of, AuthError, AuthService, Failure,
    SessionRepo, StaffRepo, StaffUser, ValidationError,
};

const SALT: [u8; 32] = [11u8; 32];

fn invalid(login: bool, email: bool, password: bool) -> Failure {
    Failure::Validation(ValidationError { login, email, password, lifetime: false })
}

fn password_of(chars: usize) -> String {
    "x".repeat(chars)
}

fn failure_of<T>(r: Result<T, Failure>) -> Failure {
    match r {
        Err(e) => e,
        Ok(_) => panic!("expected a failure"),
    }
}

#[test]
fn register_then_authenticate_scenario() {
    let mut service = AuthService::new();
    let user = service
        .register("a@b.com", "a@b.com", "correct-horse-battery", 1, 1_000)
        .unwrap();
    assert_eq!(user.login(), "a@b.com");
    assert_ne!(user.password(), "correct-horse-battery");
    assert!(user.active());
    assert!(!user.deleted());
    assert_eq!(user.salt().len(), 32);

    let session = service
        .authenticate("a@b.com", "correct-horse-battery", 3600, 2_000, "token-1")
        .unwrap();
    assert_eq!(session.staff_id(), user.id());
    assert_eq!(session.created_at(), 2_000);
    assert_eq!(session.expire_at(), 2_000 + 3600);
    assert_eq!(session.get_token(), "token-1");
    assert!(service.sessions.is_valid("token-1", 2_000));

    let refused = service.authenticate("a@b.com", "wrong-password", 3600, 2_001, "token-2");
    assert_eq!(failure_of(refused), Failure::Auth(AuthError));
    // the failed attempt opened no session
    assert!(matches!(service.sessions.get_by_token("token-2"), Err(Failure::NotFound)));
    assert!(matches!(service.sessions.get_by_id(2), Err(Failure::NotFound)));
    assert!(!service.sessions.is_valid("token-2", 2_001));
    // the next session gets the next identifier
    let next = service
        .authenticate("a@b.com", "correct-horse-battery", 3600, 2_002, "token-3")
        .unwrap();
    assert_eq!(next.id(), 2);
}

#[test]
fn register_with_salt_stores_hash_of_password_and_salt() {
    let mut service = AuthService::new();
    let user = service
        .register_with_salt("a@b.com", "mail@b.com", "correct-horse-battery", 5, 1_000, &SALT)
        .unwrap();
    assert_eq!(user.id(), 1);
    assert_eq!(user.project_id(), 5);
    assert_eq!(user.email(), "mail@b.com");
    assert_eq!(user.login(), "a@b.com");
    assert_eq!(user.created_at(), 1_000);
    assert_eq!(user.updated_at(), 1_000);
    assert_eq!(user.salt(), &SALT.to_vec());
    let expected = staff_auth::hash_password("correct-horse-battery", &SALT).unwrap();
    assert_eq!(user.password(), expected);
    assert!(staff_auth::verify_password(user.password(), "correct-horse-battery"));
    let stored = service.users.find_active_by_login("a@b.com").unwrap();
    assert_eq!(stored.password(), expected);
}

#[test]
fn register_existing_login_is_conflict_and_changes_nothing() {
    let mut service = AuthService::new();
    let first = service
        .register_with_salt("a@b.com", "a@b.com", "correct-horse-battery", 1, 1_000, &SALT)
        .unwrap();
    let again =
        service.register_with_salt("a@b.com", "z@b.com", "another-long-password", 2, 2_000, &SALT);
    assert_eq!(failure_of(again), Failure::Conflict);
    let again = service.register("a@b.com", "z@b.com", "another-long-password", 2, 2_000);
    assert_eq!(failure_of(again), Failure::Conflict);
    let stored = service.users.find_active_by_login("a@b.com").unwrap();
    assert_eq!(stored.id(), first.id());
    assert_eq!(stored.password(), first.password());
    assert_eq!(stored.email(), "a@b.com");
    assert_eq!(stored.project_id(), 1);
    // a new user still gets the second identifier
    let other = service
        .register_with_salt("c@d.com", "c@d.com", "correct-horse-battery", 1, 3_000, &SALT)
        .unwrap();
    assert_eq!(other.id(), 2);
}

#[test]
fn register_conflict_comes_before_validation() {
    let mut service = AuthService::new();
    service
        .register_with_salt("a@b.com", "a@b.com", "correct-horse-battery", 1, 1_000, &SALT)
        .unwrap();
    let r = service.register_with_salt("a@b.com", "not an address", "short", 1, 1_000, &SALT);
    assert_eq!(failure_of(r), Failure::Conflict);
    assert_eq!(
        service.check_registration("a@b.com", "not an address", "short"),
        Err(Failure::Conflict)
    );
}

#[test]
fn register_password_length_boundaries() {
    let mut service = AuthService::new();
    let short = service.register_with_salt("a@b.com", "a@b.com", &password_of(11), 1, 1, &SALT);
    assert_eq!(failure_of(short), invalid(false, false, true));
    let long = service.register_with_salt("a@b.com", "a@b.com", &password_of(65), 1, 1, &SALT);
    assert_eq!(failure_of(long), invalid(false, false, true));
    assert!(!service.users.exists_by_login("a@b.com"));
    let least = service.register_with_salt("a@b.com", "a@b.com", &password_of(12), 1, 1, &SALT);
    assert!(least.is_ok());
    let most = service.register_with_salt("c@d.com", "c@d.com", &password_of(64), 1, 1, &SALT);
    assert!(most.is_ok());
    let via_random = service.register("e@f.com", "e@f.com", &password_of(11), 1, 1);
    assert_eq!(failure_of(via_random), invalid(false, false, true));
    let via_random = service.register("e@f.com", "e@f.com", &password_of(65), 1, 1);
    assert_eq!(failure_of(via_random), invalid(false, false, true));
    assert!(service.register("e@f.com", "e@f.com", &password_of(12), 1, 1).is_ok());
    assert!(service.register("g@h.com", "g@h.com", &password_of(64), 1, 1).is_ok());
}

#[test]
fn password_length_counts_characters() {
    // 12 characters, 36 bytes
    let twelve = "日".repeat(12);
    assert_eq!(validate_registration("a@b.com", "a@b.com", &twelve), Ok(()));
    // 11 characters, 33 bytes
    let eleven = "日".repeat(11);
    assert_eq!(
        validate_registration("a@b.com", "a@b.com", &eleven),
        Err(ValidationError { login: false, email: false, password: true, lifetime: false })
    );
    // 64 characters, 256 bytes
    let most = "🔑".repeat(64);
    assert_eq!(validate_registration("a@b.com", "a@b.com", &most), Ok(()));
    let mut service = AuthService::new();
    let user = service.register_with_salt("a@b.com", "a@b.com", &most, 1, 1, &SALT).unwrap();
    assert!(staff_auth::verify_password(user.password(), &most));
}

#[test]
fn validation_names_every_field_that_failed() {
    assert_eq!(
        validate_registration("nobody", "a@b.com", "correct-horse-battery"),
        Err(ValidationError { login: true, email: false, password: false, lifetime: false })
    );
    assert_eq!(
        validate_registration("a@b.com", "a b@c.com", "correct-horse-battery"),
        Err(ValidationError { login: false, email: true, password: false, lifetime: false })
    );
    assert_eq!(
        validate_registration("", "abc@", ""),
        Err(ValidationError { login: true, email: true, password: true, lifetime: false })
    );
    assert_eq!(
        validate_registration("email@[127.0.0.1]", "abc@bar", "correct-horse-battery"),
        Ok(())
    );
}

#[test]
fn validation_of_is_exact() {
    assert_eq!(validation_of(true, true, 12), Ok(()));
    assert_eq!(validation_of(true, true, 64), Ok(()));
    assert_eq!(
        validation_of(true, true, 11),
        Err(ValidationError { login: false, email: false, password: true, lifetime: false })
    );
    assert_eq!(
        validation_of(true, true, 65),
        Err(ValidationError { login: false, email: false, password: true, lifetime: false })
    );
    assert_eq!(
        validation_of(false, true, 20),
        Err(ValidationError { login: true, email: false, password: false, lifetime: false })
    );
    assert_eq!(
        validation_of(true, false, 0),
        Err(ValidationError { login: false, email: true, password: true, lifetime: false })
    );
}

#[test]
fn register_invalid_input_changes_nothing() {
    let mut service = AuthService::new();
    let r = service.register_with_salt("nobody", "a@b.com", "correct-horse-battery", 1, 1, &SALT);
    assert_eq!(failure_of(r), invalid(true, false, false));
    let r = service.register_with_salt("a@b.com", "nowhere", "correct-horse-battery", 1, 1, &SALT);
    assert_eq!(failure_of(r), invalid(false, true, false));
    assert!(!service.users.exists_by_login("nobody"));
    assert!(!service.users.exists_by_login("a@b.com"));
    let first = service
        .register_with_salt("a@b.com", "a@b.com", "correct-horse-battery", 1, 1, &SALT)
        .unwrap();
    assert_eq!(first.id(), 1);
}

#[test]
fn register_refused_by_full_table() {
    let last = StaffUser::new(
        u64::MAX - 1,
        1,
        String::from("z@b.com"),
        1,
        1,
        String::from("z@b.com"),
        true,
        false,
        String::from("h"),
        vec![0u8; 32],
    );
    let users = StaffRepo::from_rows(vec![last]).unwrap();
    let mut service = AuthService::with_tables(users, SessionRepo::new());
    let r = service.register_with_salt("a@b.com", "a@b.com", "correct-horse-battery", 1, 1, &SALT);
    assert_eq!(failure_of(r), Failure::Store);
    assert!(!service.users.exists_by_login("a@b.com"));
}

#[test]
fn unknown_login_and_wrong_password_are_refused_alike() {
    let mut service = AuthService::new();
    service
        .register_with_salt("a@b.com", "a@b.com", "correct-horse-battery", 1, 1_000, &SALT)
        .unwrap();
    let unknown = service.authenticate("nobody@b.com", "correct-horse-battery", 3600, 2_000, "t1");
    let wrong = service.authenticate("a@b.com", "wrong-password", 3600, 2_000, "t2");
    let unknown = failure_of(unknown);
    let wrong = failure_of(wrong);
    assert_eq!(unknown, wrong);
    assert_eq!(unknown, Failure::Auth(AuthError));
    assert!(matches!(service.sessions.get_by_id(1), Err(Failure::NotFound)));
}

#[test]
fn inactive_and_deleted_users_are_refused() {
    let hash = staff_auth::hash_password("correct-horse-battery", &SALT).unwrap();
    let row = |id: u64, login: &str, active: bool, deleted: bool| {
        StaffUser::new(
            id,
            1,
            String::from(login),
            1,
            1,
            String::from(login),
            active,
            deleted,
            hash.clone(),
            SALT.to_vec(),
        )
    };
    let users = StaffRepo::from_rows(vec![
        row(1, "live@b.com", true, false),
        row(2, "off@b.com", false, false),
        row(3, "gone@b.com", true, true),
    ])
    .unwrap();
    let mut service = AuthService::with_tables(users, SessionRepo::new());
    let off = service.authenticate("off@b.com", "correct-horse-battery", 60, 1, "t1");
    assert_eq!(failure_of(off), Failure::Auth(AuthError));
    let gone = service.authenticate("gone@b.com", "correct-horse-battery", 60, 1, "t2");
    assert_eq!(failure_of(gone), Failure::Auth(AuthError));
    let live = service.authenticate("live@b.com", "correct-horse-battery", 60, 1, "t3").unwrap();
    assert_eq!(live.staff_id(), 1);
    assert_eq!(live.id(), 1);
}

#[test]
fn user_with_malformed_hash_is_refused() {
    let broken = StaffUser::new(
        1,
        1,
        String::from("a@b.com"),
        1,
        1,
        String::from("a@b.com"),
        true,
        false,
        String::from("correct-horse-battery"),
        vec![0u8; 32],
    );
    let users = StaffRepo::from_rows(vec![broken]).unwrap();
    let mut service = AuthService::with_tables(users, SessionRepo::new());
    let r = service.authenticate("a@b.com", "correct-horse-battery", 60, 1, "t");
    assert_eq!(failure_of(r), Failure::Auth(AuthError));
}

#[test]
fn authenticate_passes_on_session_failures() {
    let mut service = AuthService::new();
    service
        .register_with_salt("a@b.com", "a@b.com", "correct-horse-battery", 1, 1_000, &SALT)
        .unwrap();
    let zero = service.authenticate("a@b.com", "correct-horse-battery", 0, 2_000, "t");
    assert_eq!(
        failure_of(zero),
        Failure::Validation(ValidationError {
            login: false,
            email: false,
            password: false,
            lifetime: true
        })
    );
    service.authenticate("a@b.com", "correct-horse-battery", 60, 2_000, "t").unwrap();
    let taken = service.authenticate("a@b.com", "correct-horse-battery", 60, 2_001, "t");
    assert_eq!(failure_of(taken), Failure::Store);
    let late = service.authenticate("a@b.com", "correct-horse-battery", 60, u64::MAX, "u");
    assert_eq!(failure_of(late), Failure::Store);
    // wrong credentials are refused before the lifetime is looked at
    let both = service.authenticate("a@b.com", "wrong-password", 0, 2_000, "v");
    assert_eq!(failure_of(both), Failure::Auth(AuthError));
}

#[test]
fn session_from_login_expires_and_locks() {
    let mut service = AuthService::new();
    service
        .register_with_salt("a@b.com", "a@b.com", "correct-horse-battery", 1, 1_000, &SALT)
        .unwrap();
    let s = service.authenticate("a@b.com", "correct-horse-battery", 100, 2_000, "t").unwrap();
    assert!(service.sessions.is_valid("t", 2_000));
    assert!(service.sessions.is_valid("t", 2_099));
    assert!(!service.sessions.is_valid("t", 2_100));
    assert!(service.sessions.lock(&s, 2_010));
    assert!(!service.sessions.is_valid("t", 2_010));
}

#[test]
fn login_decision_is_exact() {
    let live = StaffUser::new(
        8,
        1,
        String::from("a@b.com"),
        1,
        1,
        String::from("a@b.com"),
        true,
        false,
        String::from("h"),
        vec![],
    );
    let off = StaffUser::new(
        9,
        1,
        String::from("a@b.com"),
        1,
        1,
        String::from("a@b.com"),
        false,
        false,
        String::from("h"),
        vec![],
    );
    assert_eq!(login_decision(Some(&live), true), Ok(8));
    assert_eq!(login_decision(Some(&live), false), Err(AuthError));
    assert_eq!(login_decision(Some(&off), true), Err(AuthError));
    assert_eq!(login_decision(None, true), Err(AuthError));
    assert_eq!(login_decision(None, false), Err(AuthError));
}
