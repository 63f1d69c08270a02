use staff_auth::{Failure, Session, SessionRepo, ValidationError};

const ZERO_LIFETIME: Failure = Failure::Validation(ValidationError {
    login: false,
    email: false,
    password: false,
    lifetime: true,
});

#[test]
fn add_sets_expiry_and_is_unlocked() {
    let mut repo = SessionRepo::new();
    let s = repo.add(7, 3600, 1_000, "tok-a").unwrap();
    assert_eq!(s.id(), 1);
    assert_eq!(s.staff_id(), 7);
    assert_eq!(s.get_token(), "tok-a");
    assert_eq!(s.created_at(), 1_000);
    assert_eq!(s.updated_at(), 1_000);
    assert_eq!(s.expire_at(), 4_600);
    assert_eq!(s.expire_at() - s.created_at(), 3600);
    assert!(!s.locked());
}

#[test]
fn add_gives_growing_identifiers() {
    let mut repo = SessionRepo::new();
    assert_eq!(repo.add(7, 10, 1, "a").unwrap().id(), 1);
    assert_eq!(repo.add(7, 10, 1, "b").unwrap().id(), 2);
    assert_eq!(repo.add(8, 10, 1, "c").unwrap().id(), 3);
}

#[test]
fn add_returns_the_stored_row() {
    let mut repo = SessionRepo::new();
    let s = repo.add(7, 3600, 1_000, "tok-a").unwrap();
    let by_id = repo.get_by_id(s.id()).unwrap();
    let by_token = repo.get_by_token("tok-a").unwrap();
    for row in [&by_id, &by_token] {
        assert_eq!(row.id(), s.id());
        assert_eq!(row.staff_id(), 7);
        assert_eq!(row.get_token(), "tok-a");
        assert_eq!(row.created_at(), 1_000);
        assert_eq!(row.updated_at(), 1_000);
        assert_eq!(row.expire_at(), 4_600);
        assert!(!row.locked());
    }
}

#[test]
fn add_refuses_duplicate_token() {
    let mut repo = SessionRepo::new();
    repo.add(7, 10, 1, "t").unwrap();
    assert!(matches!(repo.add(8, 10, 2, "t"), Err(Failure::Store)));
    assert!(matches!(repo.get_by_id(2), Err(Failure::NotFound)));
    assert_eq!(repo.get_by_token("t").unwrap().staff_id(), 7);
    // the refused row took no identifier
    assert_eq!(repo.add(8, 10, 2, "u").unwrap().id(), 2);
}

#[test]
fn add_refuses_zero_lifetime() {
    let mut repo = SessionRepo::new();
    match repo.add(7, 0, 1_000, "t") {
        Err(e) => assert_eq!(e, ZERO_LIFETIME),
        Ok(_) => panic!("a session of no duration was opened"),
    }
    assert!(matches!(repo.get_by_token("t"), Err(Failure::NotFound)));
    assert!(!repo.is_valid("t", 1_000));
}

#[test]
fn add_refuses_expiry_beyond_64_bits() {
    let mut repo = SessionRepo::new();
    assert!(matches!(repo.add(7, 2, u64::MAX - 1, "t"), Err(Failure::Store)));
    assert!(matches!(repo.add(7, u64::MAX, 1, "t"), Err(Failure::Store)));
    let s = repo.add(7, 1, u64::MAX - 1, "t").unwrap();
    assert_eq!(s.expire_at(), u64::MAX);
    assert!(repo.is_valid("t", u64::MAX - 1));
    assert!(!repo.is_valid("t", u64::MAX));
}

#[test]
fn get_unknown_is_not_found() {
    let mut repo = SessionRepo::new();
    assert!(matches!(repo.get_by_id(1), Err(Failure::NotFound)));
    assert!(matches!(repo.get_by_token(""), Err(Failure::NotFound)));
    repo.add(7, 10, 1, "a").unwrap();
    assert!(matches!(repo.get_by_id(0), Err(Failure::NotFound)));
    assert!(matches!(repo.get_by_id(2), Err(Failure::NotFound)));
    assert!(matches!(repo.get_by_token("A"), Err(Failure::NotFound)));
}

#[test]
fn valid_from_creation_until_expiry() {
    let mut repo = SessionRepo::new();
    repo.add(7, 3600, 1_000, "tok").unwrap();
    assert!(repo.is_valid("tok", 1_000));
    assert!(repo.is_valid("tok", 4_599));
    assert!(!repo.is_valid("tok", 4_600));
    assert!(!repo.is_valid("tok", 4_601));
    assert!(!repo.is_valid("tok", u64::MAX));
}

#[test]
fn unknown_token_is_not_valid() {
    let mut repo = SessionRepo::new();
    assert!(!repo.is_valid("tok", 0));
    repo.add(7, 3600, 1_000, "tok").unwrap();
    assert!(!repo.is_valid("tok2", 1_000));
    assert!(!repo.is_valid("", 1_000));
}

#[test]
fn lock_overrides_remaining_lifetime() {
    let mut repo = SessionRepo::new();
    let s = repo.add(7, 3600, 1_000, "tok").unwrap();
    let other = repo.add(8, 3600, 1_000, "other").unwrap();
    assert!(repo.lock(&s, 1_010));
    assert!(!repo.is_valid("tok", 1_010));
    assert!(!repo.is_valid("tok", 1_000));
    assert!(!repo.is_valid("tok", 4_599));
    let row = repo.get_by_token("tok").unwrap();
    assert!(row.locked());
    assert_eq!(row.updated_at(), 1_010);
    assert_eq!(row.expire_at(), 4_600);
    assert_eq!(row.created_at(), 1_000);
    // the other session is untouched
    assert!(repo.is_valid("other", 1_010));
    let kept = repo.get_by_id(other.id()).unwrap();
    assert!(!kept.locked());
    assert_eq!(kept.updated_at(), 1_000);
}

#[test]
fn lock_twice_stays_locked() {
    let mut repo = SessionRepo::new();
    let s = repo.add(7, 3600, 1_000, "tok").unwrap();
    assert!(repo.lock(&s, 1_010));
    assert!(repo.lock(&s, 1_020));
    assert!(!repo.is_valid("tok", 1_020));
    assert!(repo.get_by_id(s.id()).unwrap().locked());
}

#[test]
fn expire_takes_effect_at_once() {
    let mut repo = SessionRepo::new();
    let s = repo.add(7, 3600, 1_000, "tok").unwrap();
    repo.add(8, 3600, 1_000, "other").unwrap();
    assert!(repo.is_valid("tok", 1_500));
    assert!(repo.expire(&s, 1_500));
    assert!(!repo.is_valid("tok", 1_500));
    assert!(!repo.is_valid("tok", 1_501));
    let row = repo.get_by_token("tok").unwrap();
    assert_eq!(row.expire_at(), 1_500);
    assert_eq!(row.updated_at(), 1_500);
    assert!(!row.locked());
    assert!(repo.is_valid("other", 1_500));
}

#[test]
fn expire_in_the_second_of_creation() {
    let mut repo = SessionRepo::new();
    let s = repo.add(7, 3600, 1_000, "tok").unwrap();
    assert!(repo.expire(&s, 1_000));
    assert!(!repo.is_valid("tok", 1_000));
}

#[test]
fn expire_and_lock_of_unknown_session_change_nothing() {
    let mut repo = SessionRepo::new();
    repo.add(7, 3600, 1_000, "tok").unwrap();
    let stranger = Session::new(99, 7, String::from("tok"), 1_000, 1_000, 4_600, false);
    assert!(!repo.expire(&stranger, 1_001));
    assert!(!repo.lock(&stranger, 1_001));
    assert!(repo.is_valid("tok", 1_001));
    let row = repo.get_by_token("tok").unwrap();
    assert_eq!(row.expire_at(), 4_600);
    assert_eq!(row.updated_at(), 1_000);
    assert!(!row.locked());
}

#[test]
fn sessions_are_never_removed() {
    let mut repo = SessionRepo::new();
    let s = repo.add(7, 10, 1_000, "tok").unwrap();
    repo.expire(&s, 1_001);
    repo.lock(&s, 1_002);
    assert!(repo.get_by_id(s.id()).is_ok());
    assert!(repo.get_by_token("tok").is_ok());
    // the token stays taken
    assert!(matches!(repo.add(7, 10, 2_000, "tok"), Err(Failure::Store)));
}

#[test]
fn row_rule_matches_table_rule() {
    let live = Session::new(1, 7, String::from("a"), 10, 10, 20, false);
    assert!(live.is_valid_at(10));
    assert!(live.is_valid_at(19));
    assert!(!live.is_valid_at(20));
    let locked = Session::new(1, 7, String::from("a"), 10, 10, 20, true);
    assert!(!locked.is_valid_at(10));
    let copy = live.clone();
    assert_eq!(copy.get_token(), "a");
    assert_eq!(copy.expire_at(), 20);
}
