use identity_core::errors::AppError;
use identity_core::hasher::{hash_password, verify_password};
use identity_core::identity::{
    authenticate, authenticate_with_token, generate_token, logout, logout_all, register,
    validate_token,
};
use identity_core::repository::UserRepository;

const NOW: i64 = 1_700_000_000;
const HOUR: i64 = 3600;

fn seeded_repo(email: &str, password: &str) -> UserRepository {
    let mut repo = UserRepository::new();
    register(&mut repo, email.to_string(), password, NOW).expect("registration should succeed");
    repo
}

#[test]
fn hash_then_verify_accepts_the_password() {
    let record = hash_password("Str0ng!Pass").expect("hashing should succeed");
    assert_eq!(verify_password("Str0ng!Pass", &record).unwrap(), true);
}

#[test]
fn verify_rejects_a_different_password() {
    let record = hash_password("Str0ng!Pass").expect("hashing should succeed");
    assert_eq!(verify_password("Str0ng!Pass2", &record).unwrap(), false);
    assert_eq!(verify_password("", &record).unwrap(), false);
}

#[test]
fn hashing_twice_gives_distinct_records_that_both_verify() {
    let r1 = hash_password("Str0ng!Pass").unwrap();
    let r2 = hash_password("Str0ng!Pass").unwrap();
    assert_ne!(r1, r2);
    assert_eq!(verify_password("Str0ng!Pass", &r1).unwrap(), true);
    assert_eq!(verify_password("Str0ng!Pass", &r2).unwrap(), true);
}

#[test]
fn verify_fails_on_a_corrupt_record() {
    match verify_password("whatever", "not-a-hash-record") {
        Err(AppError::Internal(_)) => {},
        other => panic!("expected an Internal failure, got {:?}", other),
    }
}

#[test]
fn register_stores_user_without_last_login() {
    let mut repo = UserRepository::new();
    let user = register(&mut repo, "user@example.com".to_string(), "Str0ng!Pass", NOW).unwrap();
    assert_eq!(user.email, "user@example.com");
    assert_eq!(user.created_at, NOW);
    assert_eq!(user.last_login, None);
    assert_ne!(user.password, "Str0ng!Pass");
    let found = repo.find_by_email("user@example.com").expect("user should be found");
    assert_eq!(found.id, user.id);
}

#[test]
fn duplicate_registration_conflicts() {
    let mut repo = seeded_repo("user@example.com", "Str0ng!Pass");
    match register(&mut repo, "user@example.com".to_string(), "0ther!Pwd", NOW) {
        Err(AppError::Conflict(_)) => {},
        other => panic!("expected Conflict, got {:?}", other),
    }
    assert!(repo.find_by_email("user@example.com").is_some());
}

#[test]
fn duplicate_registration_conflicts_ignoring_case() {
    let mut repo = seeded_repo("User@Example.com", "Str0ng!Pass");
    match register(&mut repo, "USER@EXAMPLE.COM".to_string(), "0ther!Pwd", NOW) {
        Err(AppError::Conflict(_)) => {},
        other => panic!("expected Conflict, got {:?}", other),
    }
}

#[test]
fn authentication_failures_are_indistinguishable() {
    let mut repo = seeded_repo("user@example.com", "Str0ng!Pass");
    let unknown = authenticate(&mut repo, "ghost@example.com", "Str0ng!Pass", "10.0.0.1".to_string(), NOW, HOUR);
    let wrong = authenticate(&mut repo, "user@example.com", "WrongPass1!", "10.0.0.1".to_string(), NOW, HOUR);
    let m1 = match unknown {
        Err(AppError::Authentication(m)) => m,
        other => panic!("expected Authentication, got {:?}", other),
    };
    let m2 = match wrong {
        Err(AppError::Authentication(m)) => m,
        other => panic!("expected Authentication, got {:?}", other),
    };
    assert_eq!(m1, m2);
    assert_eq!(m1, "Invalid email or password");
}

#[test]
fn authenticate_issues_session_and_stamps_last_login() {
    let mut repo = seeded_repo("user@example.com", "Str0ng!Pass");
    let session = authenticate(
        &mut repo,
        "user@example.com",
        "Str0ng!Pass",
        "10.0.0.1".to_string(),
        NOW,
        HOUR,
    )
    .expect("authentication should succeed");
    assert_eq!(session.issued_at, NOW);
    assert_eq!(session.expires_at, NOW + HOUR);
    assert_eq!(session.token.len(), 32);
    assert_eq!(session.ip_address, "10.0.0.1");
    let user = repo.find_by_email("user@example.com").unwrap();
    assert_eq!(user.last_login, Some(NOW));
    assert_eq!(session.user_id, user.id);
}

#[test]
fn authenticate_accepts_differently_cased_email() {
    let mut repo = seeded_repo("user@example.com", "Str0ng!Pass");
    let session = authenticate(
        &mut repo,
        "USER@example.COM",
        "Str0ng!Pass",
        "10.0.0.1".to_string(),
        NOW,
        HOUR,
    );
    assert!(session.is_ok());
}

#[test]
fn validate_token_resolves_the_owner_while_active() {
    let mut repo = seeded_repo("user@example.com", "Str0ng!Pass");
    let session = authenticate(
        &mut repo,
        "user@example.com",
        "Str0ng!Pass",
        "10.0.0.1".to_string(),
        NOW,
        HOUR,
    )
    .unwrap();
    let user = validate_token(&repo, &session.token, NOW + 10).unwrap();
    assert_eq!(user.email, "user@example.com");
}

#[test]
fn expired_session_is_never_returned_even_without_logout() {
    let mut repo = seeded_repo("user@example.com", "Str0ng!Pass");
    let session = authenticate(
        &mut repo,
        "user@example.com",
        "Str0ng!Pass",
        "10.0.0.1".to_string(),
        NOW,
        HOUR,
    )
    .unwrap();
    assert!(repo.find_session_by_token(&session.token, NOW + HOUR + 1).is_none());
    match validate_token(&repo, &session.token, NOW + HOUR + 1) {
        Err(AppError::Authentication(_)) => {},
        other => panic!("expected Authentication, got {:?}", other),
    }
    // exactly at the expiry instant the session is already inactive
    assert!(repo.find_session_by_token(&session.token, NOW + HOUR).is_none());
    // just before, it is still active
    assert!(repo.find_session_by_token(&session.token, NOW + HOUR - 1).is_some());
}

#[test]
fn logout_invalidates_and_is_idempotent() {
    let mut repo = seeded_repo("user@example.com", "Str0ng!Pass");
    let session = authenticate(
        &mut repo,
        "user@example.com",
        "Str0ng!Pass",
        "10.0.0.1".to_string(),
        NOW,
        HOUR,
    )
    .unwrap();
    assert!(logout(&mut repo, &session.token, NOW + 5).is_ok());
    assert!(repo.find_session_by_token(&session.token, NOW + 6).is_none());
    // logging out again, and logging out an unknown token, both succeed
    assert!(logout(&mut repo, &session.token, NOW + 7).is_ok());
    assert!(logout(&mut repo, "no-such-token", NOW + 7).is_ok());
}

#[test]
fn logout_all_expires_every_active_session_of_the_user() {
    let mut repo = seeded_repo("user@example.com", "Str0ng!Pass");
    let s1 = authenticate(
        &mut repo,
        "user@example.com",
        "Str0ng!Pass",
        "10.0.0.1".to_string(),
        NOW,
        HOUR,
    )
    .unwrap();
    let s2 = authenticate(
        &mut repo,
        "user@example.com",
        "Str0ng!Pass",
        "10.0.0.2".to_string(),
        NOW + 1,
        HOUR,
    )
    .unwrap();
    assert_eq!(repo.get_active_sessions(s1.user_id, NOW + 2).len(), 2);
    assert!(logout_all(&mut repo, s1.user_id, NOW + 2).is_ok());
    assert_eq!(repo.get_active_sessions(s1.user_id, NOW + 2).len(), 0);
    assert!(repo.find_session_by_token(&s2.token, NOW + 3).is_none());
}

#[test]
fn session_tokens_are_unique_per_store() {
    let mut repo = seeded_repo("user@example.com", "Str0ng!Pass");
    let user = repo.find_by_email("user@example.com").unwrap();
    let first = repo.create_session(
        user.id,
        "fixed-token".to_string(),
        NOW + HOUR,
        "10.0.0.1".to_string(),
        NOW,
    );
    assert!(first.is_ok());
    match repo.create_session(
        user.id,
        "fixed-token".to_string(),
        NOW + HOUR,
        "10.0.0.1".to_string(),
        NOW,
    ) {
        Err(AppError::Database { .. }) => {},
        other => panic!("expected Database, got {:?}", other),
    }
}

#[test]
fn deterministic_authentication_core_reports_token_collision() {
    let mut repo = seeded_repo("user@example.com", "Str0ng!Pass");
    let first = authenticate_with_token(
        &mut repo,
        "user@example.com",
        "Str0ng!Pass",
        "fixed-token".to_string(),
        "10.0.0.1".to_string(),
        NOW,
        HOUR,
    );
    assert!(first.is_ok());
    match authenticate_with_token(
        &mut repo,
        "user@example.com",
        "Str0ng!Pass",
        "fixed-token".to_string(),
        "10.0.0.1".to_string(),
        NOW,
        HOUR,
    ) {
        Err(AppError::Database { .. }) => {},
        other => panic!("expected Database, got {:?}", other),
    }
}

#[test]
fn generated_tokens_are_hex_and_fresh() {
    let t1 = generate_token();
    let t2 = generate_token();
    assert_eq!(t1.len(), 32);
    assert_eq!(t2.len(), 32);
    assert!(t1.chars().all(|c| c.is_ascii_hexdigit()));
    assert_ne!(t1, t2);
}

#[test]
fn update_last_login_touches_only_the_given_user() {
    let mut repo = seeded_repo("a@example.com", "Str0ng!Pass");
    register(&mut repo, "b@example.com".to_string(), "Str0ng!Pass", NOW).unwrap();
    let a = repo.find_by_email("a@example.com").unwrap();
    repo.update_last_login(a.id, NOW + 50);
    assert_eq!(repo.find_by_email("a@example.com").unwrap().last_login, Some(NOW + 50));
    assert_eq!(repo.find_by_email("b@example.com").unwrap().last_login, None);
}

#[test]
fn update_replaces_only_the_given_fields() {
    let mut repo = seeded_repo("user@example.com", "Str0ng!Pass");
    let user = repo.find_by_email("user@example.com").unwrap();
    let input = identity_core::models::UpdateUserInput {
        username: None,
        email: Some("new@example.com".to_string()),
        password: None,
        bio: None,
    };
    let updated = identity_core::identity::update_user(&mut repo, user.id, input).unwrap();
    assert_eq!(updated.email, "new@example.com");
    assert_eq!(updated.password, user.password);
    assert_eq!(updated.created_at, user.created_at);
    assert!(repo.find_by_email("user@example.com").is_none());
    assert!(repo.find_by_email("new@example.com").is_some());
}

#[test]
fn update_rehashes_a_new_password() {
    let mut repo = seeded_repo("user@example.com", "Str0ng!Pass");
    let user = repo.find_by_email("user@example.com").unwrap();
    let input = identity_core::models::UpdateUserInput {
        username: None,
        email: None,
        password: Some("N3w!Secret".to_string()),
        bio: None,
    };
    let updated = identity_core::identity::update_user(&mut repo, user.id, input).unwrap();
    assert_ne!(updated.password, user.password);
    assert_eq!(updated.verify_password("N3w!Secret").unwrap(), true);
    assert_eq!(updated.verify_password("Str0ng!Pass").unwrap(), false);
}

#[test]
fn update_rejects_an_email_another_user_owns() {
    let mut repo = seeded_repo("a@example.com", "Str0ng!Pass");
    register(&mut repo, "b@example.com".to_string(), "Str0ng!Pass", NOW).unwrap();
    let b = repo.find_by_email("b@example.com").unwrap();
    let input = identity_core::models::UpdateUserInput {
        username: None,
        email: Some("A@EXAMPLE.COM".to_string()),
        password: None,
        bio: None,
    };
    match identity_core::identity::update_user(&mut repo, b.id, input) {
        Err(AppError::Conflict(_)) => {},
        other => panic!("expected Conflict, got {:?}", other),
    }
}

#[test]
fn update_of_an_unknown_user_is_not_found() {
    let mut repo = UserRepository::new();
    let input = identity_core::models::UpdateUserInput {
        username: None,
        email: None,
        password: None,
        bio: None,
    };
    match identity_core::identity::update_user(&mut repo, 42, input) {
        Err(AppError::NotFound(m)) => assert_eq!(m, "User with ID 42 not found"),
        other => panic!("expected NotFound, got {:?}", other),
    }
}

#[test]
fn deleting_a_user_cascades_to_their_sessions() {
    let mut repo = seeded_repo("a@example.com", "Str0ng!Pass");
    register(&mut repo, "b@example.com".to_string(), "Str0ng!Pass", NOW).unwrap();
    let sa = authenticate(&mut repo, "a@example.com", "Str0ng!Pass", "10.0.0.1".to_string(), NOW, HOUR).unwrap();
    let sb = authenticate(&mut repo, "b@example.com", "Str0ng!Pass", "10.0.0.2".to_string(), NOW, HOUR).unwrap();
    let a = repo.find_by_email("a@example.com").unwrap();
    assert!(repo.delete_user(a.id));
    assert!(repo.find_by_email("a@example.com").is_none());
    assert!(repo.find_session_by_token(&sa.token, NOW + 1).is_none());
    // the other user and their session survive
    assert!(repo.find_by_email("b@example.com").is_some());
    assert!(repo.find_session_by_token(&sb.token, NOW + 1).is_some());
    // deleting again removes nothing
    assert!(!repo.delete_user(a.id));
}

#[test]
fn pruning_drops_only_expired_rows() {
    let mut repo = seeded_repo("user@example.com", "Str0ng!Pass");
    let s1 = authenticate(&mut repo, "user@example.com", "Str0ng!Pass", "10.0.0.1".to_string(), NOW, HOUR).unwrap();
    let s2 = authenticate(&mut repo, "user@example.com", "Str0ng!Pass", "10.0.0.2".to_string(), NOW, 2 * HOUR).unwrap();
    repo.prune_expired(NOW + HOUR);
    assert!(repo.find_session_by_token(&s1.token, NOW + 1).is_none());
    assert!(repo.find_session_by_token(&s2.token, NOW + HOUR + 1).is_some());
}

#[test]
fn update_input_rules_run_only_on_present_fields() {
    let nothing = identity_core::models::UpdateUserInput {
        username: Some("renamed".to_string()),
        email: None,
        password: None,
        bio: None,
    };
    assert!(nothing.validate_into_app_error().is_ok());
    let bad = identity_core::models::UpdateUserInput {
        username: None,
        email: Some("not-an-email".to_string()),
        password: Some("short".to_string()),
        bio: None,
    };
    match bad.validate_into_app_error() {
        Err(AppError::Validation(v)) => {
            assert_eq!(v.len(), 2);
            assert_eq!(v[0].code, "invalid_email");
            assert_eq!(v[1].code, "password_too_short");
        },
        other => panic!("expected Validation, got {:?}", other),
    }
}

#[test]
fn decoy_record_is_well_formed_and_matches_nothing() {
    let decoy = identity_core::identity::decoy_record();
    // parses as a real record, so the missing-user path of
    // authentication burns a full verification, and rejects the password
    assert_eq!(verify_password("Str0ng!Pass", decoy).unwrap(), false);
    assert_eq!(verify_password("", decoy).unwrap(), false);
}
