use urlessen::auth::handlers::{
    logout, refresh, signin, signup, LogoutOutcome, RefreshOutcome, SigninOutcome, SignupOutcome,
};
use urlessen::auth::repo::{SessionStore, UserStore};
use urlessen::auth::{SignIn, SignUp};
use urlessen::config::Config;

fn test_config() -> Config {
    Config {
        argon_secret: "test-pepper".to_string(),
        access_token_secret: "access-secret".to_string(),
        refresh_token_secret: "refresh-secret".to_string(),
        refresh_token_ttl_sec: 172800,
        access_token_ttl_sec: 3600,
    }
}

fn signup_body(name: &str) -> SignUp {
    SignUp {
        username: name.to_string(),
        password: "abcdef123!xy".to_string(),
        password_check: "abcdef123!xy".to_string(),
    }
}

fn signin_body(name: &str) -> SignIn {
    SignIn { username: name.to_string(), password: "abcdef123!xy".to_string() }
}

fn granted(r: SigninOutcome) -> (String, String) {
    match r {
        SigninOutcome::Granted { token, cookie, .. } => (token, cookie),
        _ => panic!("expected a granted signin"),
    }
}

#[test]
fn signup_creates_then_conflicts() {
    let config = test_config();
    let mut users = UserStore::new();
    match signup(&mut users, &signup_body("alice"), &config, 100) {
        SignupOutcome::Created(u) => {
            assert_eq!(u.username, "alice");
            assert_eq!(u.created_at, 100);
        },
        _ => panic!("expected a created user"),
    }
    assert!(matches!(
        signup(&mut users, &signup_body("alice"), &config, 200),
        SignupOutcome::UsernameTaken
    ));
    let bad = SignUp {
        username: "x".to_string(),
        password: "abcdef123!xy".to_string(),
        password_check: "abcdef123!xy".to_string(),
    };
    assert!(matches!(signup(&mut users, &bad, &config, 300), SignupOutcome::Invalid));
}

#[test]
fn signin_rejects_unknown_user_and_wrong_password() {
    let config = test_config();
    let mut users = UserStore::new();
    let mut sessions = SessionStore::new();
    assert!(matches!(
        signin(&users, &mut sessions, &signin_body("alice"), None, &config, 100),
        SigninOutcome::Unauthorized
    ));
    signup(&mut users, &signup_body("alice"), &config, 100);
    let wrong = SignIn { username: "alice".to_string(), password: "abcdef123!zz".to_string() };
    assert!(matches!(
        signin(&users, &mut sessions, &wrong, None, &config, 200),
        SigninOutcome::Unauthorized
    ));
    assert!(matches!(
        signin(&users, &mut sessions, &signin_body("alice"), None, &config, 200),
        SigninOutcome::Granted { .. }
    ));
}

#[test]
fn refresh_rotates_and_rejects_the_old_cookie() {
    let config = test_config();
    let mut users = UserStore::new();
    let mut sessions = SessionStore::new();
    signup(&mut users, &signup_body("alice"), &config, 100);
    let (_, t0) = granted(signin(&users, &mut sessions, &signin_body("alice"), None, &config, 1000));
    let user = users.get_user_by_username(&"alice".to_string()).expect("present");
    let identity = urlessen::auth::AuthenticatedUser::from_user(&user);

    let t1 = match refresh(&mut sessions, &identity, Some(&t0), &config, 2000) {
        RefreshOutcome::Granted { cookie, .. } => cookie,
        _ => panic!("expected a granted refresh"),
    };
    assert_ne!(t0, t1, "rotation must hand out a different refresh token");

    // The replaced token is no longer accepted.
    match refresh(&mut sessions, &identity, Some(&t0), &config, 3000) {
        RefreshOutcome::Unauthorized { clear_cookie } => assert!(clear_cookie),
        _ => panic!("expected reuse to be rejected"),
    }
}

#[test]
fn reuse_revokes_every_session_of_the_user() {
    let config = test_config();
    let mut users = UserStore::new();
    let mut sessions = SessionStore::new();
    signup(&mut users, &signup_body("alice"), &config, 100);
    let (_, t0) = granted(signin(&users, &mut sessions, &signin_body("alice"), None, &config, 1000));
    let user = users.get_user_by_username(&"alice".to_string()).expect("present");
    let identity = urlessen::auth::AuthenticatedUser::from_user(&user);

    let t1 = match refresh(&mut sessions, &identity, Some(&t0), &config, 2000) {
        RefreshOutcome::Granted { cookie, .. } => cookie,
        _ => panic!("expected a granted refresh"),
    };
    // Reuse of the rotated-away token: unauthorized, cookie cleared.
    assert!(matches!(
        refresh(&mut sessions, &identity, Some(&t0), &config, 3000),
        RefreshOutcome::Unauthorized { clear_cookie: true }
    ));
    // The blast radius took the fresh token with it: its session is gone.
    assert!(!matches!(
        refresh(&mut sessions, &identity, Some(&t1), &config, 4000),
        RefreshOutcome::Granted { .. }
    ));
}

#[test]
fn refresh_in_the_same_second_still_rotates() {
    // Rotation within the very second the presented cookie was minted:
    // the per-mint nonce keeps the fresh cookie distinct from the one it
    // replaces, so reuse detection still has teeth.
    let config = test_config();
    let mut users = UserStore::new();
    let mut sessions = SessionStore::new();
    signup(&mut users, &signup_body("alice"), &config, 100);
    let (_, t0) = granted(signin(&users, &mut sessions, &signin_body("alice"), None, &config, 1000));
    let user = users.get_user_by_username(&"alice".to_string()).expect("present");
    let identity = urlessen::auth::AuthenticatedUser::from_user(&user);
    let t1 = match refresh(&mut sessions, &identity, Some(&t0), &config, 1000) {
        RefreshOutcome::Granted { cookie, .. } => cookie,
        _ => panic!("expected a granted refresh"),
    };
    assert_ne!(t0, t1, "same-second rotation must still hand out a fresh value");
    assert!(matches!(
        refresh(&mut sessions, &identity, Some(&t0), &config, 1000),
        RefreshOutcome::Unauthorized { clear_cookie: true }
    ));
}

#[test]
fn refresh_without_cookie_is_unauthorized() {
    let config = test_config();
    let mut users = UserStore::new();
    let mut sessions = SessionStore::new();
    signup(&mut users, &signup_body("alice"), &config, 100);
    let user = users.get_user_by_username(&"alice".to_string()).expect("present");
    let identity = urlessen::auth::AuthenticatedUser::from_user(&user);
    assert!(matches!(
        refresh(&mut sessions, &identity, None, &config, 1000),
        RefreshOutcome::Unauthorized { clear_cookie: false }
    ));
}

#[test]
fn at_most_one_of_two_refreshes_with_one_token_wins() {
    // The rotation step is a single atomic compare-and-swap on the store,
    // so of two refreshes presenting the same token the second always
    // finds it rotated away and is rejected.
    let config = test_config();
    let mut users = UserStore::new();
    let mut sessions = SessionStore::new();
    signup(&mut users, &signup_body("alice"), &config, 100);
    let (_, t0) = granted(signin(&users, &mut sessions, &signin_body("alice"), None, &config, 1000));
    let user = users.get_user_by_username(&"alice".to_string()).expect("present");
    let identity = urlessen::auth::AuthenticatedUser::from_user(&user);
    let first = refresh(&mut sessions, &identity, Some(&t0), &config, 2000);
    let second = refresh(&mut sessions, &identity, Some(&t0), &config, 2000);
    assert!(matches!(first, RefreshOutcome::Granted { .. }));
    assert!(matches!(second, RefreshOutcome::Unauthorized { clear_cookie: true }));
}

#[test]
fn logout_deletes_exactly_the_presented_session() {
    let config = test_config();
    let mut users = UserStore::new();
    let mut sessions = SessionStore::new();
    signup(&mut users, &signup_body("alice"), &config, 100);
    // Two independent sessions (two devices) at different instants.
    let (_, t_a) = granted(signin(&users, &mut sessions, &signin_body("alice"), None, &config, 1000));
    let (_, t_b) = granted(signin(&users, &mut sessions, &signin_body("alice"), None, &config, 2000));
    assert_ne!(t_a, t_b);
    let user = users.get_user_by_username(&"alice".to_string()).expect("present");
    let identity = urlessen::auth::AuthenticatedUser::from_user(&user);

    assert!(matches!(
        logout(&mut sessions, &identity, Some(&t_a)),
        LogoutOutcome::LoggedOut
    ));
    // The second, independent session survives and can still rotate.
    assert!(matches!(
        refresh(&mut sessions, &identity, Some(&t_b), &config, 3000),
        RefreshOutcome::Granted { .. }
    ));
}

#[test]
fn signin_with_invalid_body_is_rejected_as_invalid() {
    let config = test_config();
    let mut users = UserStore::new();
    let mut sessions = SessionStore::new();
    signup(&mut users, &signup_body("alice"), &config, 100);
    let bad = SignIn { username: "alice".to_string(), password: "short".to_string() };
    assert!(matches!(
        signin(&users, &mut sessions, &bad, None, &config, 200),
        SigninOutcome::Invalid
    ));
}

#[test]
fn refresh_with_a_token_that_never_existed_is_a_server_error() {
    // The user has no sessions at all, so the reuse check affects zero
    // rows and the flow proceeds; the rotation update then matches no
    // row: a true race, reported as a server error, not as unauthorized.
    let config = test_config();
    let mut sessions = SessionStore::new();
    let identity = urlessen::auth::AuthenticatedUser {
        id: 0,
        username: "alice".to_string(),
        created_at: 100,
    };
    let ghost_cookie = "never-issued".to_string();
    assert!(matches!(
        refresh(&mut sessions, &identity, Some(&ghost_cookie), &config, 1000),
        RefreshOutcome::Internal
    ));
}

#[test]
fn clock_reads_a_present_day_instant() {
    let now = urlessen::utils::current_timestamp();
    assert!(now > 1_577_836_800, "the clock should be past the year 2020");
}

#[test]
fn logout_without_cookie_is_unauthorized() {
    let mut sessions = SessionStore::new();
    let identity = urlessen::auth::AuthenticatedUser {
        id: 0,
        username: "alice".to_string(),
        created_at: 100,
    };
    assert!(matches!(logout(&mut sessions, &identity, None), LogoutOutcome::Unauthorized));
}

#[test]
fn signin_with_a_stale_cookie_still_signs_in_and_revokes() {
    let config = test_config();
    let mut users = UserStore::new();
    let mut sessions = SessionStore::new();
    signup(&mut users, &signup_body("alice"), &config, 100);
    let (_, t0) = granted(signin(&users, &mut sessions, &signin_body("alice"), None, &config, 1000));
    let user = users.get_user_by_username(&"alice".to_string()).expect("present");
    let identity = urlessen::auth::AuthenticatedUser::from_user(&user);
    // Rotate so t0 goes stale.
    let t1 = match refresh(&mut sessions, &identity, Some(&t0), &config, 2000) {
        RefreshOutcome::Granted { cookie, .. } => cookie,
        _ => panic!("expected a granted refresh"),
    };
    // Signin presenting the stale cookie: the eager cleanup revokes the
    // other sessions, and the signin itself still succeeds.
    let (_, t2) = granted(signin(
        &users,
        &mut sessions,
        &signin_body("alice"),
        Some(&t0),
        &config,
        3000,
    ));
    assert_ne!(t2, t1);
    // The fresh cookie rotates as usual.
    assert!(matches!(
        refresh(&mut sessions, &identity, Some(&t2), &config, 4000),
        RefreshOutcome::Granted { .. }
    ));
    // The revoked t1 no longer rotates; presenting it trips the reuse
    // revocation instead.
    assert!(matches!(
        refresh(&mut sessions, &identity, Some(&t1), &config, 5000),
        RefreshOutcome::Unauthorized { clear_cookie: true }
    ));
}
