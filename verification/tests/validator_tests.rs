use urlessen::auth::validators::{is_valid_password, is_valid_username};
use urlessen::urls::validators::{is_valid_description, is_valid_long_url, is_valid_title};
use urlessen::Validate;
use urlessen::auth::{SignIn, SignUp};
use urlessen::urls::{CreateBody, PatchBody};

#[test]
fn username_boundaries() {
    assert!(is_valid_username("ab"));
    assert!(is_valid_username("abcdefghijklmnopqrstuvwxyzABCDEF"));
    assert!(!is_valid_username("a"));
    assert!(!is_valid_username("abcdefghijklmnopqrstuvwxyzABCDEFG"));
    assert!(!is_valid_username(""));
}

#[test]
fn username_charset() {
    assert!(is_valid_username("user-name_with.dots"));
    assert!(is_valid_username("A.b-C_d"));
    assert!(!is_valid_username("user name"));
    assert!(!is_valid_username("user7"));
    assert!(!is_valid_username("usér"));
    assert!(!is_valid_username("user!"));
}

#[test]
fn password_boundaries() {
    assert!(is_valid_password("abcdefgh12!x"));
    assert!(!is_valid_password("abcdefg12!x"));
}

#[test]
fn password_classes() {
    assert!(!is_valid_password("abcdefghijk!"));
    assert!(!is_valid_password("abcdefghijk1"));
    assert!(!is_valid_password("1234567890!!"));
    assert!(is_valid_password("abc123!!!!!!"));
}

#[test]
fn password_multibyte_counts_as_symbol() {
    // 10 letters, 1 digit and a two-byte character: 13 bytes, the
    // multi-byte character fills the symbol bucket.
    assert!(is_valid_password("abcdefghij1é"));
}

#[test]
fn signup_body_validation() {
    let good = SignUp {
        username: "alice".to_string(),
        password: "abcdef123!xy".to_string(),
        password_check: "abcdef123!xy".to_string(),
    };
    assert!(good.validate());
    let mismatch = SignUp {
        username: "alice".to_string(),
        password: "abcdef123!xy".to_string(),
        password_check: "abcdef123!xz".to_string(),
    };
    assert!(!mismatch.validate());
    let bad_name = SignUp {
        username: "a".to_string(),
        password: "abcdef123!xy".to_string(),
        password_check: "abcdef123!xy".to_string(),
    };
    assert!(!bad_name.validate());
}

#[test]
fn signin_body_validation() {
    let good = SignIn { username: "alice".to_string(), password: "abcdef123!xy".to_string() };
    assert!(good.validate());
    let bad = SignIn { username: "alice".to_string(), password: "short".to_string() };
    assert!(!bad.validate());
}

#[test]
fn title_and_description_bounds() {
    assert!(is_valid_title(&"t".repeat(64)));
    assert!(!is_valid_title(&"t".repeat(65)));
    assert!(is_valid_description(&"d".repeat(256)));
    assert!(!is_valid_description(&"d".repeat(257)));
}

#[test]
fn long_url_rule() {
    assert!(is_valid_long_url("https://example.com/path?q=1"));
    assert!(!is_valid_long_url("not a url"));
    let long = format!("https://example.com/{}", "a".repeat(2048));
    assert!(!is_valid_long_url(&long));
}

#[test]
fn url_bodies_validate() {
    let create = CreateBody {
        title: "a page".to_string(),
        description: None,
        long_url: "https://example.com/".to_string(),
    };
    assert!(create.validate());
    let bad = CreateBody {
        title: "a page".to_string(),
        description: Some("d".repeat(300)),
        long_url: "https://example.com/".to_string(),
    };
    assert!(!bad.validate());
    let patch = PatchBody { title: None, description: None };
    assert!(patch.validate());
    let patch_bad = PatchBody { title: Some("t".repeat(65)), description: None };
    assert!(!patch_bad.validate());
}
