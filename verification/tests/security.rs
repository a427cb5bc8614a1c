use firmware_core::printer::communication::security::password::{
    BruteForceAttempt, BruteForceProtection, PasswordAttempt, PasswordProtection,
};
use firmware_core::printer::communication::security::{
    Configuration, PasswordConfiguration, Protection, Security,
};

const SECOND: u128 = 1_000_000_000;

fn peppers() -> Vec<String> {
    vec!["first-pepper".to_string(), "second-pepper".to_string()]
}

fn attempt(password: &str, current_time: u128) -> BruteForceAttempt {
    BruteForceAttempt { password: PasswordAttempt(password.to_string()), current_time }
}

#[test]
fn password_protection_accepts_only_its_password() {
    let mut protection = PasswordProtection::new("printer password", peppers()).unwrap();
    assert!(protection.can_pass(PasswordAttempt("printer password".to_string())));
    assert!(!protection.can_pass(PasswordAttempt("printer passwords".to_string())));
    assert!(!protection.can_pass(PasswordAttempt(String::new())));
    assert!(protection.can_pass(PasswordAttempt("printer password".to_string())));
}

#[test]
fn password_hash_is_a_phc_string_of_argon2() {
    let protection = PasswordProtection::new("printer password", peppers()).unwrap();
    let hash = std::str::from_utf8(protection.to_bytes()).unwrap();
    assert!(hash.starts_with("$argon2id$v=19$"));
    assert!(!hash.contains("printer password"));
}

#[test]
fn two_hashes_of_a_password_differ_by_their_salt() {
    let first = PasswordProtection::new("printer password", peppers()).unwrap();
    let second = PasswordProtection::new("printer password", peppers()).unwrap();
    assert_ne!(first.to_bytes(), second.to_bytes());
}

#[test]
fn stored_password_hash_is_read_back() {
    let protection = PasswordProtection::new("printer password", peppers()).unwrap();
    let hash = std::str::from_utf8(protection.to_bytes()).unwrap().to_string();
    let mut read = PasswordProtection::from_bytes(&hash, peppers()).unwrap();
    assert_eq!(read.to_bytes(), hash.as_bytes());
    assert!(read.can_pass(PasswordAttempt("printer password".to_string())));
    assert!(!read.can_pass(PasswordAttempt("other".to_string())));
}

#[test]
fn password_hash_needs_the_pepper_it_was_made_with() {
    let protection = PasswordProtection::new("printer password", vec!["only-pepper".to_string()]).unwrap();
    let hash = std::str::from_utf8(protection.to_bytes()).unwrap().to_string();
    let mut other_peppers = PasswordProtection::from_bytes(&hash, vec!["another-pepper".to_string()]).unwrap();
    assert!(!other_peppers.can_pass(PasswordAttempt("printer password".to_string())));
    let mut same_pepper = PasswordProtection::from_bytes(&hash, vec!["x".to_string(), "only-pepper".to_string()]).unwrap();
    assert!(same_pepper.can_pass(PasswordAttempt("printer password".to_string())));
}

#[test]
fn invalid_password_hash_is_refused() {
    assert!(PasswordProtection::from_bytes("not a password hash", peppers()).is_err());
    assert!(PasswordProtection::from_bytes("", peppers()).is_err());
}

#[test]
fn brute_force_protection_delays_attempts_after_wrong_ones() {
    let password_protection = PasswordProtection::new("secret", peppers()).unwrap();
    let mut protection = BruteForceProtection::new(password_protection, vec![(3, 60 * SECOND), (1, SECOND)]);

    assert!(!protection.can_pass(attempt("wrong", 0)));
    // One wrong attempt: a delay of one second.
    assert!(!protection.can_pass(attempt("secret", SECOND / 2)));
    assert!(!protection.can_pass(attempt("wrong", SECOND)));
    assert!(!protection.can_pass(attempt("wrong", 2 * SECOND)));
    // Three wrong attempts: a delay of a minute from the last one.
    assert!(!protection.can_pass(attempt("secret", 61 * SECOND)));
    assert!(protection.can_pass(attempt("secret", 62 * SECOND)));
    // The right password resets the count, not the time of the last wrong attempt.
    assert!(!protection.can_pass(attempt("wrong", 62 * SECOND)));
    assert!(!protection.can_pass(attempt("secret", 62 * SECOND + SECOND - 1)));
    assert!(protection.can_pass(attempt("secret", 63 * SECOND)));
}

#[test]
fn brute_force_protection_without_delays() {
    let password_protection = PasswordProtection::new("secret", peppers()).unwrap();
    let mut protection = BruteForceProtection::new(password_protection, Vec::new());
    assert!(!protection.can_pass(attempt("wrong", 5)));
    assert!(!protection.can_pass(attempt("wrong", 5)));
    assert!(protection.can_pass(attempt("secret", 5)));
}

#[test]
fn security_without_password_lets_everything_pass() {
    let mut security = Security::new(Configuration { password: PasswordConfiguration::NoPassword }).unwrap();
    assert!(security.can_pass(None, None));
    assert!(security.can_pass(Some("anything"), Some(3)));
}

#[test]
fn security_with_password() {
    let configuration = Configuration {
        password: PasswordConfiguration::Password { password: "secret".to_string(), peppers: peppers() },
    };
    let mut security = Security::new(configuration).unwrap();
    assert!(security.can_pass(Some("secret"), None));
    assert!(!security.can_pass(Some("Secret"), None));
    assert!(!security.can_pass(None, Some(0)));
}

#[test]
fn security_with_brute_force_protection() {
    let configuration = Configuration {
        password: PasswordConfiguration::PasswordAndBruteforce {
            password: "secret".to_string(),
            peppers: peppers(),
            delays_and_wrong_attempts_count_for_it: vec![(1, 10 * SECOND)],
        },
    };
    let mut security = Security::new(configuration).unwrap();
    // Without the time of the printer, the request can't be checked.
    assert!(!security.can_pass(Some("secret"), None));
    assert!(security.can_pass(Some("secret"), Some(0)));
    assert!(!security.can_pass(Some("wrong"), Some(SECOND)));
    assert!(!security.can_pass(Some("secret"), Some(2 * SECOND)));
    assert!(security.can_pass(Some("secret"), Some(11 * SECOND)));
}
