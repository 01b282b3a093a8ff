use appfence::AppId;
use appfence::database::current_timestamp;
use appfence::paths::ApfPaths;
use appfence::types::PromptDecision;
use appfence::types::grants;
use appfence::types::persists;

const ABC_SHA256: &str = "ba7816bf8f01cfea414140de5dae2223b00361a396177a9cb410ff61f20015ad";
const EMPTY_SHA256: &str = "e3b0c44298fc1c149afbf4c8996fb92427ae41e4649b934ca495991b7852b855";

#[test]
fn flatpak_identity_wraps_the_id() {
    let app = AppId::from_flatpak("org.gnome.Calculator".to_string());
    assert_eq!(app.primary, "org.gnome.Calculator");
    assert_eq!(app.binary_hash, None);
    assert_eq!(app.display_name(), "org.gnome.Calculator");
}

#[test]
fn desktop_identity_wraps_the_id() {
    let app = AppId::from_desktop("firefox.desktop".to_string());
    assert_eq!(app.primary, "firefox.desktop");
    assert_eq!(app.binary_hash, None);
}

#[test]
fn executable_identity_digests_the_contents() {
    let bytes: Vec<u8> = b"abc".to_vec();
    let app = AppId::from_executable("/usr/bin/demo".to_string(), Some(&bytes));
    assert_eq!(app.primary, "/usr/bin/demo");
    assert_eq!(app.binary_hash.as_deref(), Some(ABC_SHA256));
}

#[test]
fn executable_identity_without_hash() {
    let app = AppId::from_executable("/usr/bin/demo".to_string(), None);
    assert_eq!(app.binary_hash, None);
}

#[test]
fn empty_contents_digest() {
    let bytes: Vec<u8> = Vec::new();
    let app = AppId::from_executable("/usr/bin/empty".to_string(), Some(&bytes));
    assert_eq!(app.binary_hash.as_deref(), Some(EMPTY_SHA256));
}

#[test]
fn verify_hash_detects_tampering() {
    let bytes: Vec<u8> = b"abc".to_vec();
    let app = AppId::from_executable("/usr/bin/demo".to_string(), Some(&bytes));
    assert!(app.verify_hash(&bytes));
    let tampered: Vec<u8> = b"abcd".to_vec();
    assert!(!app.verify_hash(&tampered));
}

#[test]
fn verify_hash_trivial_without_recorded_digest() {
    let app = AppId::from_flatpak("org.example.App".to_string());
    let anything: Vec<u8> = b"whatever".to_vec();
    assert!(app.verify_hash(&anything));
}

#[test]
fn app_id_equality_is_structural() {
    let a = AppId::from_flatpak("org.example.App".to_string());
    let b = AppId::from_flatpak("org.example.App".to_string());
    let c = AppId::from_flatpak("org.example.Other".to_string());
    assert_eq!(a, b);
    assert_ne!(a, c);
    let bytes: Vec<u8> = b"abc".to_vec();
    let hashed = AppId::from_executable("org.example.App".to_string(), Some(&bytes));
    assert_ne!(a, hashed);
}

#[test]
fn clock_reading_is_nonnegative() {
    let now = current_timestamp();
    assert!(now > 0);
}

#[test]
fn default_paths() {
    let paths = ApfPaths::default();
    assert_eq!(paths.data_dir, "/var/lib/apf");
    assert_eq!(paths.db_path, "/var/lib/apf/apf.db");
    assert_eq!(paths.config_dir, "/etc/appfence");
    assert_eq!(paths.log_dir, "/var/log/apf");
}

#[test]
fn decision_kinds() {
    assert!(grants(&PromptDecision::AllowOnce));
    assert!(grants(&PromptDecision::AllowAlways));
    assert!(grants(&PromptDecision::AllowDuration(5)));
    assert!(!grants(&PromptDecision::DenyOnce));
    assert!(!grants(&PromptDecision::DenyAlways));
    assert!(persists(&PromptDecision::AllowAlways));
    assert!(persists(&PromptDecision::DenyAlways));
    assert!(persists(&PromptDecision::AllowDuration(5)));
    assert!(!persists(&PromptDecision::AllowOnce));
    assert!(!persists(&PromptDecision::DenyOnce));
}
