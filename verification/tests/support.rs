use std::path::PathBuf;
use std::time::{Duration, UNIX_EPOCH};
use wireskip_common::b64e::Base64;
use wireskip_common::cfg::{Config, ConfigType};
use wireskip_common::material::{SecretScalar, SigningKeyPair};
use wireskip_common::nonce::mk_nonce;
use wireskip_common::setup::{fresh_keys, plan_setup, SetupPlan};
use wireskip_common::state::{new, BaseState, CryptoState};
use wireskip_common::time::{checked_utime, utime, utimenow};

#[test]
fn utime_counts_whole_seconds() {
    assert_eq!(utime(UNIX_EPOCH), 0);
    assert_eq!(utime(UNIX_EPOCH + Duration::from_secs(1_700_000_000)), 1_700_000_000);
    assert_eq!(utime(UNIX_EPOCH + Duration::from_millis(5_999)), 5);
    assert_eq!(utime(UNIX_EPOCH + Duration::new(41, 999_999_999)), 41);
}

#[test]
fn checked_utime_agrees_with_utime() {
    for secs in [0u64, 1, 59, 86_400, 4_102_444_800] {
        let t = UNIX_EPOCH + Duration::from_secs(secs);
        assert_eq!(checked_utime(t), Some(secs as i64));
        assert_eq!(checked_utime(t), Some(utime(t)));
    }
}

#[test]
fn time_before_the_epoch_has_no_timestamp() {
    assert_eq!(checked_utime(UNIX_EPOCH - Duration::from_secs(1)), None);
    assert_eq!(checked_utime(UNIX_EPOCH - Duration::from_nanos(1)), None);
}

#[test]
fn utimenow_is_the_present() {
    let before = std::time::SystemTime::now().duration_since(UNIX_EPOCH).unwrap().as_secs() as i64;
    let now = utimenow().unwrap();
    let after = std::time::SystemTime::now().duration_since(UNIX_EPOCH).unwrap().as_secs() as i64;
    assert!(before <= now && now <= after);
}

#[test]
fn nonce_has_the_asked_length() {
    for len in [0usize, 1, 2, 16, 32, 255] {
        let nonce = mk_nonce(len);
        assert_eq!(nonce.chars().count(), len);
        assert_eq!(nonce.len(), len);
    }
    assert_eq!(mk_nonce(0), "");
}

#[test]
fn nonce_is_alphanumeric() {
    let nonce = mk_nonce(4096);
    assert!(nonce.chars().all(|c| c.is_ascii_alphanumeric()));
    assert!(nonce.chars().any(|c| c.is_ascii_digit()));
    assert!(nonce.chars().any(|c| c.is_ascii_lowercase()));
    assert!(nonce.chars().any(|c| c.is_ascii_uppercase()));
}

#[test]
fn nonces_differ() {
    assert_ne!(mk_nonce(32), mk_nonce(32));
}

#[test]
fn state_holds_the_key_and_the_inner_state() {
    let pair = SigningKeyPair::from_secret(SecretScalar([5u8; 32]));
    let state: BaseState<u32> = new(pair, 77);
    assert!(state.crypto.key == pair);
    assert_eq!(state.inner, 77);
    assert_eq!(*state, 77);
    let crypto: CryptoState = CryptoState::from_ref(&state);
    assert!(crypto.key == pair);
    let copy = state.clone();
    assert!(copy.crypto.key == pair);
    assert_eq!(copy.inner, 77);
}

#[test]
fn state_derefs_to_the_inner_state() {
    let pair = SigningKeyPair::from_secret(SecretScalar([6u8; 32]));
    let state = new(pair, String::from("inner"));
    assert_eq!(state.len(), 5);
    assert_eq!(state.as_str(), "inner");
}

#[test]
fn config_type_is_a_marker() {
    let _: ConfigType<u8> = ConfigType::new();
    let _: ConfigType<String> = ConfigType::<String>::new();
    assert_eq!(std::mem::size_of::<ConfigType<String>>(), 0);
}

#[test]
fn config_starts_from_the_defaults() {
    let config: Config<u16> = Config::with_root(PathBuf::from("/opt/service"), 9);
    assert_eq!(config.address, "127.0.0.1:8080");
    assert!(config.keypair.is_none());
    assert_eq!(config.root, PathBuf::from("/opt/service"));
    assert_eq!(config.etc, 9);
}

fn args(list: &[&str]) -> Vec<String> {
    list.iter().map(|s| s.to_string()).collect()
}

#[test]
fn first_run_writes_both_files() {
    let plan = plan_setup(false, false, &args(&["service"]));
    assert_eq!(plan, SetupPlan { write_config: true, write_keypair: true, load: true });
}

#[test]
fn later_runs_write_nothing() {
    let plan = plan_setup(true, true, &args(&["service"]));
    assert_eq!(plan, SetupPlan { write_config: false, write_keypair: false, load: true });
    let plan = plan_setup(true, false, &args(&["service"]));
    assert_eq!(plan, SetupPlan { write_config: false, write_keypair: true, load: true });
    let plan = plan_setup(false, true, &args(&[]));
    assert_eq!(plan, SetupPlan { write_config: true, write_keypair: false, load: true });
}

#[test]
fn init_ends_the_start_after_writing() {
    let plan = plan_setup(false, false, &args(&["service", "init"]));
    assert_eq!(plan, SetupPlan { write_config: true, write_keypair: true, load: false });
    let plan = plan_setup(true, true, &args(&["service", "init", "more"]));
    assert!(!plan.load);
}

#[test]
fn init_counts_only_as_the_first_argument() {
    assert!(plan_setup(true, true, &args(&["init"])).load);
    assert!(plan_setup(true, true, &args(&["service", "run", "init"])).load);
    assert!(plan_setup(true, true, &args(&["service", "Init"])).load);
    assert!(plan_setup(true, true, &args(&["service", "init "])).load);
}

#[test]
fn fresh_keys_belong_together() {
    let keys = fresh_keys();
    assert_eq!(keys.public_text, Base64(keys.pair.0.verifying_key()).encode());
    assert_eq!(keys.object, keys.pair.to_members());
    assert_eq!(keys.object[1].value, keys.public_text);
    let back = Base64::<SigningKeyPair>::from_members(&keys.object);
    assert!(back == Ok(keys.pair));
}
