use airfry::credentials::{CredentialBackend, CredentialStore, SavedCredentials};
use airfry::paths::{
    config_path, default_credentials_path, default_socket_path, join, slider_config_path,
    tray_underscan_path,
};

#[test]
fn save_load_round_trip() {
    let pub_key = vec![0xABu8; 32];
    let seed = vec![0xCDu8; 32];

    let mut store = CredentialStore::new();
    assert!(store.is_empty());
    store.save("device-1", "pair-1", &pub_key, &seed);
    // Saving a restore token must preserve the pairing identity.
    store.save_restore_token("device-1", "restore-1");

    // The entries put into a fresh store.
    let mut reloaded = CredentialStore::new();
    for e in store.entries() {
        reloaded.put(&e.device_id, e.credentials.copy());
    }
    let creds = reloaded.lookup("device-1").expect("creds present after reload");
    assert!(creds.has_pairing_credentials());
    assert_eq!(creds.pairing_id, "pair-1");
    assert_eq!(creds.ed25519_public, pub_key);
    assert_eq!(creds.ed25519_seed, seed);
    assert_eq!(creds.restore_token.as_deref(), Some("restore-1"));

    let (got_pub, got_seed) = creds.ed25519_keys().expect("keys reconstruct");
    assert_eq!(got_pub, pub_key);
    assert_eq!(&got_seed[..], &seed[..]);

    // Unknown device looks up to None.
    assert!(reloaded.lookup("nope").is_none());
}

#[test]
fn token_only_entry_has_no_pairing() {
    let mut store = CredentialStore::new();
    store.save_restore_token("device-2", "restore-only");
    let creds = store.lookup("device-2").unwrap();
    assert!(!creds.has_pairing_credentials());
    assert_eq!(creds.restore_token.as_deref(), Some("restore-only"));
}

#[test]
fn backend_enum_parse() {
    let default = default_credentials_path(None, Some(b"/home/me"));
    // file backend defaults to the XDG path when -creds is absent.
    match CredentialBackend::parse("file", None, &default).unwrap() {
        CredentialBackend::File(p) => assert_eq!(p, default),
        CredentialBackend::Keyring => panic!("expected file backend"),
    }
    // file backend honours an explicit -creds path.
    let custom = b"/tmp/airfry-explicit/creds.json".to_vec();
    match CredentialBackend::parse("file", Some(&custom), &default).unwrap() {
        CredentialBackend::File(p) => assert_eq!(p, custom),
        CredentialBackend::Keyring => panic!("expected file backend"),
    }
    // keyring backend.
    assert!(matches!(
        CredentialBackend::parse("keyring", None, &default).unwrap(),
        CredentialBackend::Keyring
    ));
    // unknown backend errors.
    assert!(CredentialBackend::parse("bogus", None, &default).is_none());
}

#[test]
fn entries_are_kept_in_order() {
    let mut store = CredentialStore::new();
    for id in ["b", "a", "c", "b"] {
        store.save(id, "p", &[1; 32], &[2; 32]);
    }
    assert_eq!(store.len(), 3);
    let ids: Vec<&str> = store.entries().iter().map(|e| e.device_id.as_str()).collect();
    assert_eq!(ids, vec!["a", "b", "c"]);
}

#[test]
fn a_seed_of_another_length_is_no_key() {
    let mut c = SavedCredentials::default();
    assert!(!c.has_pairing_credentials());
    assert!(c.ed25519_keys().is_none());
    c.set_identity("p", &[1; 32], &[2; 31]);
    assert!(c.ed25519_keys().is_none());
    c.set_identity("p", &[1; 32], &[2; 32]);
    assert_eq!(c.ed25519_keys().unwrap().1, [2; 32]);
    c.set_restore_token("t");
    assert_eq!(c.copy().restore_token.as_deref(), Some("t"));
}

#[test]
fn default_socket_path_uses_xdg_runtime_dir() {
    assert_eq!(
        default_socket_path(Some(b"/run/user/1000")),
        b"/run/user/1000/airfry.sock".to_vec()
    );
    assert_eq!(default_socket_path(None), b"/tmp/airfry.sock".to_vec());
}

#[test]
fn paths_follow_the_environment() {
    assert_eq!(join(b"/a", b"b"), b"/a/b".to_vec());
    assert_eq!(join(b"/a/", b"b"), b"/a/b".to_vec());
    assert_eq!(join(b"", b"b"), b"b".to_vec());
    assert_eq!(
        config_path(Some(b"/cfg"), Some(b"/home/me")),
        Some(b"/cfg/airfry/config.json".to_vec())
    );
    assert_eq!(
        config_path(None, Some(b"/home/me")),
        Some(b"/home/me/.config/airfry/config.json".to_vec())
    );
    assert_eq!(config_path(None, None), None);
    assert_eq!(slider_config_path(None, None), b".config/airfry/config.json".to_vec());
    assert_eq!(slider_config_path(Some(b""), Some(b"/h")), b"/h/.config/airfry/config.json".to_vec());
    assert_eq!(
        tray_underscan_path(Some(b"/cfg"), None),
        Some(b"/cfg/airfry/underscan".to_vec())
    );
    assert_eq!(tray_underscan_path(None, None), None);
    assert_eq!(
        default_credentials_path(None, Some(b"/home/me")),
        b"/home/me/.config/airfry/credentials.json".to_vec()
    );
}
