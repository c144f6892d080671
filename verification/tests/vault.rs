use rate_governor::vault::{DiscordIdentity, Vault};

fn identity(id: &str, token: &str, is_oauth: bool) -> DiscordIdentity {
    DiscordIdentity {
        id: id.to_string(),
        username: format!("user-{}", id),
        token: token.to_string(),
        is_oauth,
    }
}

#[test]
fn credentials_round_trip() {
    let mut v = Vault::new();
    v.set_credential("client_id", "abc").unwrap();
    v.set_credential("client_secret", "SECRET-REDACTED").unwrap();
    assert_eq!(v.get_credential("client_id").unwrap(), "abc");
    assert_eq!(v.get_credential("client_secret").unwrap(), "SECRET-REDACTED");
}

#[test]
fn unknown_credential_key_is_rejected() {
    let mut v = Vault::new();
    let err = v.set_credential("api_key", "x").unwrap_err();
    assert_eq!(err.user_message, "Invalid credential key.");
    assert!(v.get_credential("client_id").is_err());
}

#[test]
fn missing_credential_reported() {
    let v = Vault::new();
    let err = v.get_credential("client_id").unwrap_err();
    assert_eq!(err.error_code, "credentials_missing");
    let err = v.get_credential("nonsense").unwrap_err();
    assert_eq!(err.error_code, "credentials_missing");
}

#[test]
fn save_identity_makes_it_active() {
    let mut v = Vault::new();
    v.save_identity(identity("1", "tok-1", false));
    let t = v.get_active_token().unwrap();
    assert_eq!(t.token, "tok-1");
    assert!(!t.is_oauth);
}

#[test]
fn saving_same_id_replaces_previous_entry() {
    let mut v = Vault::new();
    v.save_identity(identity("1", "old-token", false));
    v.save_identity(identity("2", "other", true));
    v.save_identity(identity("1", "new-token", true));
    let ids = v.list_identities();
    assert_eq!(ids.len(), 2);
    assert_eq!(ids[0].id, "2");
    assert_eq!(ids[1].id, "1");
    assert_eq!(ids[1].token, "new-token");
    let t = v.get_active_token().unwrap();
    assert_eq!(t.token, "new-token");
    assert!(t.is_oauth);
}

#[test]
fn no_identity_means_no_session() {
    let v = Vault::new();
    let err = v.get_active_token().unwrap_err();
    assert_eq!(err.error_code, "no_session");
}

#[test]
fn removing_active_identity_ends_session() {
    let mut v = Vault::new();
    v.save_identity(identity("1", "tok-1", false));
    v.save_identity(identity("2", "tok-2", false));
    v.remove_identity("2");
    let err = v.get_active_token().unwrap_err();
    assert_eq!(err.error_code, "no_session");
    let ids = v.list_identities();
    assert_eq!(ids.len(), 1);
    assert_eq!(ids[0].id, "1");
}

#[test]
fn removing_inactive_identity_keeps_session() {
    let mut v = Vault::new();
    v.save_identity(identity("1", "tok-1", false));
    v.save_identity(identity("2", "tok-2", true));
    v.remove_identity("1");
    let t = v.get_active_token().unwrap();
    assert_eq!(t.token, "tok-2");
    assert!(t.is_oauth);
}

#[test]
fn list_identities_copies_all_entries() {
    let mut v = Vault::new();
    v.save_identity(identity("1", "a", false));
    v.save_identity(identity("2", "b", true));
    let ids = v.list_identities();
    assert_eq!(ids.len(), 2);
    assert_eq!(ids[0].username, "user-1");
    assert_eq!(ids[1].username, "user-2");
}

#[test]
fn lookup_finds_saved_identity() {
    let mut v = Vault::new();
    v.save_identity(identity("1", "tok-1", false));
    v.save_identity(identity("2", "tok-2", true));
    let found = v.lookup_identity("1").unwrap();
    assert_eq!(found.token, "tok-1");
    let err = v.lookup_identity("3").unwrap_err();
    assert_eq!(err.user_message, "Identity not found.");
}
