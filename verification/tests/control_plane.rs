use wsrx::flags::FeatureFlags;
use wsrx::scope::{
    AccessControlPlane, CheckResult, RequestOutcome, ScopeSettings, ScopeState,
};

fn flags_basic() -> FeatureFlags {
    FeatureFlags { basic: true, pingfall: false }
}

#[test]
fn check_unknown_origin_is_forbidden() {
    let acp = AccessControlPlane::new();
    assert!(matches!(acp.check("https://a.example"), CheckResult::Forbidden));
    assert!(matches!(acp.check(""), CheckResult::Forbidden));
}

#[test]
fn request_creates_pending_record() {
    let mut acp = AccessControlPlane::new();
    let outcome = acp.request(
        "https://a.example",
        String::from("site a"),
        flags_basic(),
        ScopeSettings::none(),
    );
    assert!(matches!(outcome, RequestOutcome::Created));
    assert!(matches!(acp.check("https://a.example"), CheckResult::Pending));
    let record = acp.get("https://a.example").unwrap();
    assert_eq!(record.host, "https://a.example");
    assert_eq!(record.name, "site a");
    assert!(matches!(record.state, ScopeState::Pending));
}

#[test]
fn request_empty_name_defaults_to_origin() {
    let mut acp = AccessControlPlane::new();
    acp.request("https://a.example", String::new(), flags_basic(), ScopeSettings::none());
    let record = acp.get("https://a.example").unwrap();
    assert_eq!(record.name, "https://a.example");
}

#[test]
fn request_is_idempotent_per_host() {
    let mut acp = AccessControlPlane::new();
    let first = acp.request(
        "https://a.example",
        String::from("one"),
        flags_basic(),
        ScopeSettings::none(),
    );
    assert!(matches!(first, RequestOutcome::Created));
    let second = acp.request(
        "https://a.example",
        String::from("two"),
        flags_basic(),
        ScopeSettings::none(),
    );
    assert!(matches!(second, RequestOutcome::AlreadyPending));
    let record = acp.get("https://a.example").unwrap();
    assert_eq!(record.name, "one");
    assert_eq!(acp.snapshot().len(), 1);
}

#[test]
fn approve_moves_pending_to_allowed_and_is_idempotent() {
    let mut acp = AccessControlPlane::new();
    acp.request("https://a.example", String::new(), flags_basic(), ScopeSettings::none());
    assert!(acp.approve("https://a.example").is_ok());
    assert!(matches!(acp.check("https://a.example"), CheckResult::Allowed));
    assert!(acp.approve("https://a.example").is_ok());
    assert!(matches!(acp.check("https://a.example"), CheckResult::Allowed));
}

#[test]
fn request_on_allowed_scope_does_not_revert_it() {
    let mut acp = AccessControlPlane::new();
    acp.request("https://a.example", String::new(), flags_basic(), ScopeSettings::none());
    acp.approve("https://a.example").unwrap();
    let outcome = acp.request(
        "https://a.example",
        String::from("again"),
        flags_basic(),
        ScopeSettings::none(),
    );
    assert!(matches!(outcome, RequestOutcome::AlreadyAllowed));
    assert!(matches!(acp.check("https://a.example"), CheckResult::Allowed));
}

#[test]
fn approve_unknown_origin_fails() {
    let mut acp = AccessControlPlane::new();
    assert!(acp.approve("https://nobody.example").is_err());
}

#[test]
fn update_revises_metadata_and_keeps_state() {
    let mut acp = AccessControlPlane::new();
    acp.request("https://a.example", String::from("old"), flags_basic(), ScopeSettings::none());
    let all = FeatureFlags { basic: true, pingfall: true };
    assert!(acp.update("https://a.example", String::from("new"), all, ScopeSettings::none()).is_ok());
    let record = acp.get("https://a.example").unwrap();
    assert_eq!(record.name, "new");
    assert!(record.features.pingfall);
    assert!(matches!(record.state, ScopeState::Pending));
    assert!(acp
        .update("https://b.example", String::from("x"), flags_basic(), ScopeSettings::none())
        .is_err());
}

#[test]
fn revoke_deletes_the_record() {
    let mut acp = AccessControlPlane::new();
    acp.request("https://a.example", String::new(), flags_basic(), ScopeSettings::none());
    let removed = acp.revoke("https://a.example").unwrap();
    assert_eq!(removed.host, "https://a.example");
    assert!(matches!(acp.check("https://a.example"), CheckResult::Forbidden));
    assert!(acp.revoke("https://a.example").is_err());
}

#[test]
fn cors_allows_suffix_of_allowed_scope_only() {
    let mut acp = AccessControlPlane::new();
    acp.request("a.example", String::new(), flags_basic(), ScopeSettings::none());
    assert!(!acp.cors_allows("https://a.example"));
    acp.approve("a.example").unwrap();
    assert!(acp.cors_allows("https://a.example"));
    assert!(acp.cors_allows("a.example"));
    assert!(acp.cors_allows("evil-a.example"));
    assert!(!acp.cors_allows("https://b.example"));
}

#[test]
fn from_scopes_keeps_first_record_per_host() {
    let mut list = Vec::new();
    for (host, name) in [("a", "first"), ("b", "b"), ("a", "second")] {
        let mut acp = AccessControlPlane::new();
        acp.request(host, String::from(name), flags_basic(), ScopeSettings::none());
        list.push(acp.get(host).unwrap());
    }
    let acp = AccessControlPlane::from_scopes(list);
    let all = acp.snapshot();
    assert_eq!(all.len(), 2);
    assert_eq!(acp.get("a").unwrap().name, "first");
    assert_eq!(acp.get("b").unwrap().name, "b");
}
