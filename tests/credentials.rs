use timer_for_harvest::credential::{AuthorizationError, Harvest, RENEWAL_MARGIN};

fn credential(expires_at: u64) -> Harvest {
    Harvest { token: "t".to_string(), account_id: 1, expires_at }
}

#[test]
fn usable_only_beyond_the_margin() {
    let h = credential(1_000_000);
    assert_eq!(RENEWAL_MARGIN, 24 * 60 * 60);
    assert!(h.is_usable(1_000_000 - RENEWAL_MARGIN - 1));
    assert!(!h.is_usable(1_000_000 - RENEWAL_MARGIN));
    assert!(!h.is_usable(1_000_000));
    assert!(!h.is_usable(u64::MAX));
    assert!(h.is_usable(0));
}

#[test]
fn stored_credential_kept_only_when_usable() {
    let kept = Harvest::new(Some(credential(500_000)), 100_000).unwrap();
    assert_eq!(500_000, kept.expires_at);
    assert!(Harvest::new(Some(credential(500_000)), 500_000 - RENEWAL_MARGIN).is_none());
    assert!(Harvest::new(None, 0).is_none());
}

#[test]
fn credential_from_redirect() {
    let line = "GET /?expires_in=3600&access_token=abc&scope=harvest%3A123 HTTP/1.1";
    let h = Harvest::from_redirect(line, 1000).unwrap();
    assert_eq!("abc", h.token);
    assert_eq!(123, h.account_id);
    assert_eq!(4600, h.expires_at);
}

#[test]
fn credential_errors() {
    assert_eq!(Err(AuthorizationError::MalformedRequest), Harvest::from_redirect("garbage", 0).map(|h| h.account_id));
    assert_eq!(
        Err(AuthorizationError::MissingParameter),
        Harvest::from_redirect("GET /?access_token=abc&scope=harvest%3A123", 0).map(|h| h.account_id)
    );
    assert_eq!(
        Err(AuthorizationError::InvalidAccountId),
        Harvest::from_redirect("GET /?access_token=a&scope=h%3A99999999999&expires_in=1", 0).map(|h| h.account_id)
    );
    assert_eq!(
        Err(AuthorizationError::InvalidExpiry),
        Harvest::from_redirect("GET /?access_token=a&scope=h%3A9&expires_in=soon", 0).map(|h| h.account_id)
    );
    assert_eq!(
        Err(AuthorizationError::InvalidExpiry),
        Harvest::from_redirect("GET /?access_token=a&scope=h%3A9&expires_in=10", u64::MAX - 5).map(|h| h.account_id)
    );
}

#[test]
fn user_agent_names_the_client() {
    assert_eq!(
        "Timer for Harvest 0.1.0 (https://github.com/frenkel/timer-for-harvest)",
        Harvest::user_agent()
    );
}
