use kimmy_api::codec::to_text;
use kimmy_api::federation::{
    metadata_path_for, metadata_url_for, Federation, Notice, Verified, MIN_LIFETIME_WARNING_INTERVAL_MS,
    MIN_REFETCH_INTERVAL_MS, PROTECTED_RESOURCE_METADATA_PATH,
};

fn federation() -> Federation {
    Federation::new("https://auth.example.com".to_string(), None, false)
}

#[test]
fn an_unknown_key_id_asks_for_a_refetch() {
    let mut federation = federation();
    assert!(matches!(
        federation.verify(&Verified::UnknownSigningKey, 0),
        Notice::RequestRefresh
    ));
}

#[test]
fn repeated_unknown_key_ids_do_not_repeat_the_refetch() {
    let mut federation = federation();
    let asked = (0..50)
        .filter(|n| {
            matches!(
                federation.verify(&Verified::UnknownSigningKey, *n),
                Notice::RequestRefresh
            )
        })
        .count();
    assert_eq!(asked, 1, "the other forty-nine must not each become a request to the provider");
    assert!(matches!(
        federation.verify(&Verified::UnknownSigningKey, MIN_REFETCH_INTERVAL_MS),
        Notice::RequestRefresh
    ));
}

#[test]
fn a_flood_of_lifetime_refusals_is_one_warning() {
    let mut federation = federation();
    assert!(federation.take_lifetime_warning_permit(0), "the first one has to be logged");
    for _ in 0..1_000 {
        assert!(
            !federation.take_lifetime_warning_permit(0),
            "a refusal inside the interval must not repeat the line"
        );
    }
    assert!(!federation.take_lifetime_warning_permit(MIN_LIFETIME_WARNING_INTERVAL_MS - 1));
    assert!(federation.take_lifetime_warning_permit(MIN_LIFETIME_WARNING_INTERVAL_MS));
}

#[test]
fn the_lifetime_warning_and_the_refetch_nudge_do_not_silence_each_other() {
    let mut federation = federation();
    for _ in 0..10 {
        let _ = federation.verify(&Verified::UnknownSigningKey, 0);
    }
    assert!(
        federation.take_lifetime_warning_permit(0),
        "the nudge limiter must not have consumed the warning's permit"
    );
}

#[test]
fn installing_a_key_set_keeps_the_settings() {
    let mut federation = federation();
    assert_eq!(federation.key_count(), 0);

    federation.install_keys(0);
    assert_eq!(federation.issuer(), "https://auth.example.com");
    federation.install_keys(3);
    assert_eq!(federation.key_count(), 3);
    assert_eq!(federation.issuer(), "https://auth.example.com");
    assert!(!federation.allow_federated_admin());
}

#[test]
fn a_lifetime_refusal_warns_once_and_a_settled_token_says_nothing() {
    let mut federation = federation();
    assert!(matches!(federation.verify(&Verified::Settled, 0), Notice::Nothing));
    let over = Verified::TokenLifetimeExceeded { max_secs: 3_600, lifetime_secs: 7_200 };
    match federation.verify(&over, 0) {
        Notice::Warn(text) => {
            assert!(text.contains("3600"), "{text}");
            assert!(text.contains("7200"), "{text}");
        }
        other => panic!("expected a warning, got {other:?}"),
    }
    let unbounded = Verified::TokenLifetimeUnbounded { max_secs: 3_600 };
    assert!(matches!(federation.verify(&unbounded, 0), Notice::Nothing), "inside the interval");
    assert!(matches!(
        federation.verify(&unbounded, MIN_LIFETIME_WARNING_INTERVAL_MS),
        Notice::Warn(_)
    ));
}

#[test]
fn the_metadata_document_stands_between_host_and_path() {
    assert_eq!(metadata_path_for("https://db.example.com"), PROTECTED_RESOURCE_METADATA_PATH);
    assert_eq!(
        metadata_path_for("https://db.example.com/tenant"),
        "/.well-known/oauth-protected-resource/tenant"
    );
    assert_eq!(
        metadata_url_for("https://db.example.com/tenant"),
        "https://db.example.com/.well-known/oauth-protected-resource/tenant"
    );
    assert_eq!(
        metadata_url_for("https://db.example.com"),
        "https://db.example.com/.well-known/oauth-protected-resource"
    );
}

#[test]
fn the_metadata_names_the_resource_and_its_provider() {
    let f = Federation::new(
        "https://auth.example.com".to_string(),
        Some("https://db.example.com".to_string()),
        true,
    );
    assert!(f.allow_federated_admin());
    assert_eq!(f.resource_identifier().as_deref(), Some("https://db.example.com"));
    assert_eq!(
        f.resource_metadata_url().as_deref(),
        Some("https://db.example.com/.well-known/oauth-protected-resource")
    );
    assert_eq!(f.resource_metadata_path().as_deref(), Some(PROTECTED_RESOURCE_METADATA_PATH));
    let text = to_text(&f.protected_resource_metadata().unwrap());
    assert!(text.contains("\"resource\":\"https://db.example.com\""), "{text}");
    assert!(text.contains("\"https://auth.example.com\""), "{text}");
    assert!(federation().protected_resource_metadata().is_none());
    assert!(federation().resource_metadata_url().is_none());
}
