use kimmy_api::audit::{
    is_write, mode, record, record_vectors, set_mode, Action, AuditMode, AuditRecord, Principal,
    Provider, INITIAL_MODE,
};

fn principal(user: &str) -> Principal {
    Principal {
        user: user.to_string(),
        display: None,
        roles: vec![],
        unauthenticated: false,
        federated: false,
    }
}

/// What one decision records, at `all`.
fn record_of(principal: &Principal) -> AuditRecord {
    record(AuditMode::All, principal, Action::Read, "sales", Some("orders"), true).unwrap()
}

#[test]
fn the_record_says_where_the_identity_came_from() {
    let local = record_of(&principal("root"));
    assert_eq!(local.user, "root");
    assert!(!local.unauthenticated);
    assert!(!local.federated);

    let federated = record_of(&Principal { federated: true, ..principal("root") });
    assert_eq!(federated.user, "root");
    assert!(federated.federated);
    assert!(!federated.unauthenticated);

    let no_auth = record_of(&Principal { unauthenticated: true, ..principal("root") });
    assert!(no_auth.unauthenticated);
    assert!(!no_auth.federated);
}

#[test]
fn the_display_name_appears_only_when_it_says_something_the_user_does_not() {
    let named = record_of(&Principal {
        federated: true,
        display: Some("ada@example.com".to_string()),
        ..principal("3f2a9c1e")
    });
    assert_eq!(named.user, "3f2a9c1e");
    assert_eq!(named.display.as_deref(), Some("ada@example.com"));

    for principal in [
        principal("root"),
        Principal { federated: true, ..principal("ada") },
        Principal { federated: true, display: Some("ada".to_string()), ..principal("ada") },
    ] {
        assert_eq!(record_of(&principal).display, None);
    }
}

#[test]
fn a_vector_configuration_is_recorded_with_its_destination_and_key_name() {
    let root = principal("root");
    let openai = Provider {
        name: "openai".to_string(),
        endpoint_host: Some("api.voyageai.com".to_string()),
        profile: None,
        api_key_env: Some("KIMMY_PROVIDER_VOYAGE".to_string()),
    };
    let line = record_vectors(&root, "ConfigureVectors", "shop", "docs", Some(&openai));
    assert_eq!(line.action, "ConfigureVectors");
    assert_eq!(line.user, "root");
    assert_eq!(line.db, "shop");
    assert_eq!(line.collection, "docs");
    assert_eq!(line.provider.as_deref(), Some("openai"));
    assert_eq!(line.endpoint_host.as_deref(), Some("api.voyageai.com"));
    assert_eq!(line.api_key_env.as_deref(), Some("KIMMY_PROVIDER_VOYAGE"));
    assert_eq!(line.profile, None, "no profile was named");

    // A profile records its name; the endpoint is the operator's.
    let named = Provider {
        name: "profile".to_string(),
        endpoint_host: None,
        profile: Some("corp".to_string()),
        api_key_env: None,
    };
    let line = record_vectors(&root, "ConfigureVectors", "shop", "docs", Some(&named));
    assert_eq!(line.provider.as_deref(), Some("profile"));
    assert_eq!(line.profile.as_deref(), Some("corp"));
    assert_eq!(line.endpoint_host, None);

    // A default endpoint is the default host, not an absence.
    let cohere = Provider {
        name: "cohere".to_string(),
        endpoint_host: Some("api.cohere.com".to_string()),
        profile: None,
        api_key_env: Some("COHERE_API_KEY".to_string()),
    };
    let line = record_vectors(&root, "ConfigureVectors", "shop", "docs", Some(&cohere));
    assert_eq!(line.endpoint_host.as_deref(), Some("api.cohere.com"));

    // Disabling names no provider.
    let line = record_vectors(&root, "DisableVectors", "shop", "docs", None);
    assert_eq!(line.action, "DisableVectors");
    assert_eq!(line.provider, None);
}

#[test]
fn audit_modes_parse_and_round_trip() {
    for name in ["off", "denials", "writes", "all"] {
        let mode = AuditMode::parse(name).unwrap();
        assert_eq!(mode.name(), name);
        assert_eq!(AuditMode::from_u8(mode.as_u8()), mode, "the stored encoding must survive");
    }
}

#[test]
fn audit_an_unknown_mode_lists_the_valid_ones() {
    let err = AuditMode::parse("verbose").unwrap_err();
    assert!(err.contains("verbose"), "{err}");
    assert!(err.contains("denials"), "the error should say what is valid: {err}");
}

#[test]
fn the_default_records_denials() {
    assert_eq!(AuditMode::default(), AuditMode::Denials);
}

#[test]
fn search_and_watch_are_reads_not_writes() {
    assert!(!is_write(Action::Search));
    assert!(!is_write(Action::Watch));
    assert!(!is_write(Action::Read));
    assert!(is_write(Action::Write));
    assert!(is_write(Action::Ddl), "creating or dropping a collection changes state");
    assert!(is_write(Action::Admin));
}

#[test]
fn each_mode_records_what_it_promises() {
    let who = principal("ada");
    let lines = |mode: AuditMode, action: Action, allowed: bool| {
        record(mode, &who, action, "sales", None, allowed).is_some()
    };
    for allowed in [true, false] {
        for action in [Action::Read, Action::Write] {
            assert!(!lines(AuditMode::Off, action, allowed));
            assert!(lines(AuditMode::All, action, allowed));
            assert_eq!(lines(AuditMode::Denials, action, allowed), !allowed);
        }
    }
    assert!(lines(AuditMode::Writes, Action::Write, true));
    assert!(!lines(AuditMode::Writes, Action::Read, true));
    assert!(lines(AuditMode::Writes, Action::Read, false));
}

#[test]
fn a_record_without_a_collection_names_them_all_and_joins_the_roles() {
    let who = Principal { roles: vec!["a".to_string(), "b".to_string()], ..principal("ada") };
    let line = record(AuditMode::Denials, &who, Action::Ddl, "sales", None, false).unwrap();
    assert_eq!(line.collection, "*");
    assert_eq!(line.roles, "a,b");
    assert_eq!(line.decision(), "deny");
    assert_eq!(line.action, Action::Ddl);
    assert_eq!(record_of(&who).decision(), "allow");
}

#[test]
fn the_mode_is_what_was_last_set() {
    let mut cell = INITIAL_MODE;
    assert_eq!(mode(cell), AuditMode::Denials);
    set_mode(&mut cell, AuditMode::Writes);
    assert_eq!(mode(cell), AuditMode::Writes);
    assert_eq!(mode(200), AuditMode::Denials);
}
