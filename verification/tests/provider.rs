use spotuify::exchange::{
    library_freshness_changed, playlist_version_changed, AccessUnavailable, FreshnessProbe,
    LibraryRequest, PageRequest, PlayRequest, PlaySource, RequestContext, RequestPriority,
    SearchRequest, TransportDevice,
};
use spotuify::failure::Failure;
use spotuify::media::MediaKind;
use spotuify::provider::{
    claim_target, version_conflict_message, LibraryCaps, ProviderCaps, ProviderCatalog, ProviderDescriptor, ProviderError,
    ProviderId, TargetClaim,
};
use spotuify::uri::{ResourceUri, UriScheme};

#[test]
fn provider_id_is_distinct_and_validated() {
    let id = ProviderId::new("apple-music").expect("valid provider id");
    assert_eq!(id.as_str(), "apple-music");
    assert!(ProviderId::new("Apple Music").is_err());
    assert!(ProviderId::new("").is_err());
    assert_eq!(
        ProviderId::new("Apple").unwrap_err().message(),
        "invalid provider id `Apple`; expected lowercase ASCII letters, digits, or hyphens"
    );
    assert_eq!("a1".parse::<ProviderId>().unwrap().clone().as_str(), "a1");
    assert_eq!(
        ProviderId::of_scheme(&UriScheme::fake()),
        ProviderId::new("fake").unwrap()
    );
}

#[test]
fn capability_defaults_are_disabled() {
    let caps = ProviderCaps::default();
    assert!(!caps.search.remote);
    assert_eq!(caps.search.max_query_chars, None);
    assert!(caps.transport.is_none());
    assert!(!caps.extras.radio);
    let library = LibraryCaps {
        read_kinds: vec![MediaKind::Track],
        save_kinds: vec![MediaKind::Album],
        follow_kinds: vec![MediaKind::Artist],
        ..Default::default()
    };
    assert!(library.can_read(&MediaKind::Track) && !library.can_read(&MediaKind::Album));
    assert!(library.can_save(&MediaKind::Album) && !library.can_save(&MediaKind::Track));
    assert!(library.can_follow(&MediaKind::Artist) && !library.can_follow(&MediaKind::Show));
}

#[test]
fn default_target_claim_only_owns_its_canonical_namespace() {
    let scheme = UriScheme::new("minimal").expect("valid URI scheme");
    assert!(matches!(
        claim_target(&scheme, "minimal:track:one"),
        TargetClaim::Resolved(uri) if uri.as_uri() == "minimal:track:one"
    ));
    assert_eq!(claim_target(&scheme, "other:track:one"), TargetClaim::NotMine);
    assert!(matches!(
        claim_target(&scheme, "minimal:not-a-kind:one"),
        TargetClaim::Invalid { .. }
    ));
    assert_eq!(claim_target(&scheme, "ordinary search"), TargetClaim::NotMine);
    assert!(matches!(
        claim_target(&scheme, "  minimal:track:one\n"),
        TargetClaim::Resolved(_)
    ));
    assert_eq!(
        claim_target(&scheme, "minimal:x"),
        TargetClaim::Invalid {
            message: "resource URI must have the form <scheme>:<kind>:<id>".to_string()
        }
    );
}

fn descriptor(id: &str, is_default: bool) -> ProviderDescriptor {
    ProviderDescriptor {
        id: ProviderId::new(id).unwrap(),
        uri_scheme: UriScheme::new(id).unwrap(),
        display_name: id.to_string(),
        capabilities: ProviderCaps::default(),
        is_default,
    }
}

#[test]
fn provider_catalog_default_identity_and_marker_must_agree() {
    let valid = ProviderCatalog {
        default_provider: Some(ProviderId::new("primary").unwrap()),
        providers: vec![descriptor("primary", true), descriptor("secondary", false)],
    };
    assert!(valid.validate().is_ok());

    let missing_marker = ProviderCatalog {
        default_provider: valid.default_provider.clone(),
        providers: vec![descriptor("primary", false)],
    };
    assert!(missing_marker.validate().is_err());

    let unexpected_marker = ProviderCatalog {
        default_provider: None,
        providers: vec![descriptor("primary", true)],
    };
    assert!(unexpected_marker.validate().is_err());

    let duplicate_markers = ProviderCatalog {
        default_provider: valid.default_provider,
        providers: vec![descriptor("primary", true), descriptor("secondary", true)],
    };
    assert!(duplicate_markers.validate().is_err());

    let duplicate_ids = ProviderCatalog {
        default_provider: None,
        providers: vec![
            descriptor("primary", false),
            ProviderDescriptor {
                id: ProviderId::new("primary").unwrap(),
                uri_scheme: UriScheme::new("other").unwrap(),
                display_name: "other".to_string(),
                capabilities: ProviderCaps::default(),
                is_default: false,
            },
        ],
    };
    assert!(duplicate_ids
        .validate()
        .unwrap_err()
        .contains("duplicate id"));

    let duplicate_schemes = ProviderCatalog {
        default_provider: None,
        providers: vec![
            descriptor("primary", false),
            ProviderDescriptor {
                id: ProviderId::new("other").unwrap(),
                uri_scheme: UriScheme::new("primary").unwrap(),
                display_name: "other".to_string(),
                capabilities: ProviderCaps::default(),
                is_default: false,
            },
        ],
    };
    assert!(duplicate_schemes
        .validate()
        .unwrap_err()
        .contains("duplicate URI scheme"));
}

#[test]
fn catalog_faults_are_spelled_out() {
    assert!(ProviderCatalog::default().validate().is_ok());
    let marked = ProviderCatalog {
        default_provider: None,
        providers: vec![descriptor("primary", true)],
    };
    assert_eq!(
        marked.validate().unwrap_err(),
        "provider catalog marks a default without default_provider"
    );
    let other = ProviderCatalog {
        default_provider: Some(ProviderId::new("ghost").unwrap()),
        providers: vec![descriptor("primary", true)],
    };
    assert_eq!(
        other.validate().unwrap_err(),
        "provider catalog default `ghost` must identify exactly one marked provider"
    );
}

#[test]
fn request_context_has_explicit_scheduling_lanes() {
    assert_eq!(
        RequestContext::background_sync().priority,
        RequestPriority::BackgroundSync
    );
    assert_eq!(
        RequestContext::playback_control().priority,
        RequestPriority::PlaybackControl
    );
    assert_eq!(
        RequestContext::foreground().priority,
        RequestPriority::Foreground
    );
    assert_eq!(RequestContext::default(), RequestContext::foreground());
    assert_eq!(RequestPriority::default(), RequestPriority::Foreground);
}

#[test]
fn provider_errors_classify_retry_and_auth_recovery() {
    assert!(ProviderError::Transient {
        status: Some(503),
        message: "busy".to_string(),
    }
    .is_retryable());
    assert!(ProviderError::Upstream {
        status: 500,
        message: "failed".to_string(),
    }
    .is_retryable());
    assert!(!ProviderError::Upstream {
        status: 400,
        message: "bad request".to_string(),
    }
    .is_retryable());
    assert!(ProviderError::AuthExpired.is_auth_error());
    assert!(ProviderError::AuthExpired.is_retryable());
    assert!(!ProviderError::Forbidden {
        operation: "search".to_string(),
    }
    .is_auth_error());
}

#[test]
fn open_outcomes_and_cache_answers() {
    let upstream = |status| ProviderError::Upstream {
        status,
        message: "x".to_string(),
    };
    assert!(upstream(599).mutation_outcome_is_indeterminate());
    assert!(!upstream(600).mutation_outcome_is_indeterminate());
    assert!(ProviderError::Network("x".to_string()).mutation_outcome_is_indeterminate());
    let limited = ProviderError::RateLimited {
        scope: None,
        retry_after_ms: None,
    };
    assert!(!limited.mutation_outcome_is_indeterminate());
    assert!(limited.saved_tracks_cache_fallback_allowed());
    assert!(upstream(500).saved_tracks_cache_fallback_allowed());
    assert!(!ProviderError::AuthRequired.saved_tracks_cache_fallback_allowed());
}

#[test]
fn provider_errors_are_spelled_out() {
    let text = |error: ProviderError| error.message();
    assert_eq!(
        text(ProviderError::unsupported("radio")),
        "provider operation `radio` is unsupported"
    );
    assert_eq!(
        text(ProviderError::RateLimited {
            scope: None,
            retry_after_ms: Some(1)
        }),
        "provider rate limited the request"
    );
    assert_eq!(
        text(ProviderError::AuthRequired),
        "provider authentication is required"
    );
    assert_eq!(
        text(ProviderError::AuthExpired),
        "provider authentication has expired"
    );
    assert_eq!(
        text(ProviderError::AuthRevoked),
        "provider authentication was revoked"
    );
    assert_eq!(
        text(ProviderError::Forbidden {
            operation: "x".to_string()
        }),
        "provider denied `x`"
    );
    assert_eq!(
        text(ProviderError::NoActiveDevice),
        "provider has no active playback device"
    );
    assert_eq!(
        text(ProviderError::invalid_input("limit", "too low")),
        "invalid provider input `limit`: too low"
    );
    assert_eq!(
        text(ProviderError::Network("down".to_string())),
        "provider network error: down"
    );
    assert_eq!(
        text(ProviderError::Transient {
            status: Some(503),
            message: "busy".to_string()
        }),
        "provider transient error (status Some(503)): busy"
    );
    assert_eq!(
        text(ProviderError::Transient {
            status: None,
            message: "busy".to_string()
        }),
        "provider transient error (status None): busy"
    );
    assert_eq!(
        text(ProviderError::Upstream {
            status: 502,
            message: "bad".to_string()
        }),
        "provider upstream error (HTTP 502): bad"
    );
    assert_eq!(
        text(ProviderError::Decode("x".to_string())),
        "provider response decode error: x"
    );
    assert_eq!(
        text(ProviderError::NotFound {
            resource: "x".to_string()
        }),
        "provider resource not found: x"
    );
    assert_eq!(
        text(ProviderError::SyncTokenExpired {
            reason: "old".to_string()
        }),
        "provider sync token expired: old"
    );
    assert_eq!(
        text(ProviderError::VersionConflict {
            expected: Some("a\"b".to_string()),
            actual: None
        }),
        "provider version conflict (expected Some(\"a\\\"b\"), actual None)"
    );
    assert_eq!(
        text(ProviderError::Provider("x".to_string())),
        "provider error: x"
    );
    assert_eq!(Failure::refused("no").message(), "no");
    assert_eq!(
        Failure::Provider(ProviderError::NoActiveDevice).message(),
        "provider has no active playback device"
    );
}

#[test]
fn play_request_rejects_invalid_ordered_sources() {
    let request = PlayRequest {
        start_uri: ResourceUri::parse("minimal:track:one").expect("valid URI"),
        source: PlaySource::Ordered(Vec::new()),
        device: TransportDevice::Active,
        position_ms: 0,
    };
    assert!(matches!(
        request.validate(),
        Err(ProviderError::InvalidInput { ref field, .. }) if field == "source"
    ));
    let ordered = PlayRequest {
        source: PlaySource::Ordered(vec![
            ResourceUri::parse("minimal:track:two").unwrap(),
            ResourceUri::parse("minimal:track:one").unwrap(),
        ]),
        ..request.clone()
    };
    assert!(ordered.validate().is_ok());
    let single = PlayRequest {
        source: PlaySource::Single,
        ..request
    };
    assert!(single.validate().is_ok());
}

#[test]
fn default_freshness_comparison_is_value_based() {
    assert!(!library_freshness_changed(
        &FreshnessProbe(vec![1]),
        &FreshnessProbe(vec![1])
    ));
    assert!(library_freshness_changed(
        &FreshnessProbe(vec![1]),
        &FreshnessProbe(vec![2])
    ));
    assert!(!playlist_version_changed(Some("v1"), Some("v1")));
    assert!(playlist_version_changed(Some("v1"), Some("v2")));
    // Without both tokens nothing proves that a playlist is unchanged.
    assert!(playlist_version_changed(None, Some("v1")));
    assert!(playlist_version_changed(None, None));
}

#[test]
fn page_requests_have_their_defaults() {
    assert_eq!(PageRequest::default(), PageRequest::new(50, 0));
    let page = PageRequest::with_cursor(5, 7, "next");
    assert_eq!(page.cursor.as_deref(), Some("next"));
    assert_eq!(page.clone(), page);
    assert_eq!(SearchRequest::default().kind, MediaKind::Track);
    assert_eq!(LibraryRequest::default().page, PageRequest::default());
    assert_eq!(AccessUnavailable::Private.label(), "Private");
    assert_eq!(
        AccessUnavailable::RegionRestricted.label(),
        format!("{:?}", AccessUnavailable::RegionRestricted)
    );
    assert_eq!(
        AccessUnavailable::SubscriptionRequired.label(),
        format!("{:?}", AccessUnavailable::SubscriptionRequired)
    );
    assert_eq!(
        AccessUnavailable::TemporarilyUnavailable.label(),
        format!("{:?}", AccessUnavailable::TemporarilyUnavailable)
    );
}

#[test]
fn conflicts_name_both_versions() {
    let quoted = Some("\"v1\"".to_string());
    assert_eq!(
        version_conflict_message(&quoted, &None),
        "provider version conflict (expected Some(\"v1\"), actual None)"
    );
}
