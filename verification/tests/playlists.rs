use spotuify::exchange::{
    AccessOutcome, AccessUnavailable, Mutation, PlaylistItemRef,
};
use spotuify::failure::Failure;
use spotuify::media::{MediaItem, MediaKind, Playlist};
use spotuify::playlist_plans::{
    build_playlist_remove_plan, check_image_size, classify_add_failure, decode_playlist_image,
    decoded_image, populate_created_playlist, removal_pre_state, removal_reversal,
    rollback_created_playlist, rollback_population, select_playlist_remove_items,
    transfer_reversal, unreadable_playlist, AddFailure, AddOutcome, CreationFailure,
    PopulateStep, RemovedItem, ReversalPlan, RollbackOutcome,
};
use spotuify::playlists::{
    check_playlist_owner, check_returned_playlist, looked_up_playlist, named_playlist,
    normalize_provider_playlist_list, observed_version, plan_playlist_lookup,
    playlist_resource_for_provider, preflight_playlist_add_items, preflight_playlist_creation,
    preflight_playlist_item_uri, preflight_playlist_remove_items, require_creation_uris,
    resolve_playlist, PlaylistLookup, MAX_IMAGE_BASE64_BYTES,
};
use spotuify::provider::{ProviderError, ProviderId};
use spotuify::uri::{ResourceUri, UriScheme};

fn id(text: &str) -> ProviderId {
    ProviderId::new(text).unwrap()
}

fn scheme() -> UriScheme {
    UriScheme::fake()
}

fn uri(text: &str) -> ResourceUri {
    ResourceUri::parse(text).unwrap()
}

fn item(uri: &str) -> MediaItem {
    MediaItem {
        uri: uri.to_string(),
        kind: MediaKind::Track,
        ..Default::default()
    }
}

fn playlist(id: &str, name: &str) -> Playlist {
    Playlist {
        id: id.to_string(),
        name: name.to_string(),
        owner: "Owner".to_string(),
        tracks_total: 3,
        image_url: None,
        version_token: Some("v1".to_string()),
    }
}

fn refused_field(failure: &Failure) -> Option<&str> {
    match failure {
        Failure::Provider(ProviderError::InvalidInput { field, .. }) => Some(field),
        _ => None,
    }
}

#[test]
fn playlist_remove_selection_preserves_requested_multiplicity_and_exact_positions() {
    let current = vec![
        item("fake:track:one"),
        item("fake:track:two"),
        item("fake:track:one"),
    ];
    let requested = vec![uri("fake:track:one"), uri("fake:track:one")];

    let (items, removed) = select_playlist_remove_items(&requested, &current).unwrap();
    assert_eq!(items.len(), 2);
    assert_eq!(items[0].positions, vec![0]);
    assert_eq!(items[1].positions, vec![2]);
    assert!(items.iter().all(|item| !item.positions.is_empty()));
    assert_eq!(
        removed
            .iter()
            .map(|item| (item.uri.clone(), item.position))
            .collect::<Vec<_>>(),
        vec![
            ("fake:track:one".to_string(), 0),
            ("fake:track:one".to_string(), 2),
        ]
    );

    let missing = vec![
        requested[0].clone(),
        requested[0].clone(),
        requested[0].clone(),
    ];
    let error = select_playlist_remove_items(&missing, &current).unwrap_err();
    assert_eq!(refused_field(&error), Some("uris"));
}

#[test]
fn definite_playlist_population_failure_rolls_back_created_playlist() {
    let created = uri("fake:playlist:created");
    let error = ProviderError::Forbidden {
        operation: "add".to_string(),
    };
    let kind = classify_add_failure(Some(&error), false);
    assert_eq!(kind, AddFailure::Definite);
    let step = populate_created_playlist(
        &created,
        &AddOutcome::Failed {
            kind,
            error: error.message(),
        },
    );
    assert_eq!(step, PopulateStep::RollBack);
    let failure = rollback_population(&created, &error.message(), &RollbackOutcome::Undone);
    assert!(matches!(
        failure,
        CreationFailure::RolledBack { message } if message.contains("rolled back")
    ));
}

#[test]
fn open_outcomes_keep_the_playlist() {
    let created = uri("fake:playlist:created");
    let network = ProviderError::Network("down".to_string());
    assert_eq!(
        classify_add_failure(Some(&network), true),
        AddFailure::Indeterminate
    );
    assert_eq!(classify_add_failure(None, true), AddFailure::Partial);
    assert_eq!(classify_add_failure(None, false), AddFailure::Definite);
    let failed = |kind| AddOutcome::Failed {
        kind,
        error: "x".to_string(),
    };
    assert_eq!(
        populate_created_playlist(&created, &failed(AddFailure::Indeterminate)),
        PopulateStep::Keep {
            message: "playlist `fake:playlist:created` was created, but adding items had an indeterminate outcome: x; inspect the playlist before retrying".to_string()
        }
    );
    assert!(matches!(
        populate_created_playlist(&created, &AddOutcome::TimedOut),
        PopulateStep::Keep { message } if message.contains("timed out")
    ));
    assert_eq!(
        populate_created_playlist(&created, &failed(AddFailure::Partial)),
        PopulateStep::PassOn
    );
    assert_eq!(
        populate_created_playlist(&created, &AddOutcome::Applied),
        PopulateStep::Done
    );
}

#[test]
fn failed_rollbacks_are_reported() {
    let created = uri("fake:playlist:created");
    let failed = RollbackOutcome::Failed {
        error: "y".to_string(),
    };
    assert_eq!(
        rollback_population(&created, "x", &failed),
        CreationFailure::Retained {
            message: "playlist `fake:playlist:created` remains empty: adding items failed (x) and rollback failed (y); delete it manually before retrying".to_string()
        }
    );
    assert!(matches!(
        rollback_population(&created, "x", &RollbackOutcome::TimedOut),
        CreationFailure::Retained { .. }
    ));
    assert_eq!(
        rollback_created_playlist(&created, "caching", "x", &RollbackOutcome::Undone),
        CreationFailure::RolledBack {
            message: "playlist creation was rolled back after caching failed: x".to_string()
        }
    );
    assert_eq!(
        rollback_created_playlist(&created, "caching", "x", &failed),
        CreationFailure::Retained {
            message: "playlist `fake:playlist:created` remains: caching failed (x) and rollback failed (y); delete it manually before retrying".to_string()
        }
    );
    assert_eq!(
        rollback_created_playlist(&created, "caching", "x", &RollbackOutcome::TimedOut),
        CreationFailure::Retained {
            message: "playlist `fake:playlist:created` may remain: caching failed (x) and rollback timed out; inspect/delete it manually before retrying".to_string()
        }
    );
}

#[test]
fn playlists_are_resolved() {
    let all = [
        playlist("fake:playlist:one", "Mix"),
        playlist("fake:playlist:two", "Focus"),
    ];
    let found = |value: &str| resolve_playlist(&all, value).map(|p| p.id);
    assert_eq!(found("fake:playlist:two"), Ok("fake:playlist:two".to_string()));
    assert_eq!(found("FOCUS"), Ok("fake:playlist:two".to_string()));
    assert_eq!(found("one"), Ok("fake:playlist:one".to_string()));
    assert_eq!(
        found("three").unwrap_err().message(),
        "no playlist matching `three`"
    );
}

#[test]
fn playlists_belong_to_their_provider() {
    let resource = |value: &str| playlist_resource_for_provider(&id("fake"), &scheme(), value);
    assert_eq!(resource("one").unwrap().as_uri(), "fake:playlist:one");
    assert_eq!(
        resource("fake:playlist:one").unwrap().as_uri(),
        "fake:playlist:one"
    );
    assert_eq!(
        refused_field(&resource("other:playlist:one").unwrap_err()),
        Some("playlist")
    );
    assert_eq!(
        refused_field(&resource("fake:track:one").unwrap_err()),
        Some("playlist")
    );
    assert!(matches!(resource("no id"), Err(Failure::Uri(_))));
    let normal =
        normalize_provider_playlist_list(&id("fake"), &scheme(), &[playlist("one", "Mix")])
            .unwrap();
    assert_eq!(normal[0].id, "fake:playlist:one");
    assert_eq!(normal[0].name, "Mix");
    assert!(normalize_provider_playlist_list(
        &id("fake"),
        &scheme(),
        &[playlist("one", "Mix"), playlist("x:track:y", "Bad")]
    )
    .is_err());
    let asked = uri("fake:playlist:one");
    assert!(check_returned_playlist(&id("fake"), &asked, &normal[0]).is_ok());
    assert_eq!(
        check_returned_playlist(&id("fake"), &asked, &playlist("z", ""))
            .unwrap_err()
            .message(),
        "invalid provider input `playlist`: provider fake returned playlist `z` for requested `fake:playlist:one`"
    );
    assert!(check_playlist_owner(None, &id("fake"), &scheme()).is_ok());
    assert!(check_playlist_owner(Some(&id("fake")), &id("fake"), &scheme()).is_ok());
    assert_eq!(
        check_playlist_owner(Some(&id("x")), &id("fake"), &scheme())
            .unwrap_err()
            .message(),
        "invalid provider input `provider`: provider `x` conflicts with playlist URI scheme `fake` owned by `fake`"
    );
    let version = |text: &str| Some(text.to_string());
    assert_eq!(observed_version(true, version("a"), version("b")), version("a"));
    assert_eq!(observed_version(true, None, version("b")), version("b"));
    assert_eq!(observed_version(false, version("a"), version("b")), version("b"));
}

#[test]
fn items_are_checked_before_writing() {
    let texts = |all: &[&str]| all.iter().map(|t| t.to_string()).collect::<Vec<_>>();
    let checked = |value: &str| preflight_playlist_item_uri(&id("fake"), &scheme(), value);
    assert!(checked("fake:track:a").is_ok());
    assert!(checked("fake:episode:a").is_ok());
    assert_eq!(
        checked("fake:album:a").unwrap_err().message(),
        "invalid provider input `uris`: playlist items must be track or episode URIs, got album"
    );
    assert_eq!(
        checked("spotify:track:a").unwrap_err().message(),
        "invalid provider input `uri`: resource spotify:track:a belongs to `spotify`, not provider fake (`fake`)"
    );
    let add = |all: &[&str]| preflight_playlist_add_items(&id("fake"), &scheme(), &texts(all));
    assert_eq!(add(&[]).unwrap_err().message(), "no track URIs to add");
    assert!(add(&["fake:track:a", "x"]).is_err());
    let preflight = add(&["fake:track:a", "fake:track:b"]).unwrap();
    assert_eq!(preflight.items.len(), 2);
    assert_eq!(preflight.items[1].uri.as_uri(), "fake:track:b");
    assert!(matches!(
        preflight.check,
        Mutation::PlaylistAdd { playlist_uri, .. }
            if playlist_uri.as_uri() == "fake:playlist:preflight"
    ));
    let remove = |all: &[&str]| preflight_playlist_remove_items(&id("fake"), &scheme(), &texts(all));
    assert_eq!(remove(&[]).unwrap_err().message(), "no track URIs to remove");
    let preflight = remove(&["fake:track:a"]).unwrap();
    // A check never stands for removing every occurrence.
    assert!(matches!(
        preflight.check,
        Mutation::PlaylistRemove { items, .. }
            if items == [PlaylistItemRef { uri: uri("fake:track:a"), positions: vec![0] }]
    ));
}

#[test]
fn creations_are_checked_before_writing() {
    let tracks = ["fake:track:track-1".to_string()];
    let plan =
        preflight_playlist_creation(&scheme(), "Focus", Some("Deep work"), &tracks).unwrap();
    assert!(matches!(
        plan.create,
        Mutation::PlaylistCreate {
            description: Some(ref description),
            ..
        } if description == "Deep work"
    ));
    // What starts with items has to be undoable before anything is written.
    assert_eq!(plan.checks.len(), 3);
    assert!(matches!(plan.checks[1], Mutation::PlaylistAdd { .. }));
    assert!(matches!(plan.checks[2], Mutation::PlaylistUnfollow { .. }));
    let error =
        preflight_playlist_creation(&scheme(), "   ", Some("Deep work"), &tracks).unwrap_err();
    assert_eq!(refused_field(&error), Some("name"));
    let plan = preflight_playlist_creation(&scheme(), "Focus", None, &[]).unwrap();
    assert_eq!(plan.checks.len(), 1);
    assert!(preflight_playlist_creation(
        &scheme(),
        "Focus",
        None,
        &["fake:album:a".to_string()]
    )
    .unwrap_err()
    .message()
    .contains("must be track URIs"));
    assert!(require_creation_uris(&tracks).is_ok());
    assert!(require_creation_uris(&[]).is_err());
}

#[test]
fn removals_are_planned_and_undone() {
    let current = [
        item("fake:track:one"),
        item("fake:track:two"),
        item("fake:track:one"),
    ];
    let requested = [uri("fake:track:two"), uri("fake:track:one")];
    let plan_with = |version: Option<&str>, provider: &str| {
        let mut resolved = playlist("fake:playlist:p", "P");
        resolved.version_token = version.map(str::to_string);
        build_playlist_remove_plan(
            &id("fake"),
            id(provider),
            true,
            resolved,
            uri("fake:playlist:p"),
            &requested,
            &current,
        )
    };
    let plan = plan_with(Some("v1"), "fake").unwrap();
    assert_eq!(plan.mutation_items[0].positions, [1]);
    assert_eq!(plan.mutation_items[1].positions, [0]);
    let removed = vec![
        RemovedItem {
            uri: "fake:track:one".to_string(),
            position: 0,
        },
        RemovedItem {
            uri: "fake:track:two".to_string(),
            position: 1,
        },
    ];
    assert_eq!(plan.removed_items, removed);
    assert!(matches!(
        plan.mutation(),
        Mutation::PlaylistRemove { expected_version: Some(version), .. } if version == "v1"
    ));
    assert_eq!(
        refused_field(&plan_with(Some("v1"), "other").unwrap_err()),
        Some("provider")
    );
    assert!(plan_with(None, "fake")
        .unwrap_err()
        .message()
        .contains("omitted one for fake:playlist:p"));
    assert_eq!(
        removal_reversal(&plan, true, Some("v2".to_string())),
        Ok(ReversalPlan::PlaylistAddAtPositions {
            playlist_id: "fake:playlist:p".to_string(),
            items: removed,
            version_token: Some("v2".to_string()),
        })
    );
    assert!(removal_reversal(&plan, true, None).is_err());
    assert!(matches!(
        removal_reversal(&plan, false, None),
        Ok(ReversalPlan::NotReversible { .. })
    ));
    assert!(matches!(
        transfer_reversal(Some("d".to_string()), &id("fake")),
        ReversalPlan::TransferToPriorDevice { device_id, .. } if device_id == "d"
    ));
    assert!(matches!(
        transfer_reversal(None, &id("fake")),
        ReversalPlan::NotReversible { .. }
    ));
}

#[test]
fn covers_are_decoded() {
    assert_eq!(decode_playlist_image("aGVsbG8="), Ok(b"hello".to_vec()));
    let error = decode_playlist_image("aGVsbG8").unwrap_err();
    assert_eq!(refused_field(&error), Some("image_base64"));
    assert!(error.message().contains("malformed base64: "));
    assert_eq!(
        decoded_image(Err("bad".to_string())).unwrap_err().message(),
        "invalid provider input `image_base64`: malformed base64: bad"
    );
    assert_eq!(decoded_image(Ok(vec![1])), Ok(vec![1]));
    assert!(check_image_size("").is_err());
    assert!(check_image_size("a").is_ok());
    assert!(check_image_size(&"a".repeat(MAX_IMAGE_BASE64_BYTES)).is_ok());
    assert!(check_image_size(&"a".repeat(MAX_IMAGE_BASE64_BYTES + 1))
        .unwrap_err()
        .message()
        .contains("encoded image is 262145 bytes"));
}

#[test]
fn unreadable_playlists_are_reported() {
    let failure = unreadable_playlist(&uri("fake:playlist:p"), AccessUnavailable::Private);
    assert_eq!(
        failure.message(),
        "provider denied `read playlist fake:playlist:p items (Private)`"
    );
    assert!(removal_pre_state(AccessOutcome::Available(vec![item("x")])).is_ok());
    assert!(matches!(
        removal_pre_state(AccessOutcome::Unavailable(AccessUnavailable::Private)),
        Err(Failure::Provider(ProviderError::Forbidden { .. }))
    ));
}

#[test]
fn playlists_are_found_by_identifier_or_by_name() {
    let wanted = uri("fake:playlist:one");
    assert_eq!(
        plan_playlist_lookup("fake:playlist:one"),
        Ok(PlaylistLookup::ByUri(wanted.clone()))
    );
    assert_eq!(plan_playlist_lookup("Mix"), Ok(PlaylistLookup::ByName));
    // Anything else than a playlist is refused before a provider is asked.
    let error = plan_playlist_lookup("fake:track:one").unwrap_err();
    assert_eq!(refused_field(&error), Some("playlist"));
    let answered = |answer| looked_up_playlist(&id("fake"), &scheme(), &wanted, answer);
    // A bare id in the answer is made canonical.
    assert_eq!(
        answered(Some(playlist("one", "Mix"))).unwrap().id,
        "fake:playlist:one"
    );
    assert_eq!(
        answered(None),
        Err(Failure::Provider(ProviderError::NotFound {
            resource: "fake:playlist:one".to_string()
        }))
    );
    assert_eq!(
        answered(Some(playlist("two", "Other"))).unwrap_err().message(),
        "invalid provider input `playlist`: provider fake returned playlist `fake:playlist:two` for requested `fake:playlist:one`"
    );
    assert!(answered(Some(playlist("other:playlist:one", "Mix"))).is_err());
    let all = [playlist("one", "Mix"), playlist("fake:playlist:two", "Focus")];
    let (found, found_uri) = named_playlist(&id("fake"), &scheme(), &all, "focus").unwrap();
    assert_eq!(found.id, "fake:playlist:two");
    assert_eq!(found_uri.as_uri(), found.id);
    let (found, _) = named_playlist(&id("fake"), &scheme(), &all, "one").unwrap();
    assert_eq!(found.id, "fake:playlist:one");
    assert!(named_playlist(&id("fake"), &scheme(), &all, "three").is_err());
    assert!(named_playlist(&id("fake"), &scheme(), &[playlist("a b", "Bad")], "Bad").is_err());
}
