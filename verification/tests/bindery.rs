use configuratarr::bindery::auth_mode::{self, AuthMode, AuthModeValue};
use configuratarr::bindery::config_secret::{plan_secret_config, SecretConfigChange};
use configuratarr::bindery::custom_condition::CustomCondition;
use configuratarr::bindery::custom_format::CustomFormat;
use configuratarr::bindery::delay_profile::{self, DelayProfile};
use configuratarr::bindery::download_client::{
    DownloadClient, DownloadClientHealth, DownloadClientType,
};
use configuratarr::bindery::import_list;
use configuratarr::bindery::import_list_exclusion::{self, ImportListExclusion};
use configuratarr::bindery::metadata_profile::MetadataProfile;
use configuratarr::bindery::unknown_language_behavior::UnknownLanguageBehavior;
use configuratarr::bindery::notification::Notification;
use configuratarr::bindery::oidc_provider;
use configuratarr::bindery::prowlarr_instance::ProwlarrInstance;
use configuratarr::bindery::quality_item::QualityItem;
use configuratarr::bindery::quality_profile::QualityProfile;
use configuratarr::bindery::root_folder::RootFolder;
use configuratarr::bindery::setting::{self, is_writable_secret, scalar, Setting};
use configuratarr::bindery::abs_config::AbsConfig;
use configuratarr::bindery::grimmory_config::GrimmoryConfig;
use configuratarr::bindery::import_list::ImportList;
use configuratarr::bindery::oidc_provider::OidcProvider;
use configuratarr::bindery::user::{self, User, UserAction, UserError, UserRole};
use configuratarr::sync::{ChangeKind, Method};
use configuratarr::bindery::{abs_config, grimmory_config};
use configuratarr::json::{Json, JsonNumber};
use configuratarr::sync::{KeyedStep, Step};
use configuratarr::sync::KeyedWrite;
use serde_json::Value;

fn conv(v: &Value) -> Json {
    match v {
        Value::Null => Json::Null,
        Value::Bool(b) => Json::Bool(*b),
        Value::Number(n) => Json::Number(if let Some(u) = n.as_u64() {
            JsonNumber::PosInt(u)
        } else if let Some(i) = n.as_i64() {
            JsonNumber::NegInt(i)
        } else {
            JsonNumber::Float { bits: n.as_f64().unwrap().to_bits(), text: n.to_string() }
        }),
        Value::String(s) => Json::String(s.clone()),
        Value::Array(xs) => Json::Array(xs.iter().map(conv).collect()),
        Value::Object(m) => Json::Object(m.iter().map(|(k, v)| (k.clone(), conv(v))).collect()),
    }
}

fn j(text: &str) -> Json {
    conv(&serde_json::from_str::<Value>(text).unwrap())
}

fn s(text: &str) -> String {
    text.to_string()
}

// ---- config secrets ----

#[test]
fn full_when_non_secret_differs() {
    let wire = j(r#"{"baseUrl": "https://a", "apiKey": "secret"}"#);
    let live = j(r#"{"baseUrl": "https://b", "apiKeyConfigured": true}"#);
    let change = plan_secret_config(&wire, &live, &["apiKey"], &[("apiKey", "apiKeyConfigured")]);
    assert_eq!(change, SecretConfigChange::Full(wire));
}

#[test]
fn secret_only_when_not_configured() {
    let wire = j(r#"{"baseUrl": "https://a", "apiKey": "secret"}"#);
    let live = j(r#"{"baseUrl": "https://a", "apiKeyConfigured": false}"#);
    let change = plan_secret_config(&wire, &live, &["apiKey"], &[("apiKey", "apiKeyConfigured")]);
    assert_eq!(change, SecretConfigChange::SecretOnly(j(r#"{"apiKey": "secret"}"#)));
}

#[test]
fn unchanged_when_configured_and_matching() {
    let wire = j(r#"{"baseUrl": "https://a"}"#);
    let live = j(r#"{"baseUrl": "https://a", "apiKeyConfigured": true}"#);
    let change = plan_secret_config(&wire, &live, &["apiKey"], &[("apiKey", "apiKeyConfigured")]);
    assert_eq!(change, SecretConfigChange::Unchanged);
}

#[test]
fn unchanged_when_secret_not_configured_but_not_declared() {
    let wire = j(r#"{"baseUrl": "https://a"}"#);
    let live = j(r#"{"baseUrl": "https://a", "apiKeyConfigured": false}"#);
    let change = plan_secret_config(&wire, &live, &["apiKey"], &[("apiKey", "apiKeyConfigured")]);
    assert_eq!(change, SecretConfigChange::Unchanged);
}

#[test]
fn two_secrets_only_rotates_the_unconfigured_one() {
    let wire = j(r#"{"apiKey": "key", "password": "pw"}"#);
    let live = j(r#"{"apiKeyConfigured": true, "passwordConfigured": false}"#);
    let change = plan_secret_config(
        &wire,
        &live,
        &["apiKey", "password"],
        &[("apiKey", "apiKeyConfigured"), ("password", "passwordConfigured")],
    );
    assert_eq!(change, SecretConfigChange::SecretOnly(j(r#"{"password": "pw"}"#)));
}

#[test]
fn secret_config_edge_cases() {
    // A non-object declaration never differs and declares no secret.
    assert_eq!(
        plan_secret_config(&j("null"), &j("{}"), &["apiKey"], &[("apiKey", "apiKeyConfigured")]),
        SecretConfigChange::Unchanged
    );
    // A non-boolean flag reads as not stored.
    let change = plan_secret_config(
        &j(r#"{"apiKey": "k"}"#),
        &j(r#"{"apiKeyConfigured": "yes"}"#),
        &["apiKey"],
        &[("apiKey", "apiKeyConfigured")],
    );
    assert_eq!(change, SecretConfigChange::SecretOnly(j(r#"{"apiKey": "k"}"#)));
    // Equality is JSON equality: 1 and 1.0 differ.
    let change = plan_secret_config(&j(r#"{"n": 1}"#), &j(r#"{"n": 1.0}"#), &[], &[]);
    assert_eq!(change, SecretConfigChange::Full(j(r#"{"n": 1}"#)));
}

#[test]
fn abs_and_grimmory_plans_use_their_secrets() {
    let live = j(r#"{"baseUrl": "u", "apiKeyConfigured": false, "featureEnabled": true}"#);
    assert_eq!(
        abs_config::plan(&j(r#"{"baseUrl": "u", "apiKey": "k"}"#), &live),
        SecretConfigChange::SecretOnly(j(r#"{"apiKey": "k"}"#))
    );
    let live = j(r#"{"apiKeyConfigured": false, "passwordConfigured": false}"#);
    let change = grimmory_config::plan(&j(r#"{"password": "p", "apiKey": "k"}"#), &live);
    assert_eq!(change, SecretConfigChange::SecretOnly(j(r#"{"apiKey": "k", "password": "p"}"#)));
    match change {
        SecretConfigChange::SecretOnly(body) => {
            assert_eq!(grimmory_config::rotated_detail(&body), "apiKey, password")
        },
        _ => unreachable!(),
    }
    assert_eq!(grimmory_config::rotated_detail(&j(r#"{"password": 1}"#)), "password");
}

// ---- settings ----

#[test]
fn scalar_stringifies_bool_and_number() {
    assert_eq!(scalar(&j("true")), "true");
    assert_eq!(scalar(&j("false")), "false");
    assert_eq!(scalar(&j(r#""auto""#)), "auto");
    assert_eq!(scalar(&j("77")), "77");
    assert_eq!(scalar(&j("null")), "");
}

#[test]
fn is_writable_secret_matches_exactly_the_two_documented_keys() {
    assert!(is_writable_secret("hardcover.api_token"));
    assert!(is_writable_secret("calibre.plugin_api_key"));
    assert!(!is_writable_secret("abs.api_key"));
    assert!(!is_writable_secret("grimmory.api_key"));
    assert!(!is_writable_secret("import.mode"));
}

#[test]
fn scalar_renders_other_values_as_json_text() {
    assert_eq!(scalar(&j("-5")), "-5");
    assert_eq!(scalar(&j("1.5")), "1.5");
    assert_eq!(scalar(&j(r#"[1, "a"]"#)), r#"[1,"a"]"#);
    assert_eq!(scalar(&j(r#"{"k": null}"#)), r#"{"k":null}"#);
}

#[test]
fn setting_plan_writes_secrets_and_differences() {
    let wire = j(r#"{
        "calibre.plugin_api_key": "s3",
        "import.mode": "copy",
        "default.media_type_strict": false,
        "author.default_monitor_latest_count": 3,
        "search.interval": null
    }"#);
    let rows = vec![
        j(r#"{"key": "import.mode", "value": "move", "updatedAt": "t"}"#),
        j(r#"{"key": "import.mode", "value": "copy"}"#),
        j(r#"{"key": "default.media_type_strict", "value": "false"}"#),
        j(r#"{"key": "author.default_monitor_latest_count", "value": 3}"#),
    ];
    let plan = setting::plan(&wire, &rows);
    let got: Vec<(String, String, bool)> =
        plan.into_iter().map(|w| (w.key, w.value, w.write)).collect();
    let mut want = vec![
        (s("calibre.plugin_api_key"), s("s3"), true),
        (s("import.mode"), s("copy"), false),
        (s("default.media_type_strict"), s("false"), false),
        (s("author.default_monitor_latest_count"), s("3"), true),
        (s("search.interval"), s(""), false),
    ];
    let mut got_sorted = got.clone();
    got_sorted.sort();
    want.sort();
    assert_eq!(got_sorted, want);
    assert_eq!(setting::stored_value(&rows, "import.mode"), Some(s("copy")));
    assert_eq!(setting::stored_value(&rows, "author.default_monitor_latest_count"), None);
    let (path, body) = setting::put_request("import.mode", "copy");
    assert_eq!(path, "/api/v1/setting/import.mode");
    assert_eq!(body, j(r#"{"value": "copy"}"#));
    assert!(setting::plan(&j("[]"), &rows).is_empty());
}

// ---- auth mode ----

#[test]
fn auth_mode_compares_only_the_mode() {
    let wire = AuthMode { mode: AuthModeValue::LocalOnly }.to_wire();
    assert_eq!(wire, j(r#"{"mode": "local-only"}"#));
    let live = j(r#"{"mode": "local-only", "apiKey": "secret", "username": "admin"}"#);
    assert!(matches!(auth_mode::reconcile_step(&wire, &live), Step::Unchanged));
    let live = j(r#"{"mode": "enabled", "apiKey": "secret"}"#);
    match auth_mode::reconcile_step(&wire, &live) {
        Step::Write(body) => assert_eq!(body, j(r#"{"mode": "local-only"}"#)),
        Step::Unchanged => panic!("a different mode must be written"),
    }
    assert_eq!(AuthModeValue::from_wire("proxy"), AuthModeValue::Proxy);
    assert_eq!(AuthModeValue::from_wire("sso"), AuthModeValue::Unknown);
    assert_eq!(AuthModeValue::Disabled.as_wire(), "disabled");
}

// ---- users ----

#[test]
fn bindery_user_plan_state_machine() {
    let live = vec![j(r#"{"id": 4, "username": "keeper", "role": "admin"}"#)];
    match user::plan(&j(r#"{"username": "keeper", "role": "admin"}"#), &live) {
        Ok(UserAction::Existing { id, role_body, reset_body, .. }) => {
            assert_eq!(id, Some(4));
            assert!(role_body.is_none() && reset_body.is_none());
        },
        _ => panic!("an existing user with the same role is unchanged"),
    }
    match user::plan(&j(r#"{"username": "keeper", "role": "user", "resetPassword": "n"}"#), &live) {
        Ok(UserAction::Existing { role_body, reset_body, .. }) => {
            assert_eq!(role_body, Some(j(r#"{"role": "user"}"#)));
            assert_eq!(reset_body, Some(j(r#"{"password": "n"}"#)));
        },
        _ => panic!("a role change and a reset are both planned"),
    }
    match user::plan(&j(r#"{"username": "new", "role": "user", "password": "pw"}"#), &live) {
        Ok(UserAction::Create { username, body }) => {
            assert_eq!(username, "new");
            assert_eq!(body, j(r#"{"username": "new", "password": "pw", "role": "user"}"#));
        },
        _ => panic!("a missing user is created"),
    }
    assert_eq!(
        user::plan(&j(r#"{"username": "new", "password": ""}"#), &live).err(),
        Some(UserError::MissingPassword(s("new")))
    );
    assert_eq!(user::plan(&j(r#"{"role": "user"}"#), &live).err(), Some(UserError::MissingUsername));
    assert_eq!(
        UserError::MissingPassword(s("x")).message(),
        "user `x` does not exist and declares no `password`; a password is required to create it"
    );
    assert_eq!(user::user_path(12, "/role"), "/api/v1/auth/users/12/role");
    assert_eq!(UserRole::from_wire("admin"), UserRole::Admin);
    assert_eq!(UserRole::from_wire("owner"), UserRole::Unknown);
}

// ---- import lists ----

#[test]
fn import_list_ignores_write_only_and_server_keys() {
    let desired = j(r#"{"name": "shelf", "apiKey": "k", "account": "me", "enabled": true, "ownerUserId": null}"#);
    let live = j(r#"{"id": 3, "name": "shelf", "apiKey": "", "apiKeyConfigured": true, "enabled": true, "lastSyncAt": "t"}"#);
    assert!(import_list::in_sync(&desired, &live));
    assert!(!import_list::in_sync(&j(r#"{"enabled": false}"#), &live));
    assert_eq!(
        import_list::update_projection(&j(r#"{"apiKey": "k", "account": "me", "name": "n", "type": "csv"}"#)),
        j(r#"{"name": "n", "type": "csv", "apiKey": "k"}"#)
    );
    assert_eq!(import_list::item_path(&live), "/api/v1/importlist/3");
    assert_eq!(import_list::item_path(&j("{}")), "/api/v1/importlist/null");
    assert_eq!(import_list::plan(&vec![desired], &vec![live]), vec![KeyedStep::Unchanged(0)]);
}

#[test]
fn import_list_exclusions_are_create_only() {
    let live = vec![j(r#"{"id": 9, "foreignId": "ol:1", "title": "Old"}"#)];
    assert!(!import_list_exclusion::needs_create(&j(r#"{"foreignId": "ol:1", "title": "New"}"#), &live));
    assert!(import_list_exclusion::needs_create(&j(r#"{"foreignId": "ol:2"}"#), &live));
    assert_eq!(import_list_exclusion::item_path(&live[0]), "/api/v1/importlistexclusion/9");
    let e = ImportListExclusion {
        id: Some(9),
        foreign_id: s("ol:1"),
        title: None,
        author_name: Some(s("A")),
        created_at: None,
    };
    assert_eq!(e.to_wire(), j(r#"{"foreignId": "ol:1", "authorName": "A"}"#));
}

// ---- delay profiles ----

#[test]
fn delay_profile_identity_and_fill() {
    let a = delay_profile::profile_identity(&j(r#"{"order": 1, "usenetDelay": 15, "enableUsenet": true}"#));
    assert_eq!(a, (1, 15, 0, s(""), true, false));
    let filled = delay_profile::with_protocol(j(r#"{"order": 1}"#));
    assert_eq!(filled, j(r#"{"order": 1, "preferredProtocol": ""}"#));
    let kept = delay_profile::with_protocol(j(r#"{"preferredProtocol": "usenet"}"#));
    assert_eq!(kept, j(r#"{"preferredProtocol": "usenet"}"#));
    assert_eq!(
        delay_profile::delete_ids(&vec![j(r#"{"id": 1}"#), j(r#"{"id": "x"}"#), j(r#"{"id": -2}"#)]),
        vec![1, -2]
    );
    assert_eq!(delay_profile::item_path(5), "/api/v1/delayprofile/5");
    let p = DelayProfile {
        id: None,
        usenet_delay: 15,
        torrent_delay: 45,
        preferred_protocol: Some(s("usenet")),
        enable_usenet: true,
        enable_torrent: false,
        order: 1,
        created_at: None,
    };
    assert_eq!(
        p.to_wire(),
        j(r#"{"usenetDelay": 15, "torrentDelay": 45, "preferredProtocol": "usenet", "enableUsenet": true, "enableTorrent": false, "order": 1}"#)
    );
}

// ---- OIDC providers ----

#[test]
fn oidc_identity_and_secret_merge() {
    let a = oidc_provider::provider_identity(&j(r#"{"id": "p", "issuer": "i", "client_id": "c", "scopes": ["profile", "openid"], "status": "ok"}"#));
    assert_eq!(a, (s("p"), s(""), s("i"), s("c"), vec![s("openid"), s("profile")], vec![]));
    let live_ids = oidc_provider::live_ids(&vec![j(r#"{"id": "p"}"#), j(r#"{"name": "x"}"#)]);
    assert_eq!(live_ids, vec![s("p")]);
    let body = oidc_provider::put_body(
        vec![j(r#"{"id": "p", "client_secret": "old"}"#), j(r#"{"id": "q", "client_secret": "new"}"#), j(r#"{"id": "r"}"#)],
        &live_ids,
    );
    assert_eq!(
        body,
        j(r#"[{"id": "p", "client_secret": ""}, {"id": "q", "client_secret": "new"}, {"id": "r", "client_secret": ""}]"#)
    );
}

// ---- plain resources ----

#[test]
fn bindery_resources_encode_to_wire() {
    let f = CustomFormat {
        id: Some(1),
        name: s("x265"),
        conditions: vec![CustomCondition {
            condition_type: s("releaseTitle"),
            pattern: s("x265"),
            negate: false,
            required: true,
        }],
        created_at: None,
    };
    assert_eq!(
        f.to_wire(),
        j(r#"{"name": "x265", "conditions": [{"type": "releaseTitle", "pattern": "x265", "negate": false, "required": true}]}"#)
    );
    let q = QualityProfile {
        id: None,
        name: s("e"),
        upgrade_allowed: false,
        cutoff: s("epub"),
        items: vec![QualityItem { quality: s("epub"), allowed: true }],
        created_at: None,
    };
    assert_eq!(
        q.to_wire(),
        j(r#"{"name": "e", "upgradeAllowed": false, "cutoff": "epub", "items": [{"quality": "epub", "allowed": true}]}"#)
    );
    let r = RootFolder { id: Some(2), path: s("/books"), free_space: Some(1), created_at: None };
    assert_eq!(r.to_wire(), j(r#"{"path": "/books"}"#));
    let m = MetadataProfile {
        id: None,
        name: s("m"),
        min_popularity: 0,
        min_pages: -1,
        skip_missing_date: true,
        skip_missing_isbn: false,
        skip_part_books: false,
        allowed_languages: s("eng"),
        unknown_language_behavior: Some(UnknownLanguageBehavior::Fail),
        created_at: None,
    };
    assert_eq!(
        m.to_wire(),
        j(r#"{"name": "m", "minPopularity": 0, "minPages": -1, "skipMissingDate": true, "skipMissingIsbn": false, "skipPartBooks": false, "allowedLanguages": "eng", "unknownLanguageBehavior": "fail"}"#)
    );
    assert_eq!(UnknownLanguageBehavior::from_wire("maybe"), UnknownLanguageBehavior::Unknown);
    let n = Notification {
        id: None,
        name: s("hook"),
        notification_type: s("webhook"),
        url: s("http://h"),
        method: s("POST"),
        headers: None,
        topic: None,
        on_grab: Some(true),
        on_import: None,
        on_upgrade: None,
        on_failure: None,
        on_health: None,
        enabled: Some(false),
        created_at: None,
        updated_at: None,
    };
    assert_eq!(
        n.to_wire(),
        j(r#"{"name": "hook", "type": "webhook", "url": "http://h", "method": "POST", "onGrab": true, "enabled": false}"#)
    );
    let c = DownloadClient {
        id: None,
        name: s("sab"),
        client_type: Some(DownloadClientType::Sabnzbd),
        host: s("h"),
        port: 8080,
        api_key: Some(s("k")),
        use_ssl: None,
        url_base: None,
        category: s("books"),
        category_audiobook: None,
        path_remap: None,
        priority: Some(-1),
        enabled: None,
        created_at: None,
        updated_at: None,
        health: Some(DownloadClientHealth { status: Some(s("ok")), message: None }),
        username: None,
        password: None,
    };
    assert_eq!(
        c.to_wire(),
        j(r#"{"name": "sab", "type": "sabnzbd", "host": "h", "port": 8080, "apiKey": "k", "category": "books", "priority": -1}"#)
    );
    assert_eq!(DownloadClientType::from_wire("deluge"), DownloadClientType::Deluge);
    assert_eq!(DownloadClientType::from_wire("aria2"), DownloadClientType::Unknown);
    let h = DownloadClientHealth { status: None, message: Some(s("down")) };
    assert_eq!(h.to_wire(), j(r#"{"message": "down"}"#));
    let p = ProwlarrInstance {
        id: None,
        name: s("p"),
        url: s("http://p"),
        api_key: None,
        sync_on_startup: Some(true),
        enabled: None,
        last_sync_at: None,
        created_at: None,
        updated_at: None,
    };
    assert_eq!(p.to_wire(), j(r#"{"name": "p", "url": "http://p", "syncOnStartup": true}"#));
}

#[test]
fn delay_and_oidc_replace_only_when_identities_differ() {
    let declared = vec![j(r#"{"order": 1, "usenetDelay": 15}"#)];
    let posted: Vec<Json> = declared.iter().map(|p| delay_profile::with_protocol(p.clone())).collect();
    let live = vec![j(r#"{"id": 3, "order": 1, "usenetDelay": 15, "preferredProtocol": "", "createdAt": "t"}"#)];
    assert!(!delay_profile::replace_needed(&posted, &live));
    let other = vec![j(r#"{"id": 3, "order": 2, "usenetDelay": 15}"#)];
    assert!(delay_profile::replace_needed(&posted, &other));

    let declared = vec![j(r#"{"id": "p", "issuer": "i", "client_id": "c", "client_secret": "s", "scopes": ["b", "a"]}"#)];
    let live = vec![j(r#"{"id": "p", "issuer": "i", "client_id": "c", "scopes": ["a", "b"], "status": "ok"}"#)];
    assert!(!oidc_provider::replace_needed(&declared, &live));
    let renamed = vec![j(r#"{"id": "p", "name": "P", "issuer": "i", "client_id": "c", "scopes": ["a", "b"]}"#)];
    assert!(oidc_provider::replace_needed(&declared, &renamed));
}

#[test]
fn auth_modes_round_trip_through_their_wire_strings() {
    for m in [
        AuthModeValue::Enabled,
        AuthModeValue::LocalOnly,
        AuthModeValue::Disabled,
        AuthModeValue::Proxy,
        AuthModeValue::Unknown,
    ] {
        assert_eq!(AuthModeValue::from_wire(m.as_wire()), m);
    }
}

#[test]
fn import_list_api_key_alone_never_forces_an_update() {
    let live = j(r#"{"name": "shelf", "url": "u", "apiKey": ""}"#);
    assert!(import_list::in_sync(&j(r#"{"name": "shelf", "url": "u", "apiKey": "old"}"#), &live));
    assert!(import_list::in_sync(&j(r#"{"name": "shelf", "url": "u", "apiKey": "rotated"}"#), &live));
    assert!(import_list::in_sync(&j(r#"{"name": "shelf", "url": "u"}"#), &live));
}

#[test]
fn stored_settings_converge_and_secrets_always_write() {
    let wire = j(r#"{"hardcover.api_token": "t", "import.mode": "copy"}"#);
    let rows = vec![j(r#"{"key": "import.mode", "value": "copy"}"#), j(r#"{"key": "hardcover.api_token", "value": "t"}"#)];
    for w in setting::plan(&wire, &rows) {
        assert_eq!(w.write, is_writable_secret(&w.key));
    }
}

#[test]
fn applied_import_list_update_reads_back_in_sync() {
    let wire = j(r#"{"name": "s", "url": "u2", "enabled": false, "apiKey": "k", "account": "me"}"#);
    let live = j(r#"{"id": 1, "name": "s", "url": "u1", "enabled": true, "account": "me", "apiKey": ""}"#);
    assert!(!import_list::in_sync(&wire, &live));
    let mut after = live.clone();
    if let Json::Object(es) = import_list::update_projection(&wire) {
        for (k, v) in es {
            after = after.set_key(k, v);
        }
    }
    assert!(import_list::in_sync(&wire, &after));
}

#[test]
fn bindery_secret_bearing_resources_encode_to_wire() {
    let u = User { username: s("a"), role: UserRole::Admin, password: Some(s("p")), reset_password: None };
    assert_eq!(u.to_wire(), j(r#"{"username": "a", "role": "admin", "password": "p"}"#));
    let l = ImportList {
        id: Some(1),
        name: s("shelf"),
        list_type: s("csv"),
        url: None,
        api_key: Some(s("k")),
        api_key_configured: Some(true),
        account: None,
        root_folder_id: Some(3),
        quality_profile_id: None,
        owner_user_id: None,
        media_type: None,
        monitor_new: Some(true),
        auto_add: None,
        enabled: None,
        last_sync_at: None,
        created_at: None,
        updated_at: None,
    };
    assert_eq!(
        l.to_wire(),
        j(r#"{"name": "shelf", "type": "csv", "apiKey": "k", "rootFolderId": 3, "monitorNew": true}"#)
    );
    let a = AbsConfig {
        base_url: Some(s("http://abs")),
        label: None,
        enabled: Some(true),
        library_ids: vec![s("l1")],
        path_remap: None,
        api_key: None,
    };
    assert_eq!(a.to_wire(), j(r#"{"baseUrl": "http://abs", "enabled": true, "libraryIds": ["l1"]}"#));
    let g = GrimmoryConfig { enabled: None, base_url: None, api_key: None, username: Some(s("u")), password: Some(s("p")) };
    assert_eq!(g.to_wire(), j(r#"{"username": "u", "password": "p"}"#));
    let o = OidcProvider {
        id: s("p"),
        name: None,
        issuer: s("i"),
        client_id: s("c"),
        client_secret: None,
        scopes: vec![s("openid")],
        allowed_groups: vec![],
    };
    assert_eq!(o.to_wire(), j(r#"{"id": "p", "issuer": "i", "client_id": "c", "scopes": ["openid"], "allowed_groups": []}"#));
}

#[test]
fn declared_settings_encode_under_their_dotted_keys() {
    let declared = Setting {
        hardcover_api_token: None,
        hardcover_enhanced_series_enabled: None,
        hardcover_sync_interval: None,
        abs_enabled: None,
        abs_base_url: None,
        calibre_library_path: None,
        calibre_binary_path: None,
        calibre_mode: None,
        calibre_push_path_remap: None,
        calibre_plugin_url: None,
        calibre_plugin_api_key: None,
        cwa_ingest_path: None,
        import_mode: Some(s("copy")),
        import_drop_folder: None,
        import_drop_layout: None,
        import_drop_link_mode: None,
        import_drop_pair_gating: None,
        import_drop_pair_gating_timeout_hours: None,
        default_media_type: Some(s("ebook")),
        default_media_type_strict: Some(false),
        author_default_monitor_mode: Some(s("latest")),
        author_default_monitor_latest_count: Some(3),
        library_default_root_folder_id: None,
        metadata_primary_provider: Some(s("openlibrary")),
        search_interval: None,
    };
    let wire = declared.to_wire();
    assert_eq!(
        wire,
        j(r#"{"import.mode": "copy", "default.media_type": "ebook", "default.media_type_strict": false,
              "author.default_monitor_mode": "latest", "author.default_monitor_latest_count": 3,
              "metadata.primary_provider": "openlibrary"}"#)
    );
    let stored: Vec<Json> = setting::plan(&wire, &vec![])
        .into_iter()
        .map(|w| j(&format!(r#"{{"key": "{}", "value": "{}"}}"#, w.key, w.value)))
        .collect();
    assert!(setting::plan(&wire, &stored).iter().all(|w| !w.write));
}

#[test]
fn import_list_undeclared_live_key_must_be_unset() {
    let desired = j(r#"{"name": "l", "type": "csv"}"#);
    assert!(!import_list::in_sync(&desired, &j(r#"{"id": 1, "name": "l", "type": "csv", "url": "x"}"#)));
    assert!(import_list::in_sync(&desired, &j(r#"{"id": 1, "name": "l", "type": "csv", "url": null}"#)));
    assert!(import_list::in_sync(&desired, &j(r#"{"id": 1, "name": "l", "type": "csv", "lastSyncAt": "t"}"#)));
}

fn report_summary(run: &user::UserRun) -> Vec<(ChangeKind, String, Option<String>)> {
    run.reports.iter().map(|r| (r.kind, r.username.clone(), r.role.clone())).collect()
}

#[test]
fn user_plan_run_matches_apply_run() {
    let live = vec![
        j(r#"{"id": 4, "username": "keeper", "role": "admin"}"#),
        j(r#"{"id": 7, "username": "demoted", "role": "admin"}"#),
        j(r#"{"id": 9, "username": "gone", "role": "user"}"#),
    ];
    let desired = vec![
        j(r#"{"username": "keeper", "role": "admin"}"#),
        j(r#"{"username": "demoted", "role": "user", "resetPassword": "n"}"#),
        j(r#"{"username": "new", "role": "user", "password": "pw"}"#),
    ];
    let plan = user::run(&desired, &live, true, false);
    let apply = user::run(&desired, &live, true, true);
    assert_eq!(report_summary(&plan), report_summary(&apply));
    assert_eq!(plan.error, None);
    assert_eq!(apply.error, None);
    assert!(plan.requests.is_empty());
    assert_eq!(
        report_summary(&apply),
        vec![
            (ChangeKind::Unchanged, s("keeper"), None),
            (ChangeKind::Updated, s("demoted"), Some(s("user"))),
            (ChangeKind::Created, s("new"), None),
            (ChangeKind::Deleted, s("gone"), None),
        ]
    );
    let sent: Vec<(Method, String, Option<Json>)> =
        apply.requests.iter().map(|r| (r.method, r.path.clone(), r.body.clone())).collect();
    assert_eq!(
        sent,
        vec![
            (Method::Put, s("/api/v1/auth/users/7/role"), Some(j(r#"{"role": "user"}"#))),
            (Method::Put, s("/api/v1/auth/users/7/reset-password"), Some(j(r#"{"password": "n"}"#))),
            (Method::Post, s("/api/v1/auth/users"), Some(j(r#"{"username": "new", "password": "pw", "role": "user"}"#))),
            (Method::Delete, s("/api/v1/auth/users/9"), None),
        ]
    );
}

#[test]
fn user_run_stops_at_first_error() {
    let live = vec![j(r#"{"username": "noid", "role": "admin"}"#)];
    let desired = vec![
        j(r#"{"username": "new", "role": "user", "password": "pw"}"#),
        j(r#"{"username": "noid", "role": "user"}"#),
        j(r#"{"username": "late", "role": "user"}"#),
    ];
    let plan = user::run(&desired, &live, false, false);
    assert_eq!(plan.error, Some(UserError::MissingPassword(s("late"))));
    let apply = user::run(&desired, &live, false, true);
    assert_eq!(apply.error, Some(UserError::MissingId));
    assert_eq!(apply.requests.len(), 1);
    assert_eq!(UserError::MissingId.message(), "user entry is missing an integer `id`");
    let prune = user::run(&vec![], &live, true, true);
    assert_eq!(prune.error, Some(UserError::MissingId));
    assert!(user::run(&vec![], &live, true, false).error.is_none());
}

#[test]
fn import_list_exclusion_plan_leaves_or_creates() {
    let live = vec![j(r#"{"id": 3, "foreignId": "OL1", "title": "old"}"#), j(r#"{"id": 4, "foreignId": "OL9"}"#)];
    let desired = vec![j(r#"{"foreignId": "OL1", "title": "new"}"#), j(r#"{"foreignId": "OL2"}"#)];
    let steps = import_list_exclusion::plan(&desired, &live);
    assert_eq!(steps, vec![KeyedStep::Unchanged(0), KeyedStep::Create]);
    let run = configuratarr::sync::keyed_run(&desired, &live, &steps, "foreignId", true, true);
    assert_eq!(run.writes, vec![KeyedWrite::Create(1), KeyedWrite::Delete(1)]);
}
