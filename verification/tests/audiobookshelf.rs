use configuratarr::audiobookshelf::ereader_device::{self, EreaderAvailability, EreaderDevice};
use configuratarr::audiobookshelf::library;
use configuratarr::audiobookshelf::library_folder::LibraryFolder;
use configuratarr::audiobookshelf::media_type::MediaType;
use configuratarr::audiobookshelf::notification::{self, Notification};
use configuratarr::audiobookshelf::email_settings::EmailSettings;
use configuratarr::audiobookshelf::notification_settings::NotificationSettings;
use configuratarr::audiobookshelf::user::{self, User, UserPermissions, UserType};
use configuratarr::audiobookshelf::{email_settings, notification_settings, server_settings};
use configuratarr::json::{Json, JsonNumber};
use configuratarr::sync::{KeyedStep, RefId, Step};
use serde_json::Value;

fn conv(v: &Value) -> Json {
    match v {
        Value::Null => Json::Null,
        Value::Bool(b) => Json::Bool(*b),
        Value::Number(n) => Json::Number(if let Some(u) = n.as_u64() {
            JsonNumber::PosInt(u)
        } else if let Some(i) = n.as_i64() {
            JsonNumber::NegInt(i)
        } else {
            JsonNumber::Float { bits: n.as_f64().unwrap().to_bits(), text: n.to_string() }
        }),
        Value::String(s) => Json::String(s.clone()),
        Value::Array(xs) => Json::Array(xs.iter().map(conv).collect()),
        Value::Object(m) => Json::Object(m.iter().map(|(k, v)| (k.clone(), conv(v))).collect()),
    }
}

fn j(text: &str) -> Json {
    conv(&serde_json::from_str::<Value>(text).unwrap())
}

fn s(text: &str) -> String {
    text.to_string()
}

// ---- email settings ----

#[test]
fn email_settings_in_sync_numeric_insensitive() {
    let wire = j(r#"{"port": 465}"#);
    let live = j(r#"{"port": 465.0}"#);
    assert!(email_settings::in_sync(&wire, &live));
}

#[test]
fn email_settings_absent_live_key_only_in_sync_when_declared_null() {
    assert!(email_settings::in_sync(&j(r#"{"host": null}"#), &j("{}")));
    assert!(!email_settings::in_sync(&j(r#"{"port": 465}"#), &j("{}")));
}

#[test]
fn email_settings_in_sync_catches_a_real_diff() {
    let wire = j(r#"{"host": "smtp.example.com"}"#);
    let live = j(r#"{"host": "smtp.other.com"}"#);
    assert!(!email_settings::in_sync(&wire, &live));
}

#[test]
fn email_settings_step_compares_against_the_settings_envelope() {
    let wire = j(r#"{"host": "smtp.example.com", "port": 587}"#);
    let same = j(r#"{"settings": {"host": "smtp.example.com", "port": 587.0, "secure": true}}"#);
    assert!(matches!(email_settings::reconcile_step(wire.clone(), &same), Step::Unchanged));
    let other = j(r#"{"settings": {"host": "smtp.example.com", "port": 465}}"#);
    match email_settings::reconcile_step(wire.clone(), &other) {
        Step::Write(body) => assert_eq!(body, wire),
        Step::Unchanged => panic!("a differing port must be written"),
    }
    // A flat live object is not the envelope: nothing declared is found there.
    assert!(matches!(
        email_settings::reconcile_step(wire, &j(r#"{"host": "smtp.example.com", "port": 587}"#)),
        Step::Write(_)
    ));
}

#[test]
fn email_settings_field_in_sync_rounds_large_integers_like_doubles() {
    // 2^53 + 1 is not a double; it rounds to 2^53.
    let big = j("9007199254740993");
    let rounded = j("9007199254740992.0");
    assert!(email_settings::field_in_sync(&big, Some(&rounded)));
    assert!(!email_settings::field_in_sync(&j("3"), Some(&j("3.5"))));
    assert!(email_settings::field_in_sync(&j("-0.0"), Some(&j("0"))));
    assert!(!email_settings::field_in_sync(&j("1"), Some(&j("true"))));
}

// ---- notification settings ----

#[test]
fn notification_settings_in_sync_numeric_insensitive() {
    let wire = j(r#"{"maxFailedAttempts": 5}"#);
    let live = j(r#"{"maxFailedAttempts": 5.0}"#);
    assert!(notification_settings::in_sync(&wire, &live));
}

#[test]
fn notification_settings_absent_live_key_only_in_sync_when_declared_null() {
    assert!(notification_settings::in_sync(&j(r#"{"appriseApiUrl": null}"#), &j("{}")));
    assert!(!notification_settings::in_sync(&j(r#"{"maxFailedAttempts": 5}"#), &j("{}")));
}

#[test]
fn notification_settings_in_sync_catches_a_real_diff() {
    let wire = j(r#"{"appriseApiUrl": "http://apprise.local"}"#);
    let live = j(r#"{"appriseApiUrl": "http://other.local"}"#);
    assert!(!notification_settings::in_sync(&wire, &live));
}

#[test]
fn notification_settings_non_object_wire_is_always_in_sync() {
    assert!(notification_settings::in_sync(&j("null"), &j(r#"{"a": 1}"#)));
}

// ---- server settings ----

#[test]
fn server_settings_writes_whenever_anything_is_declared() {
    assert!(matches!(server_settings::reconcile_step(j("{}")), Some(Step::Unchanged)));
    match server_settings::reconcile_step(j(r#"{"scannerParseSubtitle": true}"#)) {
        Some(Step::Write(body)) => assert_eq!(body, j(r#"{"scannerParseSubtitle": true}"#)),
        _ => panic!("a declared key must be written"),
    }
    assert!(server_settings::reconcile_step(j("[1]")).is_none());
}

// ---- e-reader devices ----

#[test]
fn identity_normalizes_absent_availability_and_sorts_users() {
    let a = ereader_device::identity(&j(
        r#"{"name": "kindle", "email": "a@kindle.com", "users": ["u2", "u1"]}"#,
    ));
    let b = ereader_device::identity(&j(
        r#"{"name": "kindle", "email": "a@kindle.com", "availabilityOption": "adminOrUp", "users": ["u1", "u2"]}"#,
    ));
    assert_eq!(a, b);
}

#[test]
fn identity_catches_a_real_diff() {
    let a = ereader_device::identity(&j(r#"{"name": "kindle", "email": "a@kindle.com"}"#));
    let b = ereader_device::identity(&j(r#"{"name": "kindle", "email": "b@kindle.com"}"#));
    assert_ne!(a, b);
}

#[test]
fn ereader_identity_exact_value() {
    let id = ereader_device::identity(&j(
        r#"{"name": "k", "availabilityOption": "specificUsers", "users": ["b", 7, "a", "b"]}"#,
    ));
    assert_eq!(id, (s("k"), s(""), s("specificUsers"), vec![s("a"), s("b"), s("b")]));
}

#[test]
fn ereader_devices_read_and_replace_body() {
    let envelope = j(r#"{"settings": {"ereaderDevices": [{"name": "k"}], "host": "x"}}"#);
    let live = ereader_device::live_devices(&envelope);
    assert_eq!(live, vec![j(r#"{"name": "k"}"#)]);
    assert!(ereader_device::live_devices(&j(r#"{"settings": {}}"#)).is_empty());
    let body = ereader_device::replace_body(&vec![j(r#"{"name": "a"}"#)]);
    assert_eq!(body, j(r#"{"ereaderDevices": [{"name": "a"}]}"#));
}

#[test]
fn ereader_device_encodes_to_wire() {
    let d = EreaderDevice {
        name: s("kindle"),
        email: s("a@kindle.com"),
        availability_option: Some(EreaderAvailability::SpecificUsers),
        users: vec![s("u1")],
    };
    assert_eq!(
        d.to_wire(),
        j(r#"{"name": "kindle", "email": "a@kindle.com", "availabilityOption": "specificUsers", "users": ["u1"]}"#)
    );
    let bare = EreaderDevice { name: s("k"), email: s("e"), availability_option: None, users: vec![] };
    assert_eq!(bare.to_wire(), j(r#"{"name": "k", "email": "e", "users": []}"#));
    assert_eq!(EreaderAvailability::from_wire("guestOrUp"), Some(EreaderAvailability::GuestOrUp));
    assert_eq!(EreaderAvailability::from_wire("everyone"), None);
    assert_eq!(EreaderAvailability::UserOrUp.as_wire(), "userOrUp");
}

// ---- notifications ----

#[test]
fn identity_uses_global_when_library_unset() {
    assert_eq!(
        notification::identity_of(&j(r#"{"eventName": "onBackupFailed"}"#)),
        "onBackupFailed@global"
    );
    assert_eq!(
        notification::identity_of(&j(r#"{"eventName": "onBackupFailed", "libraryId": "lib-1"}"#)),
        "onBackupFailed@lib-1"
    );
}

#[test]
fn in_sync_ignores_firing_history_and_identity() {
    let desired = j(r#"{
        "_identity": "onBackupFailed@global",
        "eventName": "onBackupFailed",
        "libraryId": null,
        "urls": ["http://example/notify"],
        "enabled": true
    }"#);
    let live = j(r#"{
        "_identity": "onBackupFailed@global",
        "id": "abc-123",
        "eventName": "onBackupFailed",
        "libraryId": null,
        "urls": ["http://example/notify"],
        "enabled": true,
        "lastFiredAt": 1700000000000,
        "lastAttemptFailed": false,
        "numConsecutiveFailedAttempts": 0,
        "numTimesFired": 3,
        "createdAt": 1699000000000
    }"#);
    assert!(notification::in_sync(&desired, &live));
}

#[test]
fn notification_in_sync_catches_a_real_diff() {
    let desired = j(r#"{"eventName": "onBackupFailed", "enabled": true}"#);
    let live = j(r#"{"eventName": "onBackupFailed", "enabled": false}"#);
    assert!(!notification::in_sync(&desired, &live));
}

#[test]
fn notification_identity_stamp_and_strip() {
    let rule = j(r#"{"eventName": "onTest", "libraryId": null, "urls": []}"#);
    let stamped = notification::with_identity(rule.clone());
    assert_eq!(stamped.get("_identity"), Some(&j(r#""onTest@global""#)));
    assert_eq!(notification::strip_identity(stamped.clone()), rule);
    // Stamping both sides never changes the comparison.
    assert!(notification::in_sync(&stamped, &rule));
    assert_eq!(notification::identity_of(&j("{}")), "@global");
    assert_eq!(notification::identity_of(&j(r#"{"eventName": 3, "libraryId": 4}"#)), "@global");
}

#[test]
fn notification_rules_and_update_body() {
    let envelope = j(r#"{"data": {"events": []}, "settings": {"notifications": [{"id": "n1"}]}}"#);
    assert_eq!(notification::live_rules(&envelope), vec![j(r#"{"id": "n1"}"#)]);
    let body = notification::update_body(
        j(r#"{"_identity": "x@global", "eventName": "x"}"#),
        &j(r#"{"id": "n1", "eventName": "x"}"#),
    );
    assert_eq!(body, j(r#"{"eventName": "x", "id": "n1"}"#));
}

#[test]
fn notification_keyed_plan() {
    let desired = vec![
        notification::with_identity(j(r#"{"eventName": "a", "enabled": true}"#)),
        notification::with_identity(j(r#"{"eventName": "b", "enabled": true}"#)),
        notification::with_identity(j(r#"{"eventName": "c"}"#)),
    ];
    let live = vec![
        notification::with_identity(j(r#"{"eventName": "b", "enabled": false, "id": "2"}"#)),
        notification::with_identity(j(r#"{"eventName": "a", "enabled": true, "id": "1", "numTimesFired": 9}"#)),
    ];
    assert_eq!(
        notification::plan(&desired, &live),
        vec![KeyedStep::Unchanged(1), KeyedStep::Update(0), KeyedStep::Create]
    );
}

#[test]
fn notification_encodes_to_wire() {
    let n = Notification {
        id: Some(s("ignored")),
        library_id: None,
        event_name: s("onTest"),
        urls: vec![s("http://x")],
        title_template: Some(s("T")),
        body_template: None,
        enabled: false,
        notification_type: None,
    };
    assert_eq!(
        n.to_wire(),
        j(r#"{"libraryId": null, "eventName": "onTest", "urls": ["http://x"], "titleTemplate": "T", "enabled": false, "type": null}"#)
    );
}

// ---- users ----

#[test]
fn reset_password_present_always_forces_update() {
    let wire = j(r#"{"username": "alice", "resetPassword": "new-secret"}"#);
    let live = j(r#"{"username": "alice", "id": "u-1"}"#);
    assert!(!user::in_sync(&wire, &live));
}

#[test]
fn create_only_password_is_not_drift() {
    let wire = j(r#"{"username": "alice", "password": "created-with"}"#);
    let live = j(r#"{"username": "alice", "id": "u-1"}"#);
    assert!(user::in_sync(&wire, &live));
}

#[test]
fn create_body_drops_reset_password_and_update_body_promotes_it() {
    let wire = j(r#"{"username": "alice", "password": "created-with", "resetPassword": "rotated-to"}"#);
    assert_eq!(
        user::create_body(wire.clone()),
        j(r#"{"username": "alice", "password": "created-with"}"#),
    );
    assert_eq!(
        user::create_body(j(r#"{"username": "alice", "lastSeen": 1}"#)),
        j(r#"{"username": "alice"}"#),
    );
    assert_eq!(user::update_body(wire), j(r#"{"username": "alice", "password": "rotated-to"}"#),);
}

#[test]
fn update_body_without_a_reset_sends_no_password() {
    assert_eq!(
        user::update_body(j(r#"{"username": "alice", "password": "created-with"}"#)),
        j(r#"{"username": "alice"}"#),
    );
}

#[test]
fn declared_permissions_subset_matches_a_richer_live_object() {
    let wire = j(r#"{"username": "alice", "permissions": {"download": true}}"#);
    let live = j(r#"{"username": "alice", "id": "u-1", "permissions": {"download": true, "update": false, "delete": false}}"#);
    assert!(user::in_sync(&wire, &live));
}

#[test]
fn user_in_sync_catches_a_real_diff() {
    let wire = j(r#"{"username": "alice", "isActive": true}"#);
    let live = j(r#"{"username": "alice", "isActive": false}"#);
    assert!(!user::in_sync(&wire, &live));
}

#[test]
fn user_edge_cases() {
    // A null reset requests nothing and is dropped from the update, but as a
    // declared key that the live user lacks it still reads as a difference.
    let wire = j(r#"{"username": "a", "resetPassword": null}"#);
    assert!(!user::in_sync(&wire, &j(r#"{"username": "a"}"#)));
    assert!(user::in_sync(&wire, &j(r#"{"username": "a", "resetPassword": null}"#)));
    assert_eq!(user::update_body(wire), j(r#"{"username": "a"}"#));
    // A declared key missing live is drift; a nested permission too.
    assert!(!user::in_sync(&j(r#"{"email": "x"}"#), &j("{}")));
    assert!(!user::in_sync(
        &j(r#"{"permissions": {"download": true}}"#),
        &j(r#"{"permissions": {"download": false}}"#)
    ));
    assert!(user::fields_match(&j("3"), &j("3")));
    assert!(!user::fields_match(&j("3"), &j("3.0")));
}

#[test]
fn users_envelope_refs_and_paths() {
    let envelope = j(r#"{"users": [{"username": "a", "id": "u1"}, {"username": "b", "id": 7}, {"id": "u3"}]}"#);
    let live = user::live_users(&envelope);
    assert_eq!(live.len(), 3);
    let refs = user::user_refs(&live);
    assert_eq!(refs.len(), 2);
    assert_eq!(refs[0].0, "a");
    assert!(matches!(&refs[0].1, RefId::Str(x) if x == "u1"));
    assert!(matches!(&refs[1].1, RefId::Int(7)));
    assert_eq!(user::item_path(&live[0]), "/api/users/u1");
    assert_eq!(user::item_path(&live[1]), "/api/users/");
    assert_eq!(user::created_user(&j(r#"{"user": {"id": "n"}}"#)), Some(j(r#"{"id": "n"}"#)));
    assert_eq!(user::created_user(&j(r#"{"ok": true}"#)), None);
}

#[test]
fn user_keyed_plan() {
    let desired = vec![j(r#"{"username": "a"}"#), j(r#"{"username": "b", "isActive": true}"#)];
    let live = vec![j(r#"{"username": "b", "isActive": true}"#)];
    assert_eq!(user::plan(&desired, &live), vec![KeyedStep::Create, KeyedStep::Unchanged(0)]);
}

#[test]
fn user_types_and_permissions_encode() {
    assert_eq!(UserType::Guest.as_wire(), "guest");
    assert_eq!(UserType::from_wire("admin"), Some(UserType::Admin));
    assert_eq!(UserType::from_wire("root"), None);
    let p = UserPermissions {
        download: Some(true),
        update: None,
        delete: Some(false),
        upload: None,
        create_ereader: None,
        access_all_libraries: Some(false),
        access_all_tags: None,
        access_explicit_content: None,
        selected_tags_not_accessible: None,
        libraries_accessible: vec![s("lib-1")],
        item_tags_selected: vec![],
    };
    assert_eq!(
        p.to_wire(),
        j(r#"{"download": true, "delete": false, "accessAllLibraries": false, "librariesAccessible": ["lib-1"], "itemTagsSelected": []}"#)
    );
}

// ---- libraries ----

#[test]
fn library_in_sync_compares_paths_settings_and_plain_keys() {
    let desired = j(r#"{
        "name": "Books", "mediaType": "podcast", "icon": "database",
        "folders": [{"fullPath": "/b"}, {"fullPath": "/a"}],
        "settings": {"coverAspectRatio": 1}
    }"#);
    let live = j(r#"{
        "id": "l1", "name": "Books", "mediaType": "book", "icon": "database",
        "folders": [{"id": "f1", "fullPath": "/a", "libraryId": "l1"}, {"id": "f2", "fullPath": "/b"}],
        "settings": {"coverAspectRatio": 1, "autoScanCronExpression": null}
    }"#);
    assert!(library::in_sync(&desired, &live));
    let moved = j(r#"{"name": "Books", "folders": [{"fullPath": "/c"}]}"#);
    assert!(!library::in_sync(&moved, &live));
    let setting = j(r#"{"settings": {"coverAspectRatio": 0}}"#);
    assert!(!library::in_sync(&setting, &live));
    assert!(library::in_sync(&j(r#"{"provider": null}"#), &live));
    assert!(!library::in_sync(&j(r#"{"provider": "google"}"#), &live));
    assert!(library::in_sync(&j("[1]"), &j("[1]")));
}

#[test]
fn library_update_echoes_live_folder_ids() {
    let desired = j(r#"[{"fullPath": "/a"}, {"fullPath": "/new"}]"#);
    let live = j(r#"[{"id": "f1", "fullPath": "/a"}, {"id": "f2", "fullPath": "/gone"}]"#);
    assert_eq!(
        library::folders_for_update(&desired, &live),
        j(r#"[{"id": "f1", "fullPath": "/a"}, {"fullPath": "/new"}]"#)
    );
    let wire = j(r#"{"name": "B", "displayOrder": 2, "folders": [{"fullPath": "/a"}]}"#);
    let entry = j(r#"{"id": "l1", "name": "B", "folders": [{"id": "f1", "fullPath": "/a"}]}"#);
    assert_eq!(
        library::update_body(wire.clone(), &entry),
        j(r#"{"name": "B", "displayOrder": 2, "folders": [{"id": "f1", "fullPath": "/a"}]}"#)
    );
    assert_eq!(library::create_body(wire), j(r#"{"name": "B", "folders": [{"fullPath": "/a"}]}"#));
    assert_eq!(library::item_path(&entry), "/api/libraries/l1");
}

#[test]
fn library_envelope_refs_and_plan() {
    let envelope = j(r#"{"libraries": [{"id": "l1", "name": "Books"}, {"id": "l2", "name": "Pods"}]}"#);
    let live = library::live_libraries(&envelope);
    let refs = library::library_refs(&live);
    assert_eq!(refs.len(), 2);
    assert_eq!(refs[1].0, "Pods");
    let desired = vec![j(r#"{"name": "Pods", "icon": "podcast"}"#), j(r#"{"name": "Books"}"#)];
    assert_eq!(library::plan(&desired, &live), vec![KeyedStep::Update(1), KeyedStep::Unchanged(0)]);
    assert!(library::live_libraries(&j("[]")).is_empty());
}

#[test]
fn library_types_encode() {
    let f = LibraryFolder { full_path: s("/audiobooks") };
    assert_eq!(f.to_wire(), j(r#"{"fullPath": "/audiobooks"}"#));
    assert_eq!(MediaType::from_wire("podcast"), MediaType::Podcast);
    assert_eq!(MediaType::from_wire("video"), MediaType::Unknown);
    assert_eq!(MediaType::Book.as_wire(), "book");
}

#[test]
fn ereader_replace_only_when_the_identity_sets_differ() {
    let desired = vec![
        j(r#"{"name": "a", "email": "a@x", "users": ["u2", "u1"]}"#),
        j(r#"{"name": "b", "email": "b@x"}"#),
    ];
    let live = vec![
        j(r#"{"name": "b", "email": "b@x", "availabilityOption": "adminOrUp", "users": []}"#),
        j(r#"{"name": "a", "email": "a@x", "availabilityOption": "adminOrUp", "users": ["u1", "u2"]}"#),
    ];
    assert!(!ereader_device::replace_needed(&desired, &live));
    assert!(!ereader_device::replace_needed(&desired, &desired));
    assert!(ereader_device::replace_needed(&desired, &live[..1].to_vec()));
    assert!(ereader_device::replace_needed(&vec![], &live));
    assert!(!ereader_device::replace_needed(&vec![], &vec![]));
}

#[test]
fn declared_values_are_in_sync_with_themselves() {
    let lib = j(r#"{"name": "B", "folders": [{"fullPath": "/a"}], "settings": {"x": [1]}, "icon": null}"#);
    assert!(library::in_sync(&lib, &lib));
    let rule = j(r#"{"eventName": "e", "urls": ["u"], "enabled": false}"#);
    assert!(notification::in_sync(&rule, &rule));
    let u = j(r#"{"username": "a", "password": "p", "permissions": {"download": true}}"#);
    assert!(user::in_sync(&u, &u));
    let reset = j(r#"{"username": "a", "resetPassword": "p"}"#);
    assert!(!user::in_sync(&reset, &reset));
    let settings = j(r#"{"port": 25, "host": "h", "secure": false}"#);
    assert!(email_settings::in_sync(&settings, &settings));
}

#[test]
fn keyed_plan_of_a_converged_collection_is_all_unchanged() {
    let items = vec![j(r#"{"name": "a", "icon": "x"}"#), j(r#"{"name": "b"}"#)];
    assert_eq!(library::plan(&items, &items), vec![KeyedStep::Unchanged(0), KeyedStep::Unchanged(1)]);
    let users = vec![j(r#"{"username": "a"}"#), j(r#"{"username": "b", "isActive": true}"#)];
    assert_eq!(user::plan(&users, &users), vec![KeyedStep::Unchanged(0), KeyedStep::Unchanged(1)]);
}

fn applied(live: &Json, body: &Json) -> Json {
    let mut out = live.clone();
    if let Json::Object(es) = body {
        for (k, v) in es {
            out = out.set_key(k.clone(), v.clone());
        }
    }
    out
}

#[test]
fn applied_writes_read_back_in_sync() {
    let wire = j(r#"{"name": "B", "icon": "x", "folders": [{"fullPath": "/a"}, {"fullPath": "/n"}], "settings": {"s": 1}}"#);
    let live = j(r#"{"id": "l", "name": "B", "icon": "y", "folders": [{"id": "f", "fullPath": "/a"}, {"id": "g", "fullPath": "/old"}]}"#);
    assert!(!library::in_sync(&wire, &live));
    let after = applied(&live, &library::update_body(wire.clone(), &live));
    assert!(library::in_sync(&wire, &after));

    let u = j(r#"{"username": "a", "password": "p", "isActive": true, "permissions": {"upload": false}}"#);
    let live = j(r#"{"id": "u", "username": "a", "isActive": false}"#);
    assert!(!user::in_sync(&u, &live));
    assert!(user::in_sync(&u, &applied(&live, &user::update_body(u.clone()))));

    let keyed = notification::with_identity(j(r#"{"eventName": "e", "enabled": true}"#));
    let live = notification::with_identity(j(r#"{"eventName": "e", "enabled": false, "id": "n"}"#));
    assert!(notification::in_sync(&keyed, &notification::update_body(keyed.clone(), &live)));

    let settings = j(r#"{"host": "h", "port": 25}"#);
    let envelope_live = j(r#"{"host": "old", "secure": true}"#);
    let after = applied(&envelope_live, &settings);
    assert!(email_settings::in_sync(&settings, &after));
}

#[test]
fn audiobookshelf_settings_and_users_encode_to_wire() {
    let n = NotificationSettings { id: None, apprise_api_url: None, max_failed_attempts: Some(5), max_notification_queue: None };
    assert_eq!(n.to_wire(), j(r#"{"appriseApiUrl": null, "maxFailedAttempts": 5}"#));
    let e = EmailSettings {
        id: s("email-settings"),
        host: Some(s("smtp")),
        port: 465,
        secure: true,
        reject_unauthorized: true,
        user: None,
        pass: None,
        test_address: None,
        from_address: None,
        ereader_devices: vec![j(r#"{"name": "k"}"#)],
    };
    assert_eq!(
        e.to_wire(),
        j(r#"{"id": "email-settings", "host": "smtp", "port": 465, "secure": true, "rejectUnauthorized": true, "ereaderDevices": [{"name": "k"}]}"#)
    );
    let u = User {
        id: Some(s("u1")),
        username: s("alice"),
        email: None,
        user_type: Some(UserType::User),
        password: Some(s("pw")),
        reset_password: None,
        is_active: Some(true),
        is_locked: Some(false),
        last_seen: Some(1),
        permissions: None,
    };
    assert_eq!(
        u.to_wire(),
        j(r#"{"username": "alice", "type": "user", "password": "pw", "isActive": true, "lastSeen": 1}"#)
    );
}

#[test]
fn library_in_sync_ignores_media_type_and_folder_shape() {
    let desired = j(r#"{"name": "Books", "mediaType": "book", "folders": [{"fullPath": "/a"}, {"fullPath": "/b"}]}"#);
    let live = j(r#"{"id": "l1", "name": "Books", "mediaType": "book", "folders": [{"id": "f1", "fullPath": "/a"}, {"id": "f2", "fullPath": "/b"}]}"#);
    let desired2 = j(r#"{"name": "Books", "mediaType": "podcast", "folders": [{"fullPath": "/b"}, {"fullPath": "/a"}, {"fullPath": "/a"}]}"#);
    let live2 = j(r#"{"id": "l1", "name": "Books", "folders": [{"fullPath": "/b", "addedAt": 5}, {"fullPath": "/a"}]}"#);
    assert!(library::in_sync(&desired, &live));
    assert_eq!(library::in_sync(&desired2, &live2), library::in_sync(&desired, &live));
    let renamed = j(r#"{"name": "Audio", "mediaType": "podcast", "folders": [{"fullPath": "/a"}, {"fullPath": "/b"}]}"#);
    assert!(!library::in_sync(&renamed, &live));
}
