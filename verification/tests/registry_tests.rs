use jsonrpc_proto::codec::{decode_application, decode_rpc_key, encode_application, encode_rpc_key};
use jsonrpc_proto::errors::CoreError;
use jsonrpc_proto::mgmt::{add_application, get_application, update_application};
use jsonrpc_proto::model::{Application, ProxyEndpoint, RpcKey};
use jsonrpc_proto::registry::{AppStorage, RpcKeyStorage};

fn demo_app(slug: &str, active: bool) -> Application {
    Application {
        name: "Demo".to_string(),
        slug: slug.to_string(),
        proxy: ProxyEndpoint {
            path: "/".to_string(),
            url: "http://backend.local/rpc".to_string(),
            strip: false,
        },
        active,
    }
}

fn demo_key(app: &str, id: &str) -> RpcKey {
    RpcKey {
        key_id: id.to_string(),
        key_hash: "abc123".to_string(),
        app: app.to_string(),
        tags: vec!["beta".to_string(), "alpha".to_string()],
        expires: 4102444800,
        active: true,
        quota_second: None,
        quota_minute: Some(2),
        quota_hour: None,
        quota_day: Some(1000),
        quota_week: None,
        quota_month: None,
        quota_year: None,
    }
}

#[test]
fn app_set_get_round_trip() {
    let mut apps = AppStorage::new();
    let a = demo_app("demo", true);
    apps.set("demo", &a).unwrap();
    let back = apps.get("demo").expect("record expected");
    assert_eq!(back, a);
}

#[test]
fn app_round_trip_with_unicode_fields() {
    let mut apps = AppStorage::new();
    let mut a = demo_app("demo", true);
    a.name = "Démo — ünïcode ✓ name;with=separators".to_string();
    a.proxy.url = "http://backend.local/rpc?x=1&y=2".to_string();
    apps.set("demo", &a).unwrap();
    assert_eq!(apps.get("demo").unwrap(), a);
}

#[test]
fn app_get_missing_is_none() {
    let apps = AppStorage::new();
    assert!(apps.get("nope").is_none());
}

#[test]
fn app_set_overwrites_in_place() {
    let mut apps = AppStorage::new();
    apps.set("demo", &demo_app("demo", true)).unwrap();
    apps.set("demo", &demo_app("demo", false)).unwrap();
    let back = apps.get("demo").unwrap();
    assert!(!back.active);
}

#[test]
fn app_scan_lists_records() {
    let mut apps = AppStorage::new();
    apps.set("one", &demo_app("one", true)).unwrap();
    apps.set("two", &demo_app("two", false)).unwrap();
    let all = apps.scan();
    assert_eq!(all.len(), 2);
    assert_eq!(all[0].slug, "one");
    assert_eq!(all[1].slug, "two");
}

#[test]
fn app_overwrite_keeps_scan_position() {
    let mut apps = AppStorage::new();
    apps.set("one", &demo_app("one", true)).unwrap();
    apps.set("two", &demo_app("two", true)).unwrap();
    apps.set("one", &demo_app("one", false)).unwrap();
    let all = apps.scan();
    assert_eq!(all.len(), 2);
    assert_eq!(all[0].slug, "one");
    assert!(!all[0].active);
    assert_eq!(all[1].slug, "two");
}

#[test]
fn app_round_trip_with_empty_fields() {
    let mut apps = AppStorage::new();
    let a = Application {
        name: String::new(),
        slug: String::new(),
        proxy: ProxyEndpoint { path: String::new(), url: String::new(), strip: true },
        active: false,
    };
    apps.set("", &a).unwrap();
    assert_eq!(apps.get("").unwrap(), a);
}

#[test]
fn key_set_get_round_trip() {
    let mut keys = RpcKeyStorage::new();
    let k = demo_key("demo", "k1");
    keys.set("demo", "k1", &k).unwrap();
    assert_eq!(keys.get("demo", "k1").unwrap(), k);
}

#[test]
fn key_lookup_is_scoped_by_app() {
    let mut keys = RpcKeyStorage::new();
    let k = demo_key("appb", "sharedid");
    keys.set("appb", "sharedid", &k).unwrap();
    assert!(keys.get("appa", "sharedid").is_none());
    assert!(keys.get("appb", "sharedid").is_some());
}

#[test]
fn key_scan_is_scoped_by_app() {
    let mut keys = RpcKeyStorage::new();
    keys.set("appa", "k1", &demo_key("appa", "k1")).unwrap();
    keys.set("appb", "k2", &demo_key("appb", "k2")).unwrap();
    let a_keys = keys.scan("appa");
    assert_eq!(a_keys.len(), 1);
    assert_eq!(a_keys[0].key_id, "k1");
}

#[test]
fn encode_application_exact_document() {
    let a = Application {
        name: "A".to_string(),
        slug: "a".to_string(),
        proxy: ProxyEndpoint { path: "/".to_string(), url: "u".to_string(), strip: false },
        active: true,
    };
    let doc = encode_application(&a);
    let expected = "app;name=0000000000000001A;slug=0000000000000001a;path=0000000000000001/;url=0000000000000001u;strip=F;active=T;";
    assert_eq!(doc, expected);
}

#[test]
fn decode_rejects_malformed_documents() {
    assert!(decode_application("").is_none());
    assert!(decode_application("garbage").is_none());
    assert!(decode_application("app;name=0000000000000005Hello").is_none());
    assert!(decode_rpc_key("app;name=0000000000000001A").is_none());
    // A trailing byte after a well-formed record is refused too.
    let a = demo_app("demo", true);
    let mut doc = encode_application(&a);
    assert!(decode_application(&doc).is_some());
    doc.push('x');
    assert!(decode_application(&doc).is_none());
}

#[test]
fn key_codec_round_trip_direct() {
    let k = demo_key("demo", "k1");
    let doc = encode_rpc_key(&k);
    assert_eq!(decode_rpc_key(&doc).unwrap(), k);
}

#[test]
fn add_application_unique_slug() {
    let mut apps = AppStorage::new();
    let first = add_application(
        &mut apps,
        "Demo",
        Some("demo".to_string()),
        "/".to_string(),
        "http://one.local".to_string(),
        false,
    )
    .unwrap();
    assert_eq!(first.proxy.url, "http://one.local");
    // Adding the same slug again fails and leaves the record unmodified.
    let second = add_application(
        &mut apps,
        "Other",
        Some("demo".to_string()),
        "/x".to_string(),
        "http://two.local".to_string(),
        true,
    );
    assert_eq!(second.unwrap_err(), CoreError::ValidationError);
    let back = apps.get("demo").unwrap();
    assert_eq!(back.name, "Demo");
    assert_eq!(back.proxy.url, "http://one.local");
}

#[test]
fn add_application_slugifies_name() {
    let mut apps = AppStorage::new();
    let a = add_application(
        &mut apps,
        "My Test App",
        None,
        "/".to_string(),
        "http://x.local".to_string(),
        false,
    )
    .unwrap();
    assert_eq!(a.slug, "my-test-app");
    assert!(apps.get("my-test-app").is_some());
}

#[test]
fn get_application_errors() {
    let mut apps = AppStorage::new();
    assert_eq!(get_application(&apps, "demo").unwrap_err(), CoreError::NotFoundError);
    apps.set("demo", &demo_app("demo", true)).unwrap();
    assert_eq!(get_application(&apps, "demo").unwrap().slug, "demo");
}

#[test]
fn update_application_merges_fields() {
    let mut apps = AppStorage::new();
    apps.set("demo", &demo_app("demo", true)).unwrap();
    let updated = update_application(
        &mut apps,
        "demo",
        Some(false),
        None,
        Some("http://new.local".to_string()),
        None,
    )
    .unwrap();
    assert!(!updated.active);
    assert_eq!(updated.proxy.url, "http://new.local");
    assert_eq!(updated.proxy.path, "/");
    assert_eq!(apps.get("demo").unwrap(), updated);
    let missing = update_application(&mut apps, "nope", None, None, None, None);
    assert_eq!(missing.unwrap_err(), CoreError::NotFoundError);
}
