use jsonrpc_proto::gate::{resolve, DenyReason, ResolveOutcome};
use jsonrpc_proto::model::{Application, ProxyEndpoint, RpcKey};
use jsonrpc_proto::registry::{AppStorage, RpcKeyStorage};
use jsonrpc_proto::store::KvStore;

fn app(slug: &str, active: bool) -> Application {
    Application {
        name: slug.to_string(),
        slug: slug.to_string(),
        proxy: ProxyEndpoint {
            path: "/".to_string(),
            url: "http://backend.local/rpc".to_string(),
            strip: false,
        },
        active,
    }
}

fn key(app: &str, id: &str, active: bool, expires: u64, quota_minute: Option<u64>) -> RpcKey {
    RpcKey {
        key_id: id.to_string(),
        key_hash: "0".to_string(),
        app: app.to_string(),
        tags: Vec::new(),
        expires,
        active,
        quota_second: None,
        quota_minute,
        quota_hour: None,
        quota_day: None,
        quota_week: None,
        quota_month: None,
        quota_year: None,
    }
}

const FAR_FUTURE: u64 = 4102444800;

#[test]
fn resolve_accepts_valid_key() {
    let mut apps = AppStorage::new();
    let mut keys = RpcKeyStorage::new();
    let mut counters = KvStore::new();
    apps.set("demo", &app("demo", true)).unwrap();
    let k = key("demo", "k1", true, FAR_FUTURE, None);
    keys.set("demo", "k1", &k).unwrap();
    let r = resolve(&apps, &keys, &mut counters, "demo", "k1", 1000);
    match r {
        ResolveOutcome::Accept(got) => assert_eq!(got, k),
        ResolveOutcome::Deny(_) => panic!("expected acceptance"),
    }
}

#[test]
fn resolve_app_not_found() {
    let apps = AppStorage::new();
    let keys = RpcKeyStorage::new();
    let mut counters = KvStore::new();
    let r = resolve(&apps, &keys, &mut counters, "demo", "k1", 1000);
    assert!(matches!(r, ResolveOutcome::Deny(DenyReason::AppNotFound)));
}

#[test]
fn resolve_app_inactive() {
    let mut apps = AppStorage::new();
    let keys = RpcKeyStorage::new();
    let mut counters = KvStore::new();
    apps.set("demo", &app("demo", false)).unwrap();
    let r = resolve(&apps, &keys, &mut counters, "demo", "k1", 1000);
    assert!(matches!(r, ResolveOutcome::Deny(DenyReason::AppInactive)));
}

#[test]
fn resolve_key_not_found() {
    let mut apps = AppStorage::new();
    let keys = RpcKeyStorage::new();
    let mut counters = KvStore::new();
    apps.set("demo", &app("demo", true)).unwrap();
    let r = resolve(&apps, &keys, &mut counters, "demo", "k1", 1000);
    assert!(matches!(r, ResolveOutcome::Deny(DenyReason::KeyNotFound)));
}

#[test]
fn cross_app_key_resolves_as_not_found() {
    // A key that exists under application B, presented against A with an
    // identical identifier, is a miss, not a cross-application hit.
    let mut apps = AppStorage::new();
    let mut keys = RpcKeyStorage::new();
    let mut counters = KvStore::new();
    apps.set("appa", &app("appa", true)).unwrap();
    apps.set("appb", &app("appb", true)).unwrap();
    keys.set("appb", "sharedid", &key("appb", "sharedid", true, FAR_FUTURE, None)).unwrap();
    let r = resolve(&apps, &keys, &mut counters, "appa", "sharedid", 1000);
    assert!(matches!(r, ResolveOutcome::Deny(DenyReason::KeyNotFound)));
}

#[test]
fn resolve_key_inactive() {
    let mut apps = AppStorage::new();
    let mut keys = RpcKeyStorage::new();
    let mut counters = KvStore::new();
    apps.set("demo", &app("demo", true)).unwrap();
    keys.set("demo", "k1", &key("demo", "k1", false, FAR_FUTURE, None)).unwrap();
    let r = resolve(&apps, &keys, &mut counters, "demo", "k1", 1000);
    assert!(matches!(r, ResolveOutcome::Deny(DenyReason::KeyInactive)));
}

#[test]
fn expired_key_is_denied_despite_quota_and_activity() {
    let mut apps = AppStorage::new();
    let mut keys = RpcKeyStorage::new();
    let mut counters = KvStore::new();
    apps.set("demo", &app("demo", true)).unwrap();
    // Active, quota untouched — only the deadline has passed.
    keys.set("demo", "k1", &key("demo", "k1", true, 999, Some(100))).unwrap();
    let r = resolve(&apps, &keys, &mut counters, "demo", "k1", 1000);
    assert!(matches!(r, ResolveOutcome::Deny(DenyReason::KeyExpired)));
}

#[test]
fn expiry_boundary_is_inclusive() {
    // A call at exactly the deadline still passes; one second later does
    // not.
    let mut apps = AppStorage::new();
    let mut keys = RpcKeyStorage::new();
    let mut counters = KvStore::new();
    apps.set("demo", &app("demo", true)).unwrap();
    keys.set("demo", "k1", &key("demo", "k1", true, 1000, None)).unwrap();
    let at = resolve(&apps, &keys, &mut counters, "demo", "k1", 1000);
    assert!(matches!(at, ResolveOutcome::Accept(_)));
    let after = resolve(&apps, &keys, &mut counters, "demo", "k1", 1001);
    assert!(matches!(after, ResolveOutcome::Deny(DenyReason::KeyExpired)));
}

#[test]
fn quota_minute_fixed_window() {
    // quota_minute = 2: two calls inside one minute window pass, the
    // third is refused, and the next window admits calls again.
    let mut apps = AppStorage::new();
    let mut keys = RpcKeyStorage::new();
    let mut counters = KvStore::new();
    apps.set("demo", &app("demo", true)).unwrap();
    keys.set("demo", "k1", &key("demo", "k1", true, FAR_FUTURE, Some(2))).unwrap();
    let t1: u64 = 600005;
    let t2: u64 = 600030;
    let t3: u64 = 600059;
    let t4: u64 = 600061;
    assert_eq!(t1 / 60, t3 / 60);
    assert_ne!(t1 / 60, t4 / 60);
    let r1 = resolve(&apps, &keys, &mut counters, "demo", "k1", t1);
    assert!(matches!(r1, ResolveOutcome::Accept(_)));
    let r2 = resolve(&apps, &keys, &mut counters, "demo", "k1", t2);
    assert!(matches!(r2, ResolveOutcome::Accept(_)));
    let r3 = resolve(&apps, &keys, &mut counters, "demo", "k1", t3);
    assert!(matches!(r3, ResolveOutcome::Deny(DenyReason::QuotaExceeded)));
    // The refusal consumed nothing: still refused, not double-counted.
    let r3b = resolve(&apps, &keys, &mut counters, "demo", "k1", t3);
    assert!(matches!(r3b, ResolveOutcome::Deny(DenyReason::QuotaExceeded)));
    // The window boundary rolls over.
    let r4 = resolve(&apps, &keys, &mut counters, "demo", "k1", t4);
    assert!(matches!(r4, ResolveOutcome::Accept(_)));
}

#[test]
fn all_configured_windows_must_pass() {
    // A generous per-minute quota does not save a call once the
    // per-hour quota is spent.
    let mut apps = AppStorage::new();
    let mut keys = RpcKeyStorage::new();
    let mut counters = KvStore::new();
    apps.set("demo", &app("demo", true)).unwrap();
    let mut k = key("demo", "k1", true, FAR_FUTURE, Some(100));
    k.quota_hour = Some(1);
    keys.set("demo", "k1", &k).unwrap();
    let r1 = resolve(&apps, &keys, &mut counters, "demo", "k1", 1000);
    assert!(matches!(r1, ResolveOutcome::Accept(_)));
    let r2 = resolve(&apps, &keys, &mut counters, "demo", "k1", 1001);
    assert!(matches!(r2, ResolveOutcome::Deny(DenyReason::QuotaExceeded)));
}

#[test]
fn no_quota_means_unbounded() {
    let mut apps = AppStorage::new();
    let mut keys = RpcKeyStorage::new();
    let mut counters = KvStore::new();
    apps.set("demo", &app("demo", true)).unwrap();
    keys.set("demo", "k1", &key("demo", "k1", true, FAR_FUTURE, None)).unwrap();
    for i in 0..50u64 {
        let r = resolve(&apps, &keys, &mut counters, "demo", "k1", 1000 + i);
        assert!(matches!(r, ResolveOutcome::Accept(_)));
    }
}

#[test]
fn quotas_are_tracked_per_key() {
    let mut apps = AppStorage::new();
    let mut keys = RpcKeyStorage::new();
    let mut counters = KvStore::new();
    apps.set("demo", &app("demo", true)).unwrap();
    keys.set("demo", "k1", &key("demo", "k1", true, FAR_FUTURE, Some(1))).unwrap();
    keys.set("demo", "k2", &key("demo", "k2", true, FAR_FUTURE, Some(1))).unwrap();
    let r1 = resolve(&apps, &keys, &mut counters, "demo", "k1", 1000);
    assert!(matches!(r1, ResolveOutcome::Accept(_)));
    let r2 = resolve(&apps, &keys, &mut counters, "demo", "k1", 1001);
    assert!(matches!(r2, ResolveOutcome::Deny(DenyReason::QuotaExceeded)));
    // The other key's window is untouched.
    let r3 = resolve(&apps, &keys, &mut counters, "demo", "k2", 1002);
    assert!(matches!(r3, ResolveOutcome::Accept(_)));
}
