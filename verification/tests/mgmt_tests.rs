use jsonrpc_proto::errors::CoreError;
use jsonrpc_proto::formatter::{Formatter, OutputFormat};
use jsonrpc_proto::hexnum::{parse_hex_u64, u64_dec, u64_hex_fixed, u64_hex_trim};
use jsonrpc_proto::mgmt::{gen_key, get_key, list_keys, update_key};
use jsonrpc_proto::model::{Application, ProxyEndpoint, RpcKey, TEN_YEARS_SECS};
use jsonrpc_proto::registry::{AppStorage, RpcKeyStorage};
use jsonrpc_proto::store::RedisConnection;

fn app(slug: &str, active: bool) -> Application {
    Application {
        name: "Demo".to_string(),
        slug: slug.to_string(),
        proxy: ProxyEndpoint {
            path: "/".to_string(),
            url: "http://backend.local/rpc".to_string(),
            strip: false,
        },
        active,
    }
}

fn seeded() -> (AppStorage, RpcKeyStorage) {
    let mut apps = AppStorage::new();
    apps.set("demo", &app("demo", true)).unwrap();
    (apps, RpcKeyStorage::new())
}

#[test]
fn gen_key_requires_existing_active_app() {
    let mut keys = RpcKeyStorage::new();
    let apps = AppStorage::new();
    let missing = gen_key(
        &apps, &mut keys, "demo", Vec::new(), None, None, None, None, None, None, None, None,
    );
    assert_eq!(missing.unwrap_err(), CoreError::NotFoundError);

    let mut apps2 = AppStorage::new();
    apps2.set("demo", &app("demo", false)).unwrap();
    let inactive = gen_key(
        &apps2, &mut keys, "demo", Vec::new(), None, None, None, None, None, None, None, None,
    );
    assert_eq!(inactive.unwrap_err(), CoreError::ValidationError);
}

#[test]
fn gen_key_credential_shape() {
    let (apps, mut keys) = seeded();
    let k = gen_key(
        &apps,
        &mut keys,
        "demo",
        vec!["prod".to_string()],
        Some(4102444800),
        Some(1),
        Some(2),
        Some(3),
        Some(4),
        Some(5),
        Some(6),
        Some(7),
    )
    .unwrap();
    assert_eq!(k.key_id.len(), 32);
    for c in k.key_id.chars() {
        assert!("abcdefghijkmnpqrstuvwxyz0123456789".contains(c));
    }
    assert_eq!(k.app, "demo");
    assert_eq!(k.tags, vec!["prod".to_string()]);
    assert_eq!(k.expires, 4102444800);
    assert!(k.active);
    assert_eq!(
        (
            k.quota_second,
            k.quota_minute,
            k.quota_hour,
            k.quota_day,
            k.quota_week,
            k.quota_month,
            k.quota_year,
        ),
        (Some(1), Some(2), Some(3), Some(4), Some(5), Some(6), Some(7)),
    );
    // The stored record is the returned one.
    assert_eq!(get_key(&apps, &keys, "demo", &k.key_id).unwrap(), k);
}

#[test]
fn gen_key_fingerprint_matches_hash_of_credential() {
    let (apps, mut keys) = seeded();
    let k = gen_key(
        &apps, &mut keys, "demo", Vec::new(), None, None, None, None, None, None, None, None,
    )
    .unwrap();
    let expected = format!("{:x}", fasthash::murmur2::hash64(k.key_id.as_bytes()));
    assert_eq!(k.key_hash, expected);
}

#[test]
fn gen_key_default_expiry_is_ten_years_out() {
    let (apps, mut keys) = seeded();
    let k = gen_key(
        &apps, &mut keys, "demo", Vec::new(), None, None, None, None, None, None, None, None,
    )
    .unwrap();
    assert!(k.expires >= TEN_YEARS_SECS);
}

#[test]
fn two_generated_keys_differ() {
    let (apps, mut keys) = seeded();
    let k1 = gen_key(
        &apps, &mut keys, "demo", Vec::new(), None, None, None, None, None, None, None, None,
    )
    .unwrap();
    let k2 = gen_key(
        &apps, &mut keys, "demo", Vec::new(), None, None, None, None, None, None, None, None,
    )
    .unwrap();
    assert_ne!(k1.key_id, k2.key_id);
}

#[test]
fn get_key_errors() {
    let (apps, keys) = seeded();
    assert_eq!(get_key(&apps, &keys, "demo", "none").unwrap_err(), CoreError::NotFoundError);
    assert_eq!(get_key(&apps, &keys, "ghost", "none").unwrap_err(), CoreError::NotFoundError);
}

#[test]
fn update_key_tag_merge() {
    // A key tagged {beta, alpha}, updated with ["-beta", "prod"], ends
    // up tagged {alpha, prod}.
    let (apps, mut keys) = seeded();
    let k = gen_key(
        &apps,
        &mut keys,
        "demo",
        vec!["beta".to_string(), "alpha".to_string()],
        None,
        None,
        None,
        None,
        None,
        None,
        None,
        None,
    )
    .unwrap();
    let updated = update_key(
        &apps,
        &mut keys,
        "demo",
        &k.key_id,
        None,
        None,
        vec!["-beta".to_string(), "prod".to_string()],
        None,
        None,
        None,
        None,
        None,
        None,
        None,
    )
    .unwrap();
    assert_eq!(updated.tags, vec!["alpha".to_string(), "prod".to_string()]);
    assert_eq!(get_key(&apps, &keys, "demo", &k.key_id).unwrap(), updated);
}

#[test]
fn update_key_tags_append_without_dedup() {
    let (apps, mut keys) = seeded();
    let k = gen_key(
        &apps, &mut keys, "demo", vec!["alpha".to_string()], None, None, None, None, None, None,
        None, None,
    )
    .unwrap();
    let updated = update_key(
        &apps, &mut keys, "demo", &k.key_id, None, None, vec!["alpha".to_string()], None, None,
        None, None, None, None, None,
    )
    .unwrap();
    assert_eq!(updated.tags, vec!["alpha".to_string(), "alpha".to_string()]);
}

#[test]
fn update_key_field_merge() {
    let (apps, mut keys) = seeded();
    let k = gen_key(
        &apps, &mut keys, "demo", Vec::new(), Some(1000), Some(5), None, None, None, None, None,
        None,
    )
    .unwrap();
    let updated = update_key(
        &apps,
        &mut keys,
        "demo",
        &k.key_id,
        Some(2000),
        Some(false),
        Vec::new(),
        None,
        Some(9),
        None,
        None,
        None,
        None,
        None,
    )
    .unwrap();
    assert_eq!(updated.expires, 2000);
    assert!(!updated.active);
    // An untouched quota stays; a supplied one overwrites.
    assert_eq!(updated.quota_second, Some(5));
    assert_eq!(updated.quota_minute, Some(9));
    assert_eq!(updated.key_id, k.key_id);
    assert_eq!(updated.key_hash, k.key_hash);
}

#[test]
fn update_key_missing_record() {
    let (apps, mut keys) = seeded();
    let r = update_key(
        &apps, &mut keys, "demo", "nope", None, None, Vec::new(), None, None, None, None, None,
        None, None,
    );
    assert_eq!(r.unwrap_err(), CoreError::NotFoundError);
}

#[test]
fn list_keys_scoped_to_app() {
    let (mut apps, mut keys) = seeded();
    apps.set("other", &app("other", true)).unwrap();
    let k1 = gen_key(
        &apps, &mut keys, "demo", Vec::new(), None, None, None, None, None, None, None, None,
    )
    .unwrap();
    let _k2 = gen_key(
        &apps, &mut keys, "other", Vec::new(), None, None, None, None, None, None, None, None,
    )
    .unwrap();
    let listed = list_keys(&apps, &keys, "demo").unwrap();
    assert_eq!(listed.len(), 1);
    assert_eq!(listed[0].key_id, k1.key_id);
    assert_eq!(list_keys(&apps, &keys, "ghost").unwrap_err(), CoreError::NotFoundError);
}

#[test]
fn formatter_defaults_to_yaml() {
    let f = Formatter::new(None);
    assert_eq!(f.format, OutputFormat::Yaml);
    let g = Formatter::new(Some(OutputFormat::Json));
    assert_eq!(g.format, OutputFormat::Json);
    assert_eq!(f.fail("application not found").unwrap_err(), "application not found");
    assert_eq!(f.wrap_error(CoreError::NotFoundError).unwrap_err(), CoreError::NotFoundError);
}

#[test]
fn number_rendering_exact_values() {
    assert_eq!(u64_hex_fixed(255, 16), "00000000000000ff");
    assert_eq!(u64_hex_fixed(0, 16), "0000000000000000");
    assert_eq!(u64_hex_trim(255), "ff");
    assert_eq!(u64_hex_trim(0), "0");
    assert_eq!(u64_dec(1234), "1234");
    assert_eq!(u64_dec(0), "0");
    assert_eq!(parse_hex_u64("00000000000000ff", 0, 16), Some(255));
    assert_eq!(parse_hex_u64("00000000000000fg", 0, 16), None);
    assert_eq!(parse_hex_u64("ffffffffffffffff", 0, 16), Some(u64::MAX));
}

#[test]
fn connection_uri_matches_scheme_and_fields() {
    let plain = RedisConnection {
        host: "localhost".to_string(),
        port: 6379,
        username: "".to_string(),
        password: "".to_string(),
        db: 0,
        use_tls: false,
    };
    assert_eq!(plain.connection_uri(), "redis://:@localhost:6379/0");
    let tls = RedisConnection {
        host: "redis.example".to_string(),
        port: 6380,
        username: "user".to_string(),
        password: "pw".to_string(),
        db: 2,
        use_tls: true,
    };
    assert_eq!(tls.connection_uri(), "rediss://user:pw@redis.example:6380/2");
}

#[test]
fn application_new_defaults() {
    let a = Application::new(
        "Demo",
        Some("given".to_string()),
        "/x".to_string(),
        "http://u".to_string(),
        true,
    );
    assert_eq!(a.slug, "given");
    assert_eq!(a.name, "Demo");
    assert_eq!(a.proxy.path, "/x");
    assert_eq!(a.proxy.url, "http://u");
    assert!(a.proxy.strip);
    assert!(a.active);
}

#[test]
fn generate_honors_explicit_fields() {
    let k = RpcKey::generate(
        "demo".to_string(),
        vec!["t".to_string()],
        Some(123),
        None,
        None,
        None,
        None,
        None,
        None,
        Some(9),
    );
    assert_eq!(k.app, "demo");
    assert_eq!(k.expires, 123);
    assert_eq!(k.quota_year, Some(9));
    assert!(k.active);
}
