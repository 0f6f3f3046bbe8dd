use jsonrpc_proto::errors::CoreError;
use jsonrpc_proto::gateway::{
    denied_response, extract_key, finish_request, gateway_startup, plan_request, ForwardOutcome,
    PlanOutcome,
};
use jsonrpc_proto::mgmt::{add_application, gen_key};
use jsonrpc_proto::model::{Application, ProxyEndpoint};
use jsonrpc_proto::registry::{AppStorage, RpcKeyStorage};
use jsonrpc_proto::store::KvStore;

fn app(slug: &str, active: bool) -> Application {
    Application {
        name: "Demo".to_string(),
        slug: slug.to_string(),
        proxy: ProxyEndpoint {
            path: "/".to_string(),
            url: "http://backend.local/rpc".to_string(),
            strip: false,
        },
        active,
    }
}

#[test]
fn extract_key_prefers_header() {
    let r = extract_key(Some("headerkey".to_string()), "/pathkey");
    assert_eq!(r, "headerkey");
}

#[test]
fn extract_key_falls_back_to_path() {
    assert_eq!(extract_key(None, "/pathkey"), "pathkey");
    assert_eq!(extract_key(None, "bare"), "bare");
    assert_eq!(extract_key(None, ""), "");
}

#[test]
fn startup_requires_existing_active_app() {
    let mut apps = AppStorage::new();
    apps.set("demo", &app("demo", true)).unwrap();
    let st = gateway_startup(apps, RpcKeyStorage::new(), KvStore::new(), "demo").unwrap();
    assert_eq!(st.default_app.slug, "demo");

    let missing = gateway_startup(AppStorage::new(), RpcKeyStorage::new(), KvStore::new(), "demo");
    assert_eq!(missing.err().unwrap(), CoreError::NotFoundError);

    let mut apps2 = AppStorage::new();
    apps2.set("demo", &app("demo", false)).unwrap();
    let inactive = gateway_startup(apps2, RpcKeyStorage::new(), KvStore::new(), "demo");
    assert_eq!(inactive.err().unwrap(), CoreError::ValidationError);
}

#[test]
fn denials_are_uniform_outward() {
    // A missing key and an expired key answer with byte-identical
    // responses: the reason never leaks outward.
    let mut apps = AppStorage::new();
    let mut keys = RpcKeyStorage::new();
    apps.set("demo", &app("demo", true)).unwrap();
    let expired = gen_key(
        &apps, &mut keys, "demo", Vec::new(), Some(5), None, None, None, None, None, None, None,
    )
    .unwrap();
    let mut st = gateway_startup(apps, keys, KvStore::new(), "demo").unwrap();

    let r_missing = plan_request(&mut st, Some("nosuchkey".to_string()), "/", "{}".to_string(), 100);
    let r_expired = plan_request(&mut st, Some(expired.key_id), "/", "{}".to_string(), 100);
    let expected = denied_response();
    match (r_missing, r_expired) {
        (PlanOutcome::Respond(a), PlanOutcome::Respond(b)) => {
            assert_eq!(a, expected);
            assert_eq!(b, expected);
        },
        _ => panic!("both calls must be answered directly"),
    }
}

#[test]
fn oversized_body_is_refused_before_forwarding() {
    let mut apps = AppStorage::new();
    apps.set("demo", &app("demo", true)).unwrap();
    let mut st = gateway_startup(apps, RpcKeyStorage::new(), KvStore::new(), "demo").unwrap();
    let body = "x".repeat(1048577);
    let r = plan_request(&mut st, Some("anything".to_string()), "/", body, 100);
    match r {
        PlanOutcome::Respond(resp) => assert_eq!(resp.status, 413),
        PlanOutcome::Forward { .. } => panic!("an oversized body must not be forwarded"),
    }
}

#[test]
fn backend_response_passes_through_verbatim() {
    let r = finish_request(ForwardOutcome::Response {
        status: 207,
        body: "{\"jsonrpc\":\"2.0\",\"result\":42}".to_string(),
    });
    assert_eq!(r.status, 207);
    assert_eq!(r.body, "{\"jsonrpc\":\"2.0\",\"result\":42}");
}

#[test]
fn unreachable_backend_is_a_gateway_failure() {
    let r = finish_request(ForwardOutcome::Unavailable);
    assert_eq!(r.status, 502);
    assert_eq!(r.body, "backend unavailable");
}

#[test]
fn end_to_end_two_calls_pass_third_denied() {
    // Add an application, generate a key with a per-second quota of two,
    // and run three calls inside the same second: the first two forward
    // and the backend's response passes through unmodified; the third is
    // denied outright.
    let mut apps = AppStorage::new();
    let mut keys = RpcKeyStorage::new();
    let created = add_application(
        &mut apps,
        "Demo",
        None,
        "/".to_string(),
        "http://backend.local/rpc".to_string(),
        false,
    )
    .unwrap();
    assert_eq!(created.slug, "demo");
    let k = gen_key(
        &apps,
        &mut keys,
        "demo",
        Vec::new(),
        None,
        Some(2),
        None,
        None,
        None,
        None,
        None,
        None,
    )
    .unwrap();
    let mut st = gateway_startup(apps, keys, KvStore::new(), "demo").unwrap();

    let now: u64 = 1700000000;
    for _ in 0..2 {
        let plan = plan_request(
            &mut st,
            Some(k.key_id.clone()),
            "/",
            "{\"method\":\"ping\"}".to_string(),
            now,
        );
        match plan {
            PlanOutcome::Forward { url, body } => {
                assert_eq!(url, "http://backend.local/rpc");
                assert_eq!(body, "{\"method\":\"ping\"}");
                let out = finish_request(ForwardOutcome::Response {
                    status: 200,
                    body: "{\"result\":\"pong\"}".to_string(),
                });
                assert_eq!(out.status, 200);
                assert_eq!(out.body, "{\"result\":\"pong\"}");
            },
            PlanOutcome::Respond(resp) => panic!("expected forwarding, got {:?}", resp),
        }
    }
    let third = plan_request(
        &mut st,
        Some(k.key_id.clone()),
        "/",
        "{\"method\":\"ping\"}".to_string(),
        now,
    );
    match third {
        PlanOutcome::Respond(resp) => {
            assert_eq!(resp.status, 403);
            assert_eq!(resp.body, "access denied");
        },
        PlanOutcome::Forward { .. } => panic!("the third call in the same second must be denied"),
    }
}

#[test]
fn credential_from_path_reaches_the_gate() {
    let mut apps = AppStorage::new();
    let mut keys = RpcKeyStorage::new();
    apps.set("demo", &app("demo", true)).unwrap();
    let k = gen_key(
        &apps, &mut keys, "demo", Vec::new(), None, None, None, None, None, None, None, None,
    )
    .unwrap();
    let mut st = gateway_startup(apps, keys, KvStore::new(), "demo").unwrap();
    let path = format!("/{}", k.key_id);
    let plan = plan_request(&mut st, None, &path, "{}".to_string(), 100);
    assert!(matches!(plan, PlanOutcome::Forward { .. }));
}
