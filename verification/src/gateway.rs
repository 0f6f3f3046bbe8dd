//! The gateway's request pipeline: receive, extract the credential,
//! resolve it against the configured default application, forward on
//! acceptance, respond. The outward response for a refused call is the
//! same whatever the reason, so a caller learns nothing about whether a
//! key exists, is expired, or is over quota; the distinguishing reason
//! stays internal.

use vstd::prelude::*;
use vstd::string::*;
use crate::errors::CoreError;
use crate::gate::{bump_counters, resolve, spec_deny, ResolveOutcome, WINDOW_COUNT};
use crate::model::Application;
use crate::registry::{rk_name, AppStorage, RpcKeyStorage};
use crate::store::CounterStore;

verus! {

/// The largest request body the gateway forwards, in characters.
pub const MAX_PAYLOAD_CHARS: usize = 1048576;

/// What the gateway sends back: a status code and a body, either its own
/// or the backend's, passed through verbatim.
#[derive(Debug, Clone, PartialEq, Eq)]
pub struct GatewayResponse {
    pub status: u16,
    pub body: String,
}

pub struct GatewayResponseView {
    pub status: u16,
    pub body: Seq<char>,
}

impl View for GatewayResponse {
    type V = GatewayResponseView;

    open spec fn view(&self) -> GatewayResponseView {
        GatewayResponseView { status: self.status, body: self.body@ }
    }
}

/// The uniform response for any refused call.
pub open spec fn spec_denied_response() -> GatewayResponseView {
    GatewayResponseView { status: 403, body: "access denied"@ }
}

/// The response when the backend is unreachable or timed out.
pub open spec fn spec_unavailable_response() -> GatewayResponseView {
    GatewayResponseView { status: 502, body: "backend unavailable"@ }
}

/// The response for a body over the size bound.
pub open spec fn spec_too_large_response() -> GatewayResponseView {
    GatewayResponseView { status: 413, body: "payload too large"@ }
}

/// The uniform access-denied response. Every refusal reason maps to this
/// one value: denials never reveal which check failed.
pub fn denied_response() -> (r: GatewayResponse)
    ensures
        r@ == spec_denied_response(),
{
    GatewayResponse { status: 403, body: String::from_str("access denied") }
}

fn unavailable_response() -> (r: GatewayResponse)
    ensures
        r@ == spec_unavailable_response(),
{
    GatewayResponse { status: 502, body: String::from_str("backend unavailable") }
}

fn too_large_response() -> (r: GatewayResponse)
    ensures
        r@ == spec_too_large_response(),
{
    GatewayResponse { status: 413, body: String::from_str("payload too large") }
}

/// The credential a call presents: the credential header when present,
/// else the request path minus any leading separator.
pub open spec fn spec_extract_key(header: Option<Seq<char>>, path: Seq<char>) -> Seq<char> {
    match header {
        Option::Some(h) => h,
        Option::None => if path.len() > 0 && path[0] == '/' {
            path.skip(1)
        } else {
            path
        },
    }
}

/// Takes the credential from the header if present, else from the path.
pub fn extract_key(header: Option<String>, path: &str) -> (r: String)
    ensures
        r@ == spec_extract_key(header.deep_view(), path@),
{
    match header {
        Some(h) => h,
        None => {
            let n = path.unicode_len();
            if n > 0 && path.get_char(0) == '/' {
                String::from_str(path.substring_char(1, n))
            } else {
                String::from_str(path)
            }
        },
    }
}

/// The gateway's per-process state: the configured default application
/// and its handles on the registries and the quota counters.
pub struct State {
    pub default_app: Application,
    pub apps: AppStorage,
    pub rpckeys: RpcKeyStorage,
    pub counters: CounterStore,
}

impl State {
    pub open spec fn wf(&self) -> bool {
        &&& self.apps.wf()
        &&& self.rpckeys.wf()
        &&& self.counters.wf()
    }
}

/// Builds the gateway state at startup. The configured default
/// application must exist and be active; otherwise the process must not
/// start serving, and the error says why: absent gives `NotFoundError`,
/// inactive gives `ValidationError`.
pub fn gateway_startup(
    apps: AppStorage,
    rpckeys: RpcKeyStorage,
    counters: CounterStore,
    default_slug: &str,
) -> (r: Result<State, CoreError>)
    requires
        apps.wf(),
        rpckeys.wf(),
        counters.wf(),
    ensures
        (r matches Ok(st) ==> st.wf() && apps.records().contains_key(default_slug@)
            && st.default_app@ == apps.records()[default_slug@] && st.default_app@.active
            && st.apps == apps && st.rpckeys == rpckeys && st.counters == counters),
        (!apps.records().contains_key(default_slug@) ==> r == Err::<State, CoreError>(
            CoreError::NotFoundError,
        )),
        (apps.records().contains_key(default_slug@) && !apps.records()[default_slug@].active
            ==> r == Err::<State, CoreError>(CoreError::ValidationError)),
        (apps.records().contains_key(default_slug@) && apps.records()[default_slug@].active
            ==> r is Ok),
{
    let default_app = match apps.get(default_slug) {
        None => {
            return Err(CoreError::NotFoundError);
        },
        Some(a) => a,
    };
    if !default_app.active {
        return Err(CoreError::ValidationError);
    }
    Ok(State { default_app, apps, rpckeys, counters })
}

/// What the pipeline decides before any forwarding: relay the body to a
/// backend, or answer at once.
#[derive(Debug, Clone, PartialEq, Eq)]
pub enum PlanOutcome {
    Forward { url: String, body: String },
    Respond(GatewayResponse),
}

/// What came of the forwarded call: the backend's response, or no
/// response at all.
#[derive(Debug, Clone, PartialEq, Eq)]
pub enum ForwardOutcome {
    Response { status: u16, body: String },
    Unavailable,
}

/// The pipeline up to the forwarding decision. An oversized body is
/// refused before any other work and before any counter moves. The
/// credential is taken from the header, else the path, and resolved
/// against the configured default application: a refusal answers with
/// the uniform access-denied response and touches no counter; an
/// accepted call hands back the forward action on the application's
/// backend URL with the body unchanged, with every configured quota
/// counter consumed.
pub fn plan_request(
    st: &mut State,
    header_key: Option<String>,
    path: &str,
    body: String,
    now: u64,
) -> (r: PlanOutcome)
    requires
        old(st).wf(),
    ensures
        final(st).wf(),
        final(st).default_app == old(st).default_app,
        final(st).apps == old(st).apps,
        final(st).rpckeys == old(st).rpckeys,
        ({
            let cred = spec_extract_key(header_key.deep_view(), path@);
            let d = spec_deny(
                old(st).apps.records(),
                old(st).rpckeys.records(),
                old(st).counters.contents(),
                old(st).default_app@.slug,
                cred,
                now,
            );
            if body@.len() > MAX_PAYLOAD_CHARS {
                (r matches PlanOutcome::Respond(resp) && resp@ == spec_too_large_response())
                    && final(st).counters.contents() == old(st).counters.contents()
            } else if d is Some {
                (r matches PlanOutcome::Respond(resp) && resp@ == spec_denied_response())
                    && final(st).counters.contents() == old(st).counters.contents()
            } else {
                (r matches PlanOutcome::Forward { url, body: b } && url@
                    == old(st).default_app@.proxy.url && b@ == body@)
                    && final(st).counters.contents() =~= bump_counters(
                    old(st).rpckeys.records()[rk_name(old(st).default_app@.slug, cred)],
                    old(st).counters.contents(),
                    now,
                    WINDOW_COUNT as int,
                )
            }
        }),
{
    if body.as_str().unicode_len() > MAX_PAYLOAD_CHARS {
        return PlanOutcome::Respond(too_large_response());
    }
    let cred = extract_key(header_key, path);
    let outcome = resolve(
        &st.apps,
        &st.rpckeys,
        &mut st.counters,
        st.default_app.slug.as_str(),
        cred.as_str(),
        now,
    );
    match outcome {
        ResolveOutcome::Deny(_) => PlanOutcome::Respond(denied_response()),
        ResolveOutcome::Accept(_) => PlanOutcome::Forward {
            url: st.default_app.proxy.url.clone(),
            body,
        },
    }
}

/// The pipeline after the forwarded call: the backend's status and body
/// pass through verbatim; a backend that gave no response yields the
/// gateway-failure response. No retry in either case.
pub fn finish_request(outcome: ForwardOutcome) -> (r: GatewayResponse)
    ensures
        (outcome matches ForwardOutcome::Response { status, body } ==> r@.status == status
            && r@.body == body@),
        (outcome is Unavailable ==> r@ == spec_unavailable_response()),
{
    match outcome {
        ForwardOutcome::Response { status, body } => GatewayResponse { status, body },
        ForwardOutcome::Unavailable => unavailable_response(),
    }
}

} // verus!
