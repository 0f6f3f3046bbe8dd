//! The access gate: resolves a presented credential against a configured
//! application to an authorization decision, enforcing activity, expiry,
//! and per-window quotas over fixed windows.
//!
//! A quota counter is keyed by the credential, the window granularity and
//! the window's ordinal, so a counter for a past window is never
//! consulted again; a backing store may let such counters lapse (for
//! instance with a time-to-live of the window size) without changing any
//! decision.

use vstd::prelude::*;
use vstd::string::*;
use crate::hexnum::{
    hex_fixed, hex_seq_val, lemma_hex_round_trip, lemma_pow16_16, pow16, u64_hex_fixed,
};
use crate::model::{ApplicationView, RpcKey, RpcKeyView};
use crate::registry::{rk_name, AppStorage, RpcKeyStorage};
use crate::store::{counter_bump, counter_of, counter_read, CounterStore};

verus! {

/// Why a credential was refused.
#[derive(Debug, Clone, Copy, PartialEq, Eq, Structural)]
pub enum DenyReason {
    AppNotFound,
    AppInactive,
    KeyNotFound,
    KeyInactive,
    KeyExpired,
    QuotaExceeded,
}

/// What resolving yields: the key, or the reason it was refused.
#[derive(Debug, Clone, PartialEq, Eq)]
pub enum ResolveOutcome {
    Accept(RpcKey),
    Deny(DenyReason),
}

/// The number of quota window granularities, from one second up to one
/// year.
pub const WINDOW_COUNT: usize = 7;

/// The size in seconds of window granularity `w`: second, minute, hour,
/// day, week, thirty-day month, and 365-day year.
pub open spec fn window_secs(w: int) -> u64 {
    if w == 0 {
        1
    } else if w == 1 {
        60
    } else if w == 2 {
        3600
    } else if w == 3 {
        86400
    } else if w == 4 {
        604800
    } else if w == 5 {
        2592000
    } else {
        31536000
    }
}

/// The key's configured quota for window granularity `w`, if any.
pub open spec fn quota_of(k: RpcKeyView, w: int) -> Option<u64> {
    if w == 0 {
        k.quota_second
    } else if w == 1 {
        k.quota_minute
    } else if w == 2 {
        k.quota_hour
    } else if w == 3 {
        k.quota_day
    } else if w == 4 {
        k.quota_week
    } else if w == 5 {
        k.quota_month
    } else {
        k.quota_year
    }
}

/// The ordinal of the window of granularity `w` that `now` falls in.
pub open spec fn window_id(now: u64, w: int) -> u64 {
    (now as nat / window_secs(w) as nat) as u64
}

/// The counter key for one credential, window granularity and window
/// ordinal.
pub open spec fn counter_name(key_id: Seq<char>, w: int, id: u64) -> Seq<char> {
    "q_"@ + key_id + "_"@ + hex_fixed(w as nat, 2) + "_"@ + hex_fixed(id as nat, 16)
}

/// Window granularity `w` refuses another request: a quota is configured
/// and the current window's counter has reached it.
pub open spec fn blocked_at(
    k: RpcKeyView,
    counters: Map<Seq<char>, u64>,
    now: u64,
    w: int,
) -> bool {
    match quota_of(k, w) {
        Option::Some(limit) => counter_of(
            counters,
            counter_name(k.key_id, w, window_id(now, w)),
        ) >= limit,
        Option::None => false,
    }
}

/// Some configured window refuses another request. A key with no quota
/// configured is never blocked.
pub open spec fn quota_blocked(k: RpcKeyView, counters: Map<Seq<char>, u64>, now: u64) -> bool {
    exists|w: int| 0 <= w < WINDOW_COUNT && blocked_at(k, counters, now, w)
}

/// Why a call is refused, if it is. The rules apply in a fixed order:
/// application present, application active, key present under that
/// application, key active, key unexpired, every configured window under
/// its quota.
pub open spec fn spec_deny(
    apps: Map<Seq<char>, ApplicationView>,
    keys: Map<Seq<char>, RpcKeyView>,
    counters: Map<Seq<char>, u64>,
    slug: Seq<char>,
    presented: Seq<char>,
    now: u64,
) -> Option<DenyReason> {
    if !apps.contains_key(slug) {
        Option::Some(DenyReason::AppNotFound)
    } else if !apps[slug].active {
        Option::Some(DenyReason::AppInactive)
    } else if !keys.contains_key(rk_name(slug, presented)) {
        Option::Some(DenyReason::KeyNotFound)
    } else {
        let k = keys[rk_name(slug, presented)];
        if !k.active {
            Option::Some(DenyReason::KeyInactive)
        } else if now > k.expires {
            Option::Some(DenyReason::KeyExpired)
        } else if quota_blocked(k, counters, now) {
            Option::Some(DenyReason::QuotaExceeded)
        } else {
            Option::None
        }
    }
}

/// The counters after an accepted request: each window granularity up to
/// `upto` with a configured quota has the current window's counter one
/// higher.
pub open spec fn bump_counters(
    k: RpcKeyView,
    counters: Map<Seq<char>, u64>,
    now: u64,
    upto: int,
) -> Map<Seq<char>, u64>
    decreases upto,
{
    if upto <= 0 {
        counters
    } else {
        let c = bump_counters(k, counters, now, upto - 1);
        match quota_of(k, upto - 1) {
            Option::Some(_) => {
                let name = counter_name(k.key_id, upto - 1, window_id(now, upto - 1));
                c.insert(name, (counter_of(c, name) + 1) as u64)
            },
            Option::None => c,
        }
    }
}

/// Counter keys for one credential separate granularities and window
/// ordinals.
pub proof fn lemma_counter_name_injective(key_id: Seq<char>, w1: int, w2: int, id1: u64, id2: u64)
    requires
        0 <= w1 < WINDOW_COUNT,
        0 <= w2 < WINDOW_COUNT,
        counter_name(key_id, w1, id1) == counter_name(key_id, w2, id2),
    ensures
        w1 == w2,
        id1 == id2,
{
    reveal_strlit("q_");
    reveal_strlit("_");
    let n = key_id.len() as int;
    let s1 = counter_name(key_id, w1, id1);
    let s2 = counter_name(key_id, w2, id2);
    crate::hexnum::lemma_hex_fixed_props(w1 as nat, 2);
    crate::hexnum::lemma_hex_fixed_props(w2 as nat, 2);
    crate::hexnum::lemma_hex_fixed_props(id1 as nat, 16);
    crate::hexnum::lemma_hex_fixed_props(id2 as nat, 16);
    assert(s1.subrange(3 + n, 5 + n) =~= hex_fixed(w1 as nat, 2));
    assert(s2.subrange(3 + n, 5 + n) =~= hex_fixed(w2 as nat, 2));
    assert(pow16(2) == 256) by {
        assert(pow16(0) == 1);
        assert(pow16(1) == 16);
    }
    lemma_hex_round_trip(w1 as nat, 2);
    lemma_hex_round_trip(w2 as nat, 2);
    assert(hex_seq_val(hex_fixed(w1 as nat, 2)) == hex_seq_val(hex_fixed(w2 as nat, 2)));
    assert(s1.subrange(6 + n, 22 + n) =~= hex_fixed(id1 as nat, 16));
    assert(s2.subrange(6 + n, 22 + n) =~= hex_fixed(id2 as nat, 16));
    lemma_pow16_16();
    lemma_hex_round_trip(id1 as nat, 16);
    lemma_hex_round_trip(id2 as nat, 16);
    assert(hex_seq_val(hex_fixed(id1 as nat, 16)) == hex_seq_val(hex_fixed(id2 as nat, 16)));
}

/// Bumping the windows below `upto` leaves the counter of a window at or
/// above `upto` unchanged.
proof fn lemma_bump_other(
    k: RpcKeyView,
    counters: Map<Seq<char>, u64>,
    now: u64,
    upto: int,
    w: int,
    id: u64,
)
    requires
        0 <= upto <= w < WINDOW_COUNT,
    ensures
        counter_of(bump_counters(k, counters, now, upto), counter_name(k.key_id, w, id))
            == counter_of(counters, counter_name(k.key_id, w, id)),
    decreases upto,
{
    if upto > 0 {
        lemma_bump_other(k, counters, now, upto - 1, w, id);
        if quota_of(k, upto - 1) is Some {
            let name = counter_name(k.key_id, upto - 1, window_id(now, upto - 1));
            if name == counter_name(k.key_id, w, id) {
                lemma_counter_name_injective(k.key_id, upto - 1, w, window_id(now, upto - 1), id);
            }
        }
    }
}

/// After all bumps, a configured window's current counter is exactly one
/// higher.
pub proof fn lemma_bump_bumped(k: RpcKeyView, counters: Map<Seq<char>, u64>, now: u64, w: int)
    requires
        0 <= w < WINDOW_COUNT,
        quota_of(k, w) is Some,
        counter_of(counters, counter_name(k.key_id, w, window_id(now, w))) < u64::MAX,
    ensures
        counter_of(bump_counters(k, counters, now, WINDOW_COUNT as int), counter_name(k.key_id, w, window_id(now, w)))
            == counter_of(counters, counter_name(k.key_id, w, window_id(now, w))) + 1,
{
    lemma_bump_above(k, counters, now, WINDOW_COUNT as int, w, window_id(now, w));
}

/// Once the bumping pass has moved past window `w`, that window's
/// current counter stands exactly one higher; the later windows' bumps
/// leave it alone.
proof fn lemma_bump_above(
    k: RpcKeyView,
    counters: Map<Seq<char>, u64>,
    now: u64,
    upto: int,
    w: int,
    id: u64,
)
    requires
        0 <= w < upto <= WINDOW_COUNT,
        id == window_id(now, w),
        quota_of(k, w) is Some,
        counter_of(counters, counter_name(k.key_id, w, id)) < u64::MAX,
    ensures
        counter_of(bump_counters(k, counters, now, upto), counter_name(k.key_id, w, id))
            == counter_of(counters, counter_name(k.key_id, w, id)) + 1,
    decreases upto,
{
    let name = counter_name(k.key_id, w, id);
    if upto - 1 == w {
        lemma_bump_other(k, counters, now, w, w, id);
    } else {
        lemma_bump_above(k, counters, now, upto - 1, w, id);
        if quota_of(k, upto - 1) is Some {
            let other = counter_name(k.key_id, upto - 1, window_id(now, upto - 1));
            if other == name {
                lemma_counter_name_injective(k.key_id, upto - 1, w, window_id(now, upto - 1), id);
            }
        }
    }
}

/// Bumping touches no counter of another credential's window, nor a
/// window ordinal other than the current one.
pub proof fn lemma_bump_unrelated(
    k: RpcKeyView,
    counters: Map<Seq<char>, u64>,
    now: u64,
    upto: int,
    name: Seq<char>,
)
    requires
        0 <= upto <= WINDOW_COUNT,
        forall|w: int|
            0 <= w < WINDOW_COUNT ==> name != counter_name(
                k.key_id,
                w,
                window_id(now, w),
            ),
    ensures
        counter_of(bump_counters(k, counters, now, upto), name) == counter_of(counters, name),
    decreases upto,
{
    if upto > 0 {
        lemma_bump_unrelated(k, counters, now, upto - 1, name);
    }
}

/// Scoping: a key that exists only under application `b` resolves as
/// `KeyNotFound` against application `a`, whatever the presented
/// identifier — lookup is always scoped by the application, so there is
/// no cross-application leakage.
pub proof fn lemma_cross_app_key_not_found(
    apps: Map<Seq<char>, ApplicationView>,
    keys: Map<Seq<char>, RpcKeyView>,
    counters: Map<Seq<char>, u64>,
    a: Seq<char>,
    b: Seq<char>,
    presented: Seq<char>,
    now: u64,
)
    requires
        crate::model::valid_slug(a),
        crate::model::valid_slug(b),
        a != b,
        apps.contains_key(a),
        apps[a].active,
        forall|n: Seq<char>|
            keys.contains_key(n) ==> exists|id: Seq<char>| n == rk_name(b, id),
    ensures
        spec_deny(apps, keys, counters, a, presented, now) == Option::Some(
            DenyReason::KeyNotFound,
        ),
{
    if keys.contains_key(rk_name(a, presented)) {
        let id = choose|id: Seq<char>| rk_name(a, presented) == rk_name(b, id);
        crate::registry::lemma_rk_name_scoped(a, b, presented, id);
    }
}

/// Expiry: an active key whose deadline has passed is denied as
/// `KeyExpired`, whatever its remaining quota and counters hold.
pub proof fn lemma_expired_key_denied(
    apps: Map<Seq<char>, ApplicationView>,
    keys: Map<Seq<char>, RpcKeyView>,
    counters: Map<Seq<char>, u64>,
    slug: Seq<char>,
    presented: Seq<char>,
    now: u64,
)
    requires
        apps.contains_key(slug),
        apps[slug].active,
        keys.contains_key(rk_name(slug, presented)),
        keys[rk_name(slug, presented)].active,
        now > keys[rk_name(slug, presented)].expires,
    ensures
        spec_deny(apps, keys, counters, slug, presented, now) == Option::Some(
            DenyReason::KeyExpired,
        ),
{
}

/// Expiry: a key whose deadline has passed is never accepted, active or
/// not.
pub proof fn lemma_expired_key_never_accepted(
    apps: Map<Seq<char>, ApplicationView>,
    keys: Map<Seq<char>, RpcKeyView>,
    counters: Map<Seq<char>, u64>,
    slug: Seq<char>,
    presented: Seq<char>,
    now: u64,
)
    requires
        now > keys[rk_name(slug, presented)].expires,
    ensures
        spec_deny(apps, keys, counters, slug, presented, now) is Some,
{
}

/// Quota over a fixed window: with a per-minute quota of two and fresh
/// counters, two requests inside one window are accepted, a third inside
/// the same window is refused as `QuotaExceeded` with the counters left
/// untouched, and a request in a later window is accepted again.
pub proof fn lemma_quota_fixed_window(
    apps: Map<Seq<char>, ApplicationView>,
    keys: Map<Seq<char>, RpcKeyView>,
    c0: Map<Seq<char>, u64>,
    slug: Seq<char>,
    presented: Seq<char>,
    t1: u64,
    t2: u64,
    t3: u64,
    t4: u64,
)
    requires
        apps.contains_key(slug),
        apps[slug].active,
        keys.contains_key(rk_name(slug, presented)),
        ({
            let k = keys[rk_name(slug, presented)];
            &&& k.active
            &&& k.quota_second is None
            &&& k.quota_minute == Option::Some(2u64)
            &&& k.quota_hour is None
            &&& k.quota_day is None
            &&& k.quota_week is None
            &&& k.quota_month is None
            &&& k.quota_year is None
            &&& t1 <= k.expires
            &&& t2 <= k.expires
            &&& t3 <= k.expires
            &&& t4 <= k.expires
            &&& counter_of(c0, counter_name(k.key_id, 1, window_id(t1, 1))) == 0
            &&& counter_of(c0, counter_name(k.key_id, 1, window_id(t4, 1))) == 0
        }),
        window_id(t1, 1) == window_id(t2, 1),
        window_id(t2, 1) == window_id(t3, 1),
        window_id(t4, 1) != window_id(t1, 1),
    ensures
        ({
            let k = keys[rk_name(slug, presented)];
            let c1 = bump_counters(k, c0, t1, WINDOW_COUNT as int);
            let c2 = bump_counters(k, c1, t2, WINDOW_COUNT as int);
            &&& spec_deny(apps, keys, c0, slug, presented, t1) is None
            &&& spec_deny(apps, keys, c1, slug, presented, t2) is None
            &&& spec_deny(apps, keys, c2, slug, presented, t3) == Option::Some(
                DenyReason::QuotaExceeded,
            )
            &&& spec_deny(apps, keys, c2, slug, presented, t4) is None
        }),
{
    let k = keys[rk_name(slug, presented)];
    let name = counter_name(k.key_id, 1, window_id(t1, 1));
    let name4 = counter_name(k.key_id, 1, window_id(t4, 1));
    let c1 = bump_counters(k, c0, t1, WINDOW_COUNT as int);
    let c2 = bump_counters(k, c1, t2, WINDOW_COUNT as int);

    // First request: the minute counter reads zero, nothing is blocked.
    assert forall|w: int| 0 <= w < WINDOW_COUNT implies !blocked_at(k, c0, t1, w) by {}
    assert(!quota_blocked(k, c0, t1));
    assert(spec_deny(apps, keys, c0, slug, presented, t1) is None);
    lemma_bump_bumped(k, c0, t1, 1);
    assert(counter_of(c1, name) == 1);

    // Second request, same window: the counter reads one.
    assert forall|w: int| 0 <= w < WINDOW_COUNT implies !blocked_at(k, c1, t2, w) by {}
    assert(!quota_blocked(k, c1, t2));
    assert(spec_deny(apps, keys, c1, slug, presented, t2) is None);
    lemma_bump_bumped(k, c1, t2, 1);
    assert(counter_of(c2, name) == 2);

    // Third request, same window: the counter has reached the quota.
    assert(blocked_at(k, c2, t3, 1));
    assert(quota_blocked(k, c2, t3));
    assert(spec_deny(apps, keys, c2, slug, presented, t3) == Option::Some(
        DenyReason::QuotaExceeded,
    ));

    // A request after the window boundary: its counter was never touched.
    assert forall|w: int|
        0 <= w < WINDOW_COUNT implies name4 != counter_name(k.key_id, w, window_id(t1, w)) by {
        if name4 == counter_name(k.key_id, w, window_id(t1, w)) {
            lemma_counter_name_injective(k.key_id, 1, w, window_id(t4, 1), window_id(t1, w));
        }
    }
    assert forall|w: int|
        0 <= w < WINDOW_COUNT implies name4 != counter_name(k.key_id, w, window_id(t2, w)) by {
        if name4 == counter_name(k.key_id, w, window_id(t2, w)) {
            lemma_counter_name_injective(k.key_id, 1, w, window_id(t4, 1), window_id(t2, w));
        }
    }
    lemma_bump_unrelated(k, c0, t1, WINDOW_COUNT as int, name4);
    lemma_bump_unrelated(k, c1, t2, WINDOW_COUNT as int, name4);
    assert(counter_of(c2, name4) == 0);
    assert forall|w: int| 0 <= w < WINDOW_COUNT implies !blocked_at(k, c2, t4, w) by {}
    assert(!quota_blocked(k, c2, t4));
}

/// The size in seconds of window granularity `w`.
pub fn window_secs_exec(w: usize) -> (r: u64)
    requires
        w < WINDOW_COUNT,
    ensures
        r == window_secs(w as int),
        r > 0,
{
    match w {
        0 => 1,
        1 => 60,
        2 => 3600,
        3 => 86400,
        4 => 604800,
        5 => 2592000,
        _ => 31536000,
    }
}

/// The key's configured quota for window granularity `w`.
fn quota_limit(k: &RpcKey, w: usize) -> (r: Option<u64>)
    requires
        w < WINDOW_COUNT,
    ensures
        r == quota_of(k@, w as int),
{
    match w {
        0 => k.quota_second,
        1 => k.quota_minute,
        2 => k.quota_hour,
        3 => k.quota_day,
        4 => k.quota_week,
        5 => k.quota_month,
        _ => k.quota_year,
    }
}

/// The counter key for the window of granularity `w` that `now` falls
/// in.
fn counter_name_exec(key_id: &str, w: usize, now: u64) -> (r: String)
    requires
        w < WINDOW_COUNT,
    ensures
        r@ == counter_name(key_id@, w as int, window_id(now, w as int)),
{
    let secs = window_secs_exec(w);
    let id = now / secs;
    let mut s = String::from_str("q_");
    s.append(key_id);
    s.append("_");
    let wt = u64_hex_fixed(w as u64, 2);
    s.append(wt.as_str());
    s.append("_");
    let e = u64_hex_fixed(id, 16);
    s.append(e.as_str());
    s
}

/// Resolves a presented credential against the application `app_slug`:
/// either the key it denotes, with every configured quota counter
/// consumed, or a refusal, with no counter touched. The checks run in
/// the order the refusal reasons are defined in; the quota check passes
/// only when every configured window is under its limit, and a key with
/// no quota configured is accepted whenever it is active and unexpired.
pub fn resolve(
    apps: &AppStorage,
    keys: &RpcKeyStorage,
    counters: &mut CounterStore,
    app_slug: &str,
    presented: &str,
    now: u64,
) -> (r: ResolveOutcome)
    requires
        apps.wf(),
        keys.wf(),
        old(counters).wf(),
    ensures
        final(counters).wf(),
        ({
            let d = spec_deny(
                apps.records(),
                keys.records(),
                old(counters).contents(),
                app_slug@,
                presented@,
                now,
            );
            &&& (d matches Some(reason) ==> r == ResolveOutcome::Deny(reason)
                && final(counters).contents() == old(counters).contents())
            &&& (d is None ==> (r matches ResolveOutcome::Accept(k) && k@ == keys.records()[rk_name(
                app_slug@,
                presented@,
            )]) && final(counters).contents() =~= bump_counters(
                keys.records()[rk_name(app_slug@, presented@)],
                old(counters).contents(),
                now,
                WINDOW_COUNT as int,
            ))
        }),
{
    let app = match apps.get(app_slug) {
        None => {
            return ResolveOutcome::Deny(DenyReason::AppNotFound);
        },
        Some(a) => a,
    };
    if !app.active {
        return ResolveOutcome::Deny(DenyReason::AppInactive);
    }
    let key = match keys.get(app_slug, presented) {
        None => {
            return ResolveOutcome::Deny(DenyReason::KeyNotFound);
        },
        Some(k) => k,
    };
    if !key.active {
        return ResolveOutcome::Deny(DenyReason::KeyInactive);
    }
    if now > key.expires {
        return ResolveOutcome::Deny(DenyReason::KeyExpired);
    }
    // First pass: check every configured window; refuse before touching
    // any counter.
    let mut w: usize = 0;
    while w < WINDOW_COUNT
        invariant
            w <= WINDOW_COUNT,
            counters.wf(),
            counters.contents() == old(counters).contents(),
            apps.records().contains_key(app_slug@),
            apps.records()[app_slug@].active,
            keys.records().contains_key(rk_name(app_slug@, presented@)),
            key@ == keys.records()[rk_name(app_slug@, presented@)],
            key@.active,
            now <= key@.expires,
            forall|j: int| 0 <= j < w ==> !blocked_at(key@, counters.contents(), now, j),
        decreases WINDOW_COUNT - w,
    {
        match quota_limit(&key, w) {
            Some(limit) => {
                let name = counter_name_exec(key.key_id.as_str(), w, now);
                if counter_read(counters, name.as_str()) >= limit {
                    proof {
                        assert(blocked_at(key@, counters.contents(), now, w as int));
                        assert(quota_blocked(key@, counters.contents(), now));
                    }
                    return ResolveOutcome::Deny(DenyReason::QuotaExceeded);
                }
            },
            None => {},
        }
        w = w + 1;
    }
    proof {
        assert(!quota_blocked(key@, counters.contents(), now));
    }
    // Second pass: the request is accepted; consume one slot in every
    // configured window.
    let ghost c0 = counters.contents();
    let mut w: usize = 0;
    while w < WINDOW_COUNT
        invariant
            w <= WINDOW_COUNT,
            counters.wf(),
            c0 == old(counters).contents(),
            counters.contents() == bump_counters(key@, c0, now, w as int),
            apps.records().contains_key(app_slug@),
            apps.records()[app_slug@].active,
            keys.records().contains_key(rk_name(app_slug@, presented@)),
            key@ == keys.records()[rk_name(app_slug@, presented@)],
            key@.active,
            now <= key@.expires,
            forall|j: int| 0 <= j < WINDOW_COUNT ==> !blocked_at(key@, c0, now, j),
        decreases WINDOW_COUNT - w,
    {
        match quota_limit(&key, w) {
            Some(limit) => {
                let name = counter_name_exec(key.key_id.as_str(), w, now);
                proof {
                    lemma_bump_other(key@, c0, now, w as int, w as int, window_id(now, w as int));
                    assert(!blocked_at(key@, c0, now, w as int));
                    assert(counter_of(counters.contents(), name@) < limit);
                }
                counter_bump(counters, name.as_str());
                proof {
                    assert(counters.contents() =~= bump_counters(key@, c0, now, w + 1));
                }
            },
            None => {},
        }
        w = w + 1;
    }
    ResolveOutcome::Accept(key)
}

} // verus!
