//! The entity model: applications (tenants) and the bearer keys scoped to
//! them, together with credential generation.

use vstd::prelude::*;
use vstd::string::*;
use crate::hexnum::{hex_trim, u64_hex_trim};

verus! {

/// Seconds in ten years; the default lifetime of a freshly generated key.
pub const TEN_YEARS_SECS: u64 = 315360000;

/// One backend endpoint: the listen path, the upstream URL, and whether
/// the listen path prefix is stripped before forwarding.
#[derive(Debug, Clone, PartialEq, Eq)]
pub struct ProxyEndpoint {
    pub path: String,
    pub url: String,
    pub strip: bool,
}

pub struct ProxyEndpointView {
    pub path: Seq<char>,
    pub url: Seq<char>,
    pub strip: bool,
}

impl View for ProxyEndpoint {
    type V = ProxyEndpointView;

    open spec fn view(&self) -> ProxyEndpointView {
        ProxyEndpointView { path: self.path@, url: self.url@, strip: self.strip }
    }
}

impl DeepView for ProxyEndpoint {
    type V = ProxyEndpointView;

    open spec fn deep_view(&self) -> ProxyEndpointView {
        self.view()
    }
}

/// A tenant: a display name, a unique URL-safe slug (the primary key),
/// exactly one backend endpoint, and an activity flag.
#[derive(Debug, Clone, PartialEq, Eq)]
pub struct Application {
    pub name: String,
    pub slug: String,
    pub proxy: ProxyEndpoint,
    pub active: bool,
}

pub struct ApplicationView {
    pub name: Seq<char>,
    pub slug: Seq<char>,
    pub proxy: ProxyEndpointView,
    pub active: bool,
}

impl View for Application {
    type V = ApplicationView;

    open spec fn view(&self) -> ApplicationView {
        ApplicationView {
            name: self.name@,
            slug: self.slug@,
            proxy: self.proxy@,
            active: self.active,
        }
    }
}

impl DeepView for Application {
    type V = ApplicationView;

    open spec fn deep_view(&self) -> ApplicationView {
        self.view()
    }
}

/// A slug character: `a-z`, `0-9` or `-`. In particular a slug never
/// holds `_`, which keeps composite record names unambiguous.
pub open spec fn is_slug_char(c: char) -> bool {
    ('a' <= c && c <= 'z') || ('0' <= c && c <= '9') || c == '-'
}

pub open spec fn valid_slug(s: Seq<char>) -> bool {
    forall|i: int| 0 <= i < s.len() ==> is_slug_char(s[i])
}

/// What the slug crate's `slugify` returns: a pure function of the text.
pub uninterp spec fn slug_of(s: Seq<char>) -> Seq<char>;

/// Relies on `slug::slugify`: the result depends on the input text alone,
/// and its documentation promises that it consists only of `a-z`, `0-9`
/// and `-`.
#[verifier::external_body]
fn slugify_str(s: &str) -> (r: String)
    ensures
        r@ == slug_of(s@),
        valid_slug(r@),
{
    slug::slugify(s)
}

impl Application {
    /// A fresh, active application; the slug defaults to the slugified
    /// display name.
    pub fn new(name: &str, slug: Option<String>, path: String, url: String, strip: bool) -> (r:
        Self)
        ensures
            r@.name == name@,
            match slug {
                Some(s) => r@.slug == s@,
                None => r@.slug == slug_of(name@) && valid_slug(r@.slug),
            },
            r@.proxy.path == path@,
            r@.proxy.url == url@,
            r@.proxy.strip == strip,
            r@.active,
    {
        let chosen = match slug {
            Some(x) => x,
            None => slugify_str(name),
        };
        Application {
            name: name.to_owned(),
            slug: chosen,
            proxy: ProxyEndpoint { path, url, strip },
            active: true,
        }
    }
}

/// A bearer credential scoped to one application, with optional expiry
/// and per-window quotas. Absent quota fields mean "unbounded" for that
/// window.
#[derive(Debug, Clone, PartialEq, Eq)]
pub struct RpcKey {
    pub key_id: String,
    pub key_hash: String,
    pub app: String,
    pub tags: Vec<String>,
    pub expires: u64,
    pub active: bool,
    pub quota_second: Option<u64>,
    pub quota_minute: Option<u64>,
    pub quota_hour: Option<u64>,
    pub quota_day: Option<u64>,
    pub quota_week: Option<u64>,
    pub quota_month: Option<u64>,
    pub quota_year: Option<u64>,
}

pub struct RpcKeyView {
    pub key_id: Seq<char>,
    pub key_hash: Seq<char>,
    pub app: Seq<char>,
    pub tags: Seq<Seq<char>>,
    pub expires: u64,
    pub active: bool,
    pub quota_second: Option<u64>,
    pub quota_minute: Option<u64>,
    pub quota_hour: Option<u64>,
    pub quota_day: Option<u64>,
    pub quota_week: Option<u64>,
    pub quota_month: Option<u64>,
    pub quota_year: Option<u64>,
}

impl View for RpcKey {
    type V = RpcKeyView;

    open spec fn view(&self) -> RpcKeyView {
        RpcKeyView {
            key_id: self.key_id@,
            key_hash: self.key_hash@,
            app: self.app@,
            tags: self.tags.deep_view(),
            expires: self.expires,
            active: self.active,
            quota_second: self.quota_second,
            quota_minute: self.quota_minute,
            quota_hour: self.quota_hour,
            quota_day: self.quota_day,
            quota_week: self.quota_week,
            quota_month: self.quota_month,
            quota_year: self.quota_year,
        }
    }
}

impl DeepView for RpcKey {
    type V = RpcKeyView;

    open spec fn deep_view(&self) -> RpcKeyView {
        self.view()
    }
}

/// A credential character: lowercase `a-z` without `l` and `o`, or a
/// digit. Like slug characters, never `_`.
pub open spec fn is_key_char(c: char) -> bool {
    ('a' <= c && c <= 'z' && c != 'l' && c != 'o') || ('0' <= c && c <= '9')
}

pub open spec fn valid_key_id(s: Seq<char>) -> bool {
    forall|i: int| 0 <= i < s.len() ==> is_key_char(s[i])
}

/// The expiry a key gets when none is requested: ten years from `now`,
/// saturating at the largest representable time.
pub open spec fn default_expiry(now: u64) -> u64 {
    if now + TEN_YEARS_SECS > u64::MAX {
        u64::MAX
    } else {
        (now + TEN_YEARS_SECS) as u64
    }
}

/// Relies on `rand::Rng::gen_range` over `rand::thread_rng`: returns a
/// uniformly drawn index below `bound`; panics only on an empty range,
/// which the precondition rules out.
#[verifier::external_body]
fn rand_index(bound: usize) -> (r: usize)
    requires
        bound > 0,
    ensures
        r < bound,
{
    rand::Rng::gen_range(&mut rand::thread_rng(), 0..bound)
}

/// Relies on `std::time::SystemTime::now` and `duration_since`: seconds
/// since the Unix epoch, or `None` when the clock reads earlier than the
/// epoch.
#[verifier::external_body]
fn unix_time_now() -> (r: Option<u64>)
{
    match std::time::SystemTime::now().duration_since(std::time::UNIX_EPOCH) {
        Ok(d) => Some(d.as_secs()),
        Err(_) => None,
    }
}

/// Relies on `fasthash::murmur2::hash64`: a 64-bit MurmurHash2 of the
/// bytes. The value depends on the target architecture, so nothing is
/// stated about it.
#[verifier::external_body]
fn murmur2_hash64(data: &[u8]) -> u64 {
    fasthash::murmur2::hash64(data)
}

/// The alphabet credentials are drawn from.
fn key_charset() -> (r: &'static str)
    ensures
        r@.len() == 34,
        forall|i: int| 0 <= i < r@.len() ==> is_key_char(#[trigger] r@[i]),
{
    proof {
        reveal_strlit("abcdefghijkmnpqrstuvwxyz0123456789");
    }
    "abcdefghijkmnpqrstuvwxyz0123456789"
}

/// A fresh random 32-character credential over the key alphabet.
pub fn random_key_id() -> (r: String)
    ensures
        r@.len() == 32,
        valid_key_id(r@),
{
    let cs = key_charset();
    let mut s = String::new();
    let mut i: usize = 0;
    while i < 32
        invariant
            i <= 32,
            s@.len() == i,
            valid_key_id(s@),
            cs@.len() == 34,
            forall|j: int| 0 <= j < cs@.len() ==> is_key_char(#[trigger] cs@[j]),
        decreases 32 - i,
    {
        let idx = rand_index(34);
        let piece = cs.substring_char(idx, idx + 1);
        s.append(piece);
        i = i + 1;
    }
    s
}

impl RpcKey {
    /// The key a generation request denotes, once the random credential,
    /// its fingerprint and the current time are fixed.
    pub fn assemble(
        key_id: String,
        key_hash: String,
        now: u64,
        app: String,
        tags: Vec<String>,
        expires: Option<u64>,
        quota_second: Option<u64>,
        quota_minute: Option<u64>,
        quota_hour: Option<u64>,
        quota_day: Option<u64>,
        quota_week: Option<u64>,
        quota_month: Option<u64>,
        quota_year: Option<u64>,
    ) -> (r: Self)
        ensures
            r@.key_id == key_id@,
            r@.key_hash == key_hash@,
            r@.app == app@,
            r@.tags == tags.deep_view(),
            r@.expires == match expires {
                Some(x) => x,
                None => default_expiry(now),
            },
            r@.active,
            r@.quota_second == quota_second,
            r@.quota_minute == quota_minute,
            r@.quota_hour == quota_hour,
            r@.quota_day == quota_day,
            r@.quota_week == quota_week,
            r@.quota_month == quota_month,
            r@.quota_year == quota_year,
    {
        let expires_at = match expires {
            Some(x) => x,
            None => {
                if now > u64::MAX - TEN_YEARS_SECS {
                    u64::MAX
                } else {
                    now + TEN_YEARS_SECS
                }
            },
        };
        RpcKey {
            key_id,
            key_hash,
            app,
            tags,
            expires: expires_at,
            active: true,
            quota_second,
            quota_minute,
            quota_hour,
            quota_day,
            quota_week,
            quota_month,
            quota_year,
        }
    }

    /// A fresh key for `app`: a random credential, its fingerprint in
    /// minimal hexadecimal, and an expiry defaulting to ten years from
    /// the current clock reading.
    pub fn generate(
        app: String,
        tag: Vec<String>,
        expires: Option<u64>,
        quota_second: Option<u64>,
        quota_minute: Option<u64>,
        quota_hour: Option<u64>,
        quota_day: Option<u64>,
        quota_week: Option<u64>,
        quota_month: Option<u64>,
        quota_year: Option<u64>,
    ) -> (r: Self)
        ensures
            r@.key_id.len() == 32,
            valid_key_id(r@.key_id),
            exists|h: u64| r@.key_hash == hex_trim(h as nat),
            r@.app == app@,
            r@.tags == tag.deep_view(),
            (expires matches Some(x) ==> r@.expires == x),
            (expires is None ==> exists|t: u64| r@.expires == default_expiry(t)),
            r@.active,
            r@.quota_second == quota_second,
            r@.quota_minute == quota_minute,
            r@.quota_hour == quota_hour,
            r@.quota_day == quota_day,
            r@.quota_week == quota_week,
            r@.quota_month == quota_month,
            r@.quota_year == quota_year,
    {
        let key_id = random_key_id();
        let h = murmur2_hash64(key_id.as_str().as_bytes());
        let key_hash = u64_hex_trim(h);
        let now = match unix_time_now() {
            Some(t) => t,
            None => 0,
        };
        let r = RpcKey::assemble(
            key_id,
            key_hash,
            now,
            app,
            tag,
            expires,
            quota_second,
            quota_minute,
            quota_hour,
            quota_day,
            quota_week,
            quota_month,
            quota_year,
        );
        proof {
            assert(r@.key_hash == hex_trim(h as nat));
            if expires is None {
                assert(r@.expires == default_expiry(now));
            }
        }
        r
    }
}

/// Whether a management command succeeded.
#[derive(Debug, Clone, Copy, PartialEq, Eq, Structural)]
pub enum RpcResponseStatus {
    OK,
    Failure,
}

/// Which management command a response answers.
#[derive(Debug, Clone, Copy, PartialEq, Eq, Structural)]
pub enum RpcKeyAction {
    Add,
    Get,
    List,
    Update,
}

/// A key-management command's result, discriminated by kind.
#[derive(Debug, Clone, PartialEq, Eq)]
pub enum RpcKeyResponse {
    Add { action: RpcKeyAction, status: RpcResponseStatus, key: String, key_hash: String },
    List { status: RpcResponseStatus, action: RpcKeyAction, keys: Vec<String> },
    Get { status: RpcResponseStatus, action: RpcKeyAction, key: RpcKey },
}

} // verus!
