//! Typed, prefix-scoped registries over the key-value store: applications
//! under the `app_` namespace keyed by slug, keys under the `rk_`
//! namespace keyed by the `(app, key_id)` composite. Reads are total: an
//! absent record and a record that fails to decode both read as "not
//! found".

use vstd::prelude::*;
use vstd::string::*;
use crate::codec::{
    decode_application, decode_rpc_key, encode_application, encode_rpc_key, lemma_app_round_trip,
    lemma_key_round_trip, spec_dec_app, spec_dec_key, spec_enc_app, spec_enc_key,
};
use crate::errors::CoreError;
use crate::model::{is_slug_char, valid_slug, Application, ApplicationView, RpcKey, RpcKeyView};
use crate::store::{scan_spec, KvStore, SCAN_LIMIT};

verus! {

/// The store key of the application with slug `slug`.
pub open spec fn app_key(slug: Seq<char>) -> Seq<char> {
    "app_"@ + slug
}

/// The store key of the key `key` scoped to the application `app`.
pub open spec fn rk_name(app: Seq<char>, key: Seq<char>) -> Seq<char> {
    "rk_"@ + "a"@ + app + "_"@ + key
}

/// The applications a raw store denotes: each slug whose record is
/// present and decodes, mapped to the decoded application.
pub open spec fn app_records(m: Map<Seq<char>, Seq<char>>) -> Map<Seq<char>, ApplicationView> {
    Map::new(
        |slug: Seq<char>| m.contains_key(app_key(slug)) && spec_dec_app(m[app_key(slug)]) is Some,
        |slug: Seq<char>| spec_dec_app(m[app_key(slug)])->0,
    )
}

/// The keys a raw store denotes, by full composite store key.
pub open spec fn key_records(m: Map<Seq<char>, Seq<char>>) -> Map<Seq<char>, RpcKeyView> {
    Map::new(
        |n: Seq<char>| m.contains_key(n) && spec_dec_key(m[n]) is Some,
        |n: Seq<char>| spec_dec_key(m[n])->0,
    )
}

/// The records under the listed keys, in order, skipping keys without a
/// record.
pub open spec fn scan_records<T>(m: Map<Seq<char>, T>, keys: Seq<Seq<char>>) -> Seq<T>
    decreases keys.len(),
{
    if keys.len() == 0 {
        Seq::empty()
    } else {
        let rest = scan_records(m, keys.drop_first());
        if m.contains_key(keys.first()) {
            seq![m[keys.first()]] + rest
        } else {
            rest
        }
    }
}

/// Storing one application's record moves exactly that slug in the
/// registry's view: store keys share the namespace prefix, so two slugs
/// collide only when equal.
pub proof fn lemma_app_records_insert(
    m: Map<Seq<char>, Seq<char>>,
    slug: Seq<char>,
    enc: Seq<char>,
    a: ApplicationView,
)
    requires
        spec_dec_app(enc) == Option::Some(a),
    ensures
        app_records(m.insert(app_key(slug), enc)) =~= app_records(m).insert(slug, a),
{
    reveal_strlit("app_");
    let m2 = m.insert(app_key(slug), enc);
    assert forall|t: Seq<char>| app_key(t) == app_key(slug) implies t == slug by {
        assert(t =~= app_key(t).skip(4));
        assert(slug =~= app_key(slug).skip(4));
    }
}

/// Two distinct valid slugs never share a composite key record, whatever
/// the key identifiers: a slug never holds `_`, so the separator after
/// the slug is the first `_` past the namespace prefix.
pub proof fn lemma_rk_name_scoped(a: Seq<char>, b: Seq<char>, k1: Seq<char>, k2: Seq<char>)
    requires
        valid_slug(a),
        valid_slug(b),
        a != b,
    ensures
        rk_name(a, k1) != rk_name(b, k2),
{
    reveal_strlit("rk_");
    reveal_strlit("a");
    reveal_strlit("_");
    if rk_name(a, k1) == rk_name(b, k2) {
        let s = rk_name(a, k1);
        let la = a.len() as int;
        let lb = b.len() as int;
        assert(forall|i: int| 0 <= i < la ==> s[4 + i] == a[i]);
        assert(forall|i: int| 0 <= i < lb ==> rk_name(b, k2)[4 + i] == b[i]);
        assert(s[4 + la] == '_');
        assert(rk_name(b, k2)[4 + lb] == '_');
        if la == lb {
            assert(a =~= b);
        } else if la < lb {
            assert(is_slug_char(b[la]));
            assert(s[4 + la] == b[la]);
            assert(false);
        } else {
            assert(is_slug_char(a[lb]));
            assert(s[4 + lb] == a[lb]);
            assert(false);
        }
    }
}

/// The application registry: applications stored under `app_<slug>`.
pub struct AppStorage {
    prefix: String,
    kv: KvStore<String>,
}

impl AppStorage {
    pub closed spec fn wf(&self) -> bool {
        self.prefix@ == "app_"@ && self.kv.wf()
    }

    /// The applications the registry holds, by slug.
    pub closed spec fn records(&self) -> Map<Seq<char>, ApplicationView> {
        app_records(self.kv.contents())
    }

    /// The slugs whose records a scan visits, oldest first.
    pub closed spec fn slugs_in_order(&self) -> Seq<Seq<char>> {
        scan_spec(self.kv.keys_in_order(), "app_"@, SCAN_LIMIT as nat)
    }

    /// An empty registry.
    pub fn new() -> (r: Self)
        ensures
            r.wf(),
            r.records() =~= Map::<Seq<char>, ApplicationView>::empty(),
    {
        let r = AppStorage { prefix: String::from_str("app_"), kv: KvStore::new() };
        proof {
            assert(r.records() =~= Map::<Seq<char>, ApplicationView>::empty());
        }
        r
    }

    /// The full store key for `key`.
    fn realkey(&self, key: &str) -> (r: String)
        requires
            self.wf(),
        ensures
            r@ == app_key(key@),
    {
        let mut s = String::from_str(self.prefix.as_str());
        s.append(key);
        s
    }

    /// Stores `v` under the slug `key`, overwriting any existing record.
    pub fn set(&mut self, key: &str, v: &Application) -> (r: Result<(), CoreError>)
        requires
            old(self).wf(),
        ensures
            final(self).wf(),
            r is Ok,
            final(self).records() =~= old(self).records().insert(key@, v@),
    {
        let enc = encode_application(v);
        let full = self.realkey(key);
        proof {
            lemma_app_round_trip(v@);
        }
        self.kv.set(full.as_str(), enc);
        proof {
            lemma_app_records_insert(old(self).kv.contents(), key@, spec_enc_app(v@), v@);
        }
        Ok(())
    }

    /// The application stored under the slug `key`, if a record exists
    /// there and decodes; a corrupt record reads as absent.
    pub fn get(&self, key: &str) -> (r: Option<Application>)
        requires
            self.wf(),
        ensures
            r is Some <==> self.records().contains_key(key@),
            r matches Some(a) ==> self.records()[key@] == a@,
    {
        let full = self.realkey(key);
        match self.kv.get(full.as_str()) {
            None => None,
            Some(stored) => decode_application(stored.as_str()),
        }
    }

    /// Every application in the namespace, in store order, up to the
    /// scan bound; records that fail to decode are skipped.
    pub fn scan(&self) -> (r: Vec<Application>)
        requires
            self.wf(),
        ensures
            r.deep_view() == scan_records(self.records(), self.slugs_in_order()),
    {
        let keys = self.kv.scan_keys(self.prefix.as_str());
        proof {
            assert(keys.deep_view().skip(0) =~= keys.deep_view());
        }
        self.collect(&keys, 0)
    }

    /// The decodable records under `keys[i..]`, in order.
    fn collect(&self, keys: &Vec<String>, i: usize) -> (r: Vec<Application>)
        requires
            self.wf(),
            i <= keys@.len(),
        ensures
            r.deep_view() == scan_records(self.records(), keys.deep_view().skip(i as int)),
        decreases keys@.len() - i,
    {
        let n = keys.len();
        if i == n {
            let r: Vec<Application> = Vec::new();
            proof {
                assert(r.deep_view() =~= Seq::<ApplicationView>::empty());
                assert(keys.deep_view().skip(i as int) =~= Seq::<Seq<char>>::empty());
            }
            return r;
        }
        let ghost suf = keys.deep_view().skip(i as int);
        proof {
            assert(suf.first() == keys.deep_view()[i as int]);
            assert(suf.drop_first() =~= keys.deep_view().skip(i + 1));
        }
        let rest = self.collect(keys, i + 1);
        match self.get(keys[i].as_str()) {
            Some(a) => {
                let ghost old_rest = rest.deep_view();
                let mut out = rest;
                out.insert(0, a);
                proof {
                    assert(out.deep_view() =~= seq![a@] + old_rest);
                }
                out
            },
            None => rest,
        }
    }
}

/// Round trip: for every application, storing it under its slug and then
/// reading that slug back yields an equal value. `set` turns the
/// registry's view into exactly this insertion — decoding an encoded
/// record gives the record back — and `get` reads the view at the slug.
pub proof fn lemma_set_then_get(
    records: Map<Seq<char>, ApplicationView>,
    slug: Seq<char>,
    a: ApplicationView,
)
    ensures
        records.insert(slug, a).contains_key(slug),
        records.insert(slug, a)[slug] == a,
{
}

/// Storing one key's record moves exactly that composite name in the
/// registry's view.
pub proof fn lemma_key_records_insert(
    m: Map<Seq<char>, Seq<char>>,
    name: Seq<char>,
    enc: Seq<char>,
    k: RpcKeyView,
)
    requires
        spec_dec_key(enc) == Option::Some(k),
    ensures
        key_records(m.insert(name, enc)) =~= key_records(m).insert(name, k),
{
}

/// The key registry: keys stored under `rk_a<app>_<key_id>`.
pub struct RpcKeyStorage {
    prefix: String,
    kv: KvStore<String>,
}

impl RpcKeyStorage {
    pub closed spec fn wf(&self) -> bool {
        self.prefix@ == "rk_"@ && self.kv.wf()
    }

    /// The keys the registry holds, by full composite store key.
    pub closed spec fn records(&self) -> Map<Seq<char>, RpcKeyView> {
        key_records(self.kv.contents())
    }

    /// The key identifiers under `app` that a scan visits, oldest first.
    pub closed spec fn ids_in_order(&self, app: Seq<char>) -> Seq<Seq<char>> {
        scan_spec(self.kv.keys_in_order(), "rk_"@ + "a"@ + app + "_"@, SCAN_LIMIT as nat)
    }

    /// An empty registry.
    pub fn new() -> (r: Self)
        ensures
            r.wf(),
            r.records() =~= Map::<Seq<char>, RpcKeyView>::empty(),
    {
        let r = RpcKeyStorage { prefix: String::from_str("rk_"), kv: KvStore::new() };
        proof {
            assert(r.records() =~= Map::<Seq<char>, RpcKeyView>::empty());
        }
        r
    }

    /// The scan prefix for the application `app`.
    fn scoped_prefix(&self, app: &str) -> (r: String)
        requires
            self.wf(),
        ensures
            r@ == "rk_"@ + "a"@ + app@ + "_"@,
    {
        let mut s = String::from_str(self.prefix.as_str());
        s.append("a");
        s.append(app);
        s.append("_");
        s
    }

    /// The full store key for `key` under `app`.
    fn realkey(&self, app: &str, key: &str) -> (r: String)
        requires
            self.wf(),
        ensures
            r@ == rk_name(app@, key@),
    {
        let mut s = self.scoped_prefix(app);
        s.append(key);
        s
    }

    /// Stores `v` under `(app, key)`, overwriting any existing record.
    pub fn set(&mut self, app: &str, key: &str, v: &RpcKey) -> (r: Result<(), CoreError>)
        requires
            old(self).wf(),
        ensures
            final(self).wf(),
            r is Ok,
            final(self).records() =~= old(self).records().insert(rk_name(app@, key@), v@),
    {
        let enc = encode_rpc_key(v);
        let full = self.realkey(app, key);
        proof {
            lemma_key_round_trip(v@);
        }
        self.kv.set(full.as_str(), enc);
        proof {
            lemma_key_records_insert(
                old(self).kv.contents(),
                rk_name(app@, key@),
                spec_enc_key(v@),
                v@,
            );
        }
        Ok(())
    }

    /// The key stored under `(app, key)`. Lookup is always scoped by
    /// `app`: a credential presented against the wrong application reads
    /// as absent, and so does a corrupt record.
    pub fn get(&self, app: &str, key: &str) -> (r: Option<RpcKey>)
        requires
            self.wf(),
        ensures
            r is Some <==> self.records().contains_key(rk_name(app@, key@)),
            r matches Some(k) ==> self.records()[rk_name(app@, key@)] == k@,
    {
        let full = self.realkey(app, key);
        match self.kv.get(full.as_str()) {
            None => None,
            Some(stored) => decode_rpc_key(stored.as_str()),
        }
    }

    /// Every key under `app`, in store order, up to the scan bound;
    /// records that fail to decode are skipped.
    pub fn scan(&self, app: &str) -> (r: Vec<RpcKey>)
        requires
            self.wf(),
        ensures
            r.deep_view() == scan_records_scoped(self.records(), app@, self.ids_in_order(app@)),
    {
        let p = self.scoped_prefix(app);
        let keys = self.kv.scan_keys(p.as_str());
        proof {
            assert(keys.deep_view().skip(0) =~= keys.deep_view());
        }
        self.collect(app, &keys, 0)
    }

    /// The decodable records under `(app, keys[i..])`, in order.
    fn collect(&self, app: &str, keys: &Vec<String>, i: usize) -> (r: Vec<RpcKey>)
        requires
            self.wf(),
            i <= keys@.len(),
        ensures
            r.deep_view() == scan_records_scoped(
                self.records(),
                app@,
                keys.deep_view().skip(i as int),
            ),
        decreases keys@.len() - i,
    {
        let n = keys.len();
        if i == n {
            let r: Vec<RpcKey> = Vec::new();
            proof {
                assert(r.deep_view() =~= Seq::<RpcKeyView>::empty());
                assert(keys.deep_view().skip(i as int) =~= Seq::<Seq<char>>::empty());
            }
            return r;
        }
        let ghost suf = keys.deep_view().skip(i as int);
        proof {
            assert(suf.first() == keys.deep_view()[i as int]);
            assert(suf.drop_first() =~= keys.deep_view().skip(i + 1));
        }
        let rest = self.collect(app, keys, i + 1);
        match self.get(app, keys[i].as_str()) {
            Some(k) => {
                let ghost old_rest = rest.deep_view();
                let mut out = rest;
                out.insert(0, k);
                proof {
                    assert(out.deep_view() =~= seq![k@] + old_rest);
                }
                out
            },
            None => rest,
        }
    }
}

/// The key records under `(app, ids)`, in order, skipping identifiers
/// without a record.
pub open spec fn scan_records_scoped(
    m: Map<Seq<char>, RpcKeyView>,
    app: Seq<char>,
    ids: Seq<Seq<char>>,
) -> Seq<RpcKeyView>
    decreases ids.len(),
{
    if ids.len() == 0 {
        Seq::empty()
    } else {
        let rest = scan_records_scoped(m, app, ids.drop_first());
        if m.contains_key(rk_name(app, ids.first())) {
            seq![m[rk_name(app, ids.first())]] + rest
        } else {
            rest
        }
    }
}

} // verus!
