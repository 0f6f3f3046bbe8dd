//! The namespaced key-value persistence model: a store of values under
//! string keys, with lookup, overwrite-in-place and bounded prefix scans.
//! Records are never deleted, only overwritten. Counters for quota
//! windows live in a store of the same shape with numeric values; the
//! check-then-increment on such a counter is atomic here because the
//! store is owned exclusively by its holder.

use vstd::prelude::*;
use vstd::string::*;

verus! {

/// The most keys one scan hands back, so that no call does unbounded
/// work on a large store.
pub const SCAN_LIMIT: usize = 4096;

/// The map an association list denotes; a later entry overrides an
/// earlier one with the same key.
pub open spec fn seq_to_map<V: View>(s: Seq<(String, V)>) -> Map<Seq<char>, V::V>
    decreases s.len(),
{
    if s.len() == 0 {
        Map::empty()
    } else {
        seq_to_map(s.drop_last()).insert(s.last().0@, s.last().1@)
    }
}

/// Entry keys pairwise distinct.
pub open spec fn distinct_keys<V>(s: Seq<(String, V)>) -> bool {
    forall|i: int, j: int| 0 <= i < j < s.len() ==> s[i].0@ != s[j].0@
}

/// `p` is a prefix of `k`.
pub open spec fn is_prefixed(k: Seq<char>, p: Seq<char>) -> bool {
    p.len() <= k.len() && k.subrange(0, p.len() as int) == p
}

/// The keys with prefix `p`, in order, the prefix stripped, at most
/// `budget` of them.
pub open spec fn scan_spec(keys: Seq<Seq<char>>, p: Seq<char>, budget: nat) -> Seq<Seq<char>>
    decreases keys.len(),
{
    if keys.len() == 0 || budget == 0 {
        Seq::empty()
    } else if is_prefixed(keys.first(), p) {
        seq![keys.first().skip(p.len() as int)] + scan_spec(keys.drop_first(), p, (budget - 1) as nat)
    } else {
        scan_spec(keys.drop_first(), p, budget)
    }
}

proof fn lemma_s2m_contains<V: View>(s: Seq<(String, V)>, k: Seq<char>)
    ensures
        seq_to_map(s).contains_key(k) <==> exists|i: int| 0 <= i < s.len() && s[i].0@ == k,
    decreases s.len(),
{
    if s.len() > 0 {
        lemma_s2m_contains(s.drop_last(), k);
        if seq_to_map(s).contains_key(k) {
            if s.last().0@ != k {
                let i = choose|i: int| 0 <= i < s.len() - 1 && s.drop_last()[i].0@ == k;
                assert(s[i].0@ == k);
            }
        }
        if exists|i: int| 0 <= i < s.len() && s[i].0@ == k {
            let i = choose|i: int| 0 <= i < s.len() && s[i].0@ == k;
            if i < s.len() - 1 {
                assert(s.drop_last()[i].0@ == k);
            }
        }
    }
}

proof fn lemma_s2m_get<V: View>(s: Seq<(String, V)>, i: int)
    requires
        distinct_keys(s),
        0 <= i < s.len(),
    ensures
        seq_to_map(s).contains_key(s[i].0@),
        seq_to_map(s)[s[i].0@] == s[i].1@,
    decreases s.len(),
{
    if i == s.len() - 1 {
    } else {
        assert(distinct_keys(s.drop_last())) by {
            assert(forall|a: int, b: int|
                0 <= a < b < s.len() - 1 ==> s.drop_last()[a].0@ != s.drop_last()[b].0@);
        }
        assert(s.drop_last()[i] == s[i]);
        lemma_s2m_get(s.drop_last(), i);
        assert(s[i].0@ != s.last().0@);
    }
}

proof fn lemma_s2m_update_at<V: View>(s: Seq<(String, V)>, i: int, p: (String, V))
    requires
        distinct_keys(s),
        0 <= i < s.len(),
        p.0@ == s[i].0@,
    ensures
        seq_to_map(s.update(i, p)) =~= seq_to_map(s).insert(p.0@, p.1@),
    decreases s.len(),
{
    let s2 = s.update(i, p);
    if i == s.len() - 1 {
        assert(s2.drop_last() =~= s.drop_last());
        assert(s2.last() == p);
        assert(seq_to_map(s2) =~= seq_to_map(s).insert(p.0@, p.1@));
    } else {
        assert(distinct_keys(s.drop_last())) by {
            assert(forall|a: int, b: int|
                0 <= a < b < s.len() - 1 ==> s.drop_last()[a].0@ != s.drop_last()[b].0@);
        }
        assert(s.drop_last()[i] == s[i]);
        lemma_s2m_update_at(s.drop_last(), i, p);
        assert(s2.drop_last() =~= s.drop_last().update(i, p));
        assert(s2.last() == s.last());
        assert(p.0@ != s.last().0@);
        assert(seq_to_map(s2) =~= seq_to_map(s).insert(p.0@, p.1@));
    }
}

/// Character-wise string equality.
pub fn str_eq(a: &str, b: &str) -> (r: bool)
    ensures
        r <==> a@ == b@,
{
    let an = a.unicode_len();
    let bn = b.unicode_len();
    if an != bn {
        return false;
    }
    let mut i: usize = 0;
    while i < an
        invariant
            i <= an,
            an == a@.len(),
            an == b@.len(),
            forall|j: int| 0 <= j < i ==> a@[j] == b@[j],
        decreases an - i,
    {
        if a.get_char(i) != b.get_char(i) {
            return false;
        }
        i = i + 1;
    }
    proof {
        assert(a@ =~= b@);
    }
    true
}

/// A store of values under string keys. Lookups are total: reading a
/// key that was never written yields nothing rather than an error.
pub struct KvStore<V> {
    entries: Vec<(String, V)>,
}

impl<V: View> KvStore<V> {
    /// What the store holds.
    pub closed spec fn contents(&self) -> Map<Seq<char>, V::V> {
        seq_to_map(self.entries@)
    }

    /// The stored keys, oldest first.
    pub closed spec fn keys_in_order(&self) -> Seq<Seq<char>> {
        self.entries@.map_values(|e: (String, V)| e.0@)
    }

    pub closed spec fn wf(&self) -> bool {
        distinct_keys(self.entries@)
    }

    pub fn new() -> (r: Self)
        ensures
            r.wf(),
            r.contents() == Map::<Seq<char>, V::V>::empty(),
            r.keys_in_order() == Seq::<Seq<char>>::empty(),
    {
        let r = KvStore { entries: Vec::new() };
        proof {
            assert(r.keys_in_order() =~= Seq::<Seq<char>>::empty());
        }
        r
    }

    /// The index of `key`'s entry, if one exists.
    fn find(&self, key: &str) -> (r: Option<usize>)
        ensures
            r matches Some(i) ==> i < self.entries@.len() && self.entries@[i as int].0@ == key@,
            r is None ==> forall|i: int| 0 <= i < self.entries@.len() ==> self.entries@[i].0@
                != key@,
    {
        let n = self.entries.len();
        let mut i: usize = 0;
        while i < n
            invariant
                i <= n,
                n == self.entries@.len(),
                forall|j: int| 0 <= j < i ==> self.entries@[j].0@ != key@,
            decreases n - i,
        {
            if str_eq(self.entries[i].0.as_str(), key) {
                return Some(i);
            }
            i = i + 1;
        }
        None
    }

    /// Stores `value` under `key`: an existing record is overwritten in
    /// place, keeping its position in scan order; a new key is appended.
    pub fn set(&mut self, key: &str, value: V)
        requires
            old(self).wf(),
        ensures
            final(self).wf(),
            final(self).contents() =~= old(self).contents().insert(key@, value@),
            old(self).contents().contains_key(key@) ==> final(self).keys_in_order() =~= old(
                self,
            ).keys_in_order(),
            !old(self).contents().contains_key(key@) ==> final(self).keys_in_order() =~= old(
                self,
            ).keys_in_order().push(key@),
    {
        let found = self.find(key);
        match found {
            Some(i) => {
                let ghost s = self.entries@;
                proof {
                    lemma_s2m_contains(s, key@);
                }
                self.entries[i] = (key.to_owned(), value);
                proof {
                    assert(self.entries@ =~= s.update(i as int, self.entries@[i as int]));
                    lemma_s2m_update_at(s, i as int, self.entries@[i as int]);
                    assert(distinct_keys(self.entries@)) by {
                        assert(forall|a: int, b: int|
                            0 <= a < b < self.entries@.len() ==> self.entries@[a].0@
                                != self.entries@[b].0@);
                    }
                    assert(self.keys_in_order() =~= old(self).keys_in_order());
                }
            },
            None => {
                let ghost before = self.entries@;
                self.entries.push((key.to_owned(), value));
                proof {
                    assert(self.entries@.drop_last() =~= before);
                    lemma_s2m_contains(before, key@);
                    assert(distinct_keys(self.entries@)) by {
                        assert(forall|a: int, b: int|
                            0 <= a < b < self.entries@.len() ==> self.entries@[a].0@
                                != self.entries@[b].0@);
                    }
                    assert(self.contents() =~= old(self).contents().insert(key@, value@));
                    assert(self.keys_in_order() =~= old(self).keys_in_order().push(key@));
                }
            },
        }
    }

    /// The value under `key`, if any.
    pub fn get(&self, key: &str) -> (r: Option<&V>)
        requires
            self.wf(),
        ensures
            r is Some <==> self.contents().contains_key(key@),
            r matches Some(v) ==> self.contents()[key@] == v@,
    {
        proof {
            lemma_s2m_contains(self.entries@, key@);
        }
        match self.find(key) {
            Some(i) => {
                proof {
                    lemma_s2m_get(self.entries@, i as int);
                }
                Some(&self.entries[i].1)
            },
            None => None,
        }
    }

    /// The stored keys that begin with `prefix`, oldest first, with the
    /// prefix stripped; at most `SCAN_LIMIT` of them.
    pub fn scan_keys(&self, prefix: &str) -> (r: Vec<String>)
        ensures
            r.deep_view() == scan_spec(self.keys_in_order(), prefix@, SCAN_LIMIT as nat),
    {
        let r = self.scan_from(prefix, 0, SCAN_LIMIT);
        proof {
            assert(self.keys_in_order().skip(0) =~= self.keys_in_order());
        }
        r
    }

    /// The scan from entry `i` on, with `budget` slots left.
    fn scan_from(&self, prefix: &str, i: usize, budget: usize) -> (r: Vec<String>)
        requires
            i <= self.entries@.len(),
        ensures
            r.deep_view() == scan_spec(self.keys_in_order().skip(i as int), prefix@, budget as nat),
        decreases self.entries@.len() - i,
    {
        let n = self.entries.len();
        if i == n || budget == 0 {
            let r: Vec<String> = Vec::new();
            proof {
                assert(r.deep_view() =~= Seq::<Seq<char>>::empty());
                assert(scan_spec(self.keys_in_order().skip(i as int), prefix@, budget as nat)
                    =~= Seq::<Seq<char>>::empty());
            }
            return r;
        }
        let ghost suf = self.keys_in_order().skip(i as int);
        proof {
            assert(suf.first() == self.entries@[i as int].0@);
            assert(suf.drop_first() =~= self.keys_in_order().skip(i + 1));
        }
        let k = self.entries[i].0.as_str();
        let k_len = k.unicode_len();
        match crate::codec::eat_lit(k, 0, prefix) {
            Some(p) => {
                proof {
                    assert(k@.skip(0) =~= k@);
                    assert(is_prefixed(k@, prefix@));
                }
                let stripped = k.substring_char(p, k_len);
                let rest = self.scan_from(prefix, i + 1, budget - 1);
                let ghost old_rest = rest.deep_view();
                let mut out = rest;
                out.insert(0, String::from_str(stripped));
                proof {
                    assert(stripped@ =~= k@.skip(prefix@.len() as int));
                    assert(out.deep_view() =~= seq![k@.skip(prefix@.len() as int)] + old_rest);
                }
                out
            },
            None => {
                proof {
                    assert(k@.skip(0) =~= k@);
                    if is_prefixed(k@, prefix@) {
                        assert(k@.subrange(0, prefix@.len() as int) == prefix@);
                    }
                }
                self.scan_from(prefix, i + 1, budget)
            },
        }
    }
}

/// Quota counters: numeric values under string keys.
pub type CounterStore = KvStore<u64>;

/// The count a counter store holds for `name`: its value, or zero for a
/// counter never incremented.
pub open spec fn counter_of(m: Map<Seq<char>, u64>, name: Seq<char>) -> u64 {
    if m.contains_key(name) {
        m[name]
    } else {
        0
    }
}

/// The current count for `name`.
pub fn counter_read(c: &CounterStore, name: &str) -> (r: u64)
    requires
        c.wf(),
    ensures
        r == counter_of(c.contents(), name@),
{
    match c.get(name) {
        Some(v) => *v,
        None => 0,
    }
}

/// How to reach the backing store: host, port, credentials, database
/// index, and whether the connection uses TLS. Consumed by the unverified
/// transport; the library only assembles the connection URI.
#[derive(Debug, Clone, PartialEq, Eq)]
pub struct RedisConnection {
    pub host: String,
    pub port: u32,
    pub username: String,
    pub password: String,
    pub db: u32,
    pub use_tls: bool,
}

/// The URI `connection_uri` assembles.
pub open spec fn spec_connection_uri(
    host: Seq<char>,
    port: u32,
    username: Seq<char>,
    password: Seq<char>,
    db: u32,
    use_tls: bool,
) -> Seq<char> {
    (if use_tls {
        "rediss"@
    } else {
        "redis"@
    }) + "://"@ + username + ":"@ + password + "@"@ + host + ":"@ + crate::hexnum::dec_trim(
        port as nat,
    ) + "/"@ + crate::hexnum::dec_trim(db as nat)
}

impl RedisConnection {
    /// The connection URI for these parameters: the scheme says whether
    /// TLS is used; everything else is spliced in verbatim.
    pub fn connection_uri(&self) -> (r: String)
        ensures
            r@ == spec_connection_uri(
                self.host@,
                self.port,
                self.username@,
                self.password@,
                self.db,
                self.use_tls,
            ),
    {
        let mut s = if self.use_tls {
            String::from_str("rediss")
        } else {
            String::from_str("redis")
        };
        s.append("://");
        s.append(self.username.as_str());
        s.append(":");
        s.append(self.password.as_str());
        s.append("@");
        s.append(self.host.as_str());
        s.append(":");
        let p = crate::hexnum::u64_dec(self.port as u64);
        s.append(p.as_str());
        s.append("/");
        let d = crate::hexnum::u64_dec(self.db as u64);
        s.append(d.as_str());
        s
    }
}

/// Adds one to the counter under `name`.
pub fn counter_bump(c: &mut CounterStore, name: &str)
    requires
        old(c).wf(),
        counter_of(old(c).contents(), name@) < u64::MAX,
    ensures
        final(c).wf(),
        final(c).contents() =~= old(c).contents().insert(
            name@,
            (counter_of(old(c).contents(), name@) + 1) as u64,
        ),
{
    let cur = counter_read(c, name);
    c.set(name, cur + 1);
}

} // verus!
