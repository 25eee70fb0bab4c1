//! Connection settings, the plan for the SDK configuration, and the cache of
//! configurations already built.
use vstd::prelude::*;

use crate::text::{clone_opt, decimal, decimal_chars, lemma_decimal_injective, lemma_decimal_shape, opt_view, str_eq};

verus! {

/// The connection settings that a request carries under `params`.
#[derive(Debug, Clone)]
pub struct ConnectionParams {
    pub region: Option<String>,
    pub access_key_id: Option<String>,
    pub secret_access_key: Option<String>,
    pub session_token: Option<String>,
    pub profile: Option<String>,
    pub endpoint: Option<String>,
}

/// The settings as text.
pub struct ConnectionView {
    pub region: Option<Seq<char>>,
    pub access_key_id: Option<Seq<char>>,
    pub secret_access_key: Option<Seq<char>>,
    pub session_token: Option<Seq<char>>,
    pub profile: Option<Seq<char>>,
    pub endpoint: Option<Seq<char>>,
}

impl View for ConnectionParams {
    type V = ConnectionView;

    open spec fn view(&self) -> ConnectionView {
        ConnectionView {
            region: opt_view(self.region),
            access_key_id: opt_view(self.access_key_id),
            secret_access_key: opt_view(self.secret_access_key),
            session_token: opt_view(self.session_token),
            profile: opt_view(self.profile),
            endpoint: opt_view(self.endpoint),
        }
    }
}

/// The part of a cache key for one setting: `-` when absent, else the length of its
/// text in decimal, `:` and the text itself.
#[verifier::opaque]
pub open spec fn setting_key(o: Option<Seq<char>>) -> Seq<char> {
    match o {
        None => "-"@,
        Some(s) => decimal_chars(s.len()) + ":"@ + s,
    }
}

/// The cache key of a set of settings as text: the parts of region, access key id, secret
/// access key, session token, profile and endpoint, in that order.
pub open spec fn settings_key(v: ConnectionView) -> Seq<char> {
    setting_key(v.region) + (setting_key(v.access_key_id) + (setting_key(v.secret_access_key) + (
    setting_key(v.session_token) + (setting_key(v.profile) + setting_key(v.endpoint)))))
}

/// The cache key of a set of settings.
pub open spec fn cache_key_of(c: ConnectionParams) -> Seq<char> {
    settings_key(c@)
}

proof fn lemma_concat_assoc(a: Seq<char>, b: Seq<char>, c: Seq<char>)
    ensures
        a + b + c == a + (b + c),
{
    assert(a + b + c =~= a + (b + c));
}

fn append_setting(s: &mut String, o: &Option<String>)
    ensures
        final(s)@ == old(s)@ + setting_key(opt_view(*o)),
{
    proof {
        reveal_strlit("-");
        reveal_strlit(":");
        reveal(setting_key);
    }
    match o {
        Some(v) => {
            let n = v.unicode_len();
            let len = decimal(n as u64);
            s.append(len.as_str());
            s.append(":");
            s.append(v.as_str());
            proof {
                assert(final(s)@ =~= old(s)@ + setting_key(opt_view(*o)));
            }
        },
        None => {
            s.append("-");
        },
    }
}

impl ConnectionParams {
    /// The key under which a configuration built from these settings is cached.
    pub fn cache_key(&self) -> (r: String)
        ensures
            r@ == cache_key_of(*self),
    {
        let ghost v = self@;
        let mut s = String::new();
        append_setting(&mut s, &self.region);
        assert(s@ =~= setting_key(v.region));
        append_setting(&mut s, &self.access_key_id);
        append_setting(&mut s, &self.secret_access_key);
        append_setting(&mut s, &self.session_token);
        append_setting(&mut s, &self.profile);
        append_setting(&mut s, &self.endpoint);
        proof {
            let (k1, k2, k3) = (setting_key(v.region), setting_key(v.access_key_id), setting_key(v.secret_access_key));
            let (k4, k5, k6) = (setting_key(v.session_token), setting_key(v.profile), setting_key(v.endpoint));
            lemma_concat_assoc(k1 + k2 + k3 + k4, k5, k6);
            lemma_concat_assoc(k1 + k2 + k3, k4, k5 + k6);
            lemma_concat_assoc(k1 + k2, k3, k4 + (k5 + k6));
            lemma_concat_assoc(k1, k2, k3 + (k4 + (k5 + k6)));
        }
        s
    }
}

/// A key part, followed by anything, tells which setting it was made from and where the
/// rest begins.
proof fn lemma_setting_key_split(o1: Option<Seq<char>>, r1: Seq<char>, o2: Option<Seq<char>>, r2: Seq<char>)
    requires
        setting_key(o1) + r1 == setting_key(o2) + r2,
    ensures
        o1 == o2,
        r1 == r2,
{
    reveal_strlit("-");
    reveal_strlit(":");
    reveal(setting_key);
    let x = setting_key(o1) + r1;
    match (o1, o2) {
        (None, None) => {
            assert(r1 =~= x.subrange(1, x.len() as int));
            assert(r2 =~= x.subrange(1, x.len() as int));
        },
        (None, Some(s2)) => {
            lemma_decimal_shape(s2.len());
            assert(x[0] == '-');
            assert(x[0] == decimal_chars(s2.len())[0]);
        },
        (Some(s1), None) => {
            lemma_decimal_shape(s1.len());
            assert(x[0] == decimal_chars(s1.len())[0]);
            assert((setting_key(o2) + r2)[0] == '-');
        },
        (Some(s1), Some(s2)) => {
            let d1 = decimal_chars(s1.len());
            let d2 = decimal_chars(s2.len());
            lemma_decimal_shape(s1.len());
            lemma_decimal_shape(s2.len());
            let y = setting_key(o2) + r2;
            assert(x[d1.len() as int] == ':');
            assert(y[d2.len() as int] == ':');
            if d1.len() < d2.len() {
                assert(y[d1.len() as int] == d2[d1.len() as int]);
            } else if d2.len() < d1.len() {
                assert(x[d2.len() as int] == d1[d2.len() as int]);
            }
            assert(d1 =~= x.subrange(0, d1.len() as int));
            assert(d2 =~= y.subrange(0, d2.len() as int));
            lemma_decimal_injective(s1.len(), s2.len());
            let a: int = d1.len() as int + 1;
            let b: int = a + s1.len();
            assert(s1 =~= x.subrange(a, b));
            assert(s2 =~= y.subrange(a, b));
            assert(r1 =~= x.subrange(b, x.len() as int));
            assert(r2 =~= y.subrange(b, y.len() as int));
        },
    }
}

/// Settings that read the same are cached under the same key.
pub proof fn lemma_same_settings_same_key(a: ConnectionParams, b: ConnectionParams)
    requires
        a@ == b@,
    ensures
        cache_key_of(a) == cache_key_of(b),
{
}

/// Two sets of settings share a cache key exactly when they read the same: a cached
/// configuration is only ever found again for the settings it was built from.
pub proof fn lemma_key_identifies_settings(a: ConnectionParams, b: ConnectionParams)
    ensures
        cache_key_of(a) == cache_key_of(b) <==> a@ == b@,
{
    if cache_key_of(a) == cache_key_of(b) {
        lemma_settings_key_injective(a@, b@);
    }
}

proof fn lemma_settings_key_injective(va: ConnectionView, vb: ConnectionView)
    requires
        settings_key(va) == settings_key(vb),
    ensures
        va == vb,
{
    let a5 = setting_key(va.endpoint);
    let a4 = setting_key(va.profile) + a5;
    let a3 = setting_key(va.session_token) + a4;
    let a2 = setting_key(va.secret_access_key) + a3;
    let a1 = setting_key(va.access_key_id) + a2;
    let b5 = setting_key(vb.endpoint);
    let b4 = setting_key(vb.profile) + b5;
    let b3 = setting_key(vb.session_token) + b4;
    let b2 = setting_key(vb.secret_access_key) + b3;
    let b1 = setting_key(vb.access_key_id) + b2;
    lemma_setting_key_split(va.region, a1, vb.region, b1);
    lemma_setting_key_split(va.access_key_id, a2, vb.access_key_id, b2);
    lemma_setting_key_split(va.secret_access_key, a3, vb.secret_access_key, b3);
    lemma_setting_key_split(va.session_token, a4, vb.session_token, b4);
    lemma_setting_key_split(va.profile, a5, vb.profile, b5);
    assert(a5 + Seq::<char>::empty() =~= a5);
    assert(b5 + Seq::<char>::empty() =~= b5);
    lemma_setting_key_split(va.endpoint, Seq::empty(), vb.endpoint, Seq::empty());
}

/// Credentials given in the connection settings.
#[derive(Debug, Clone)]
pub struct ExplicitCredentials {
    pub access_key_id: String,
    pub secret_access_key: String,
    pub session_token: Option<String>,
}

/// What the SDK configuration is built from.
#[derive(Debug, Clone)]
pub struct ConfigPlan {
    /// Static credentials: present exactly when both keys are given.
    pub credentials: Option<ExplicitCredentials>,
    pub profile: Option<String>,
    pub region: Option<String>,
    pub endpoint: Option<String>,
}

/// The plan for a configuration: explicit credentials (with the session token, if any)
/// exactly when both the access key id and the secret access key are given; the profile,
/// region and endpoint as given.
pub open spec fn plan_is(p: ConfigPlan, c: ConnectionParams) -> bool {
    &&& match (c.access_key_id, c.secret_access_key) {
        (Some(a), Some(s)) => p.credentials matches Some(cr) && cr.access_key_id@ == a@
            && cr.secret_access_key@ == s@ && opt_view(cr.session_token) == opt_view(c.session_token),
        _ => p.credentials is None,
    }
    &&& opt_view(p.profile) == opt_view(c.profile)
    &&& opt_view(p.region) == opt_view(c.region)
    &&& opt_view(p.endpoint) == opt_view(c.endpoint)
}

/// Decides how the SDK configuration is built from the connection settings.
pub fn plan_config(conn: &ConnectionParams) -> (r: ConfigPlan)
    ensures
        plan_is(r, *conn),
{
    let credentials = match (&conn.access_key_id, &conn.secret_access_key) {
        (Some(a), Some(s)) => Some(
            ExplicitCredentials {
                access_key_id: a.clone(),
                secret_access_key: s.clone(),
                session_token: clone_opt(&conn.session_token),
            },
        ),
        _ => None,
    };
    ConfigPlan {
        credentials,
        profile: clone_opt(&conn.profile),
        region: clone_opt(&conn.region),
        endpoint: clone_opt(&conn.endpoint),
    }
}

/// The region of the DynamoDB configuration: the loaded one, else `us-east-1`.
pub fn resolve_region(loaded: Option<String>) -> (r: String)
    ensures
        r@ == match loaded {
            Some(s) => s@,
            None => "us-east-1"@,
        },
{
    match loaded {
        Some(s) => s,
        None => "us-east-1".to_owned(),
    }
}

/// How long a cached configuration may stay unused, in milliseconds (30 minutes).
pub const POOL_TTL_MS: u64 = 1800000;

/// Time elapsed from `from` to `now`, zero when `now` is earlier (as `Instant::elapsed`).
pub open spec fn elapsed(from: u64, now: u64) -> int {
    if now >= from { now - from } else { 0 }
}

/// Whether an entry last used at `last_used` is kept at `now`.
pub open spec fn is_fresh(last_used: u64, now: u64, ttl: u64) -> bool {
    elapsed(last_used, now) < ttl
}

/// The cache after dropping what was not used for `ttl` or longer before `now`.
pub open spec fn cleaned<C>(m: Map<Seq<char>, (C, u64)>, now: u64, ttl: u64) -> Map<Seq<char>, (C, u64)> {
    Map::new(|k: Seq<char>| m.contains_key(k) && is_fresh(m[k].1, now, ttl), |k: Seq<char>| m[k])
}

/// A configuration cached at `used` is found again, the same, by every cleanup at a time
/// less than `ttl` after it, and is gone after any cleanup `ttl` or more after it; other
/// keys are cleaned as if it had never been cached.
pub proof fn lemma_cached_until_stale<C>(m: Map<Seq<char>, (C, u64)>, key: Seq<char>, config: C, used: u64, now: u64, ttl: u64)
    ensures
        cleaned(m.insert(key, (config, used)), now, ttl).contains_key(key) == is_fresh(used, now, ttl),
        is_fresh(used, now, ttl) ==> cleaned(m.insert(key, (config, used)), now, ttl)[key] == (config, used),
        forall|k: Seq<char>| k != key ==> (cleaned(m.insert(key, (config, used)), now, ttl).contains_key(k)
            == #[trigger] cleaned(m, now, ttl).contains_key(k)),
        forall|k: Seq<char>| k != key && #[trigger] cleaned(m, now, ttl).contains_key(k) ==> cleaned(m.insert(key, (config, used)), now, ttl)[k] == cleaned(m, now, ttl)[k],
{
}

/// A cached configuration.
pub struct PoolEntry<C> {
    pub key: String,
    pub config: C,
    pub last_used: u64,
}

/// The entry for `k` among `entries` (the last one, should there be several).
pub open spec fn lookup<C>(entries: Seq<PoolEntry<C>>, k: Seq<char>) -> Option<(C, u64)>
    decreases entries.len(),
{
    if entries.len() == 0 {
        None
    } else if entries.last().key@ == k {
        Some((entries.last().config, entries.last().last_used))
    } else {
        lookup(entries.drop_last(), k)
    }
}

/// Configurations built so far, by cache key, each with the time it was last used.
pub struct ConfigPool<C> {
    entries: Vec<PoolEntry<C>>,
}

impl<C> View for ConfigPool<C> {
    type V = Map<Seq<char>, (C, u64)>;

    closed spec fn view(&self) -> Map<Seq<char>, (C, u64)> {
        Map::new(|k: Seq<char>| lookup(self.entries@, k) is Some, |k: Seq<char>| lookup(self.entries@, k)->0)
    }
}

proof fn lemma_lookup_some<C>(entries: Seq<PoolEntry<C>>, k: Seq<char>)
    ensures
        lookup(entries, k) is Some <==> exists|i: int| 0 <= i < entries.len() && (#[trigger] entries[i]).key@ == k,
    decreases entries.len(),
{
    if entries.len() > 0 {
        lemma_lookup_some(entries.drop_last(), k);
        if entries.last().key@ != k {
            if exists|i: int| 0 <= i < entries.len() && (#[trigger] entries[i]).key@ == k {
                let i = choose|i: int| 0 <= i < entries.len() && (#[trigger] entries[i]).key@ == k;
                assert(entries.drop_last()[i] == entries[i]);
            }
        }
    }
}

proof fn lemma_lookup_push<C>(entries: Seq<PoolEntry<C>>, e: PoolEntry<C>, k: Seq<char>)
    ensures
        lookup(entries.push(e), k) == if e.key@ == k { Some((e.config, e.last_used)) } else { lookup(entries, k) },
{
    assert(entries.push(e).drop_last() =~= entries);
}

proof fn lemma_lookup_update<C>(entries: Seq<PoolEntry<C>>, i: int, e: PoolEntry<C>, k: Seq<char>)
    requires
        0 <= i < entries.len(),
        e.key@ == entries[i].key@,
        forall|j: int| 0 <= j < entries.len() && j != i ==> (#[trigger] entries[j]).key@ != entries[i].key@,
    ensures
        lookup(entries.update(i, e), k) == if e.key@ == k { Some((e.config, e.last_used)) } else { lookup(entries, k) },
    decreases entries.len(),
{
    let u = entries.update(i, e);
    if i == entries.len() - 1 {
        assert(u.drop_last() =~= entries.drop_last());
        if e.key@ != k {
            assert(entries.last().key@ != k);
        } else {
        }
    } else {
        assert(u.drop_last() =~= entries.drop_last().update(i, e));
        assert(u.last() == entries.last());
        lemma_lookup_update(entries.drop_last(), i, e, k);
        if e.key@ == k {
            assert(entries.last().key@ != k);
        }
    }
}

/// Whether an entry is kept at `now`.
pub open spec fn fresh_pred<C>(now: u64, ttl: u64) -> spec_fn(PoolEntry<C>) -> bool {
    |e: PoolEntry<C>| is_fresh(e.last_used, now, ttl)
}

/// Keys pairwise distinct.
pub open spec fn keys_distinct<C>(entries: Seq<PoolEntry<C>>) -> bool {
    forall|i: int, j: int|
        0 <= i < j < entries.len() ==> (#[trigger] entries[i]).key@ != (#[trigger] entries[j]).key@
}

proof fn lemma_lookup_at<C>(entries: Seq<PoolEntry<C>>, i: int)
    requires
        keys_distinct(entries),
        0 <= i < entries.len(),
    ensures
        lookup(entries, entries[i].key@) == Some((entries[i].config, entries[i].last_used)),
    decreases entries.len(),
{
    if i < entries.len() - 1 {
        assert(entries.drop_last()[i] == entries[i]);
        lemma_lookup_at(entries.drop_last(), i);
    }
}

/// Keeping the fresh entries keeps exactly the fresh part of the lookup.
proof fn lemma_lookup_filter<C>(entries: Seq<PoolEntry<C>>, now: u64, ttl: u64, k: Seq<char>)
    requires
        keys_distinct(entries),
    ensures
        lookup(entries.filter(fresh_pred(now, ttl)), k) == match lookup(entries, k) {
            Some((c, t)) => if is_fresh(t, now, ttl) { Some((c, t)) } else { None },
            None => None,
        },
        keys_distinct(entries.filter(fresh_pred(now, ttl))),
    decreases entries.len(),
{
    let pred = fresh_pred::<C>(now, ttl);
    if entries.len() > 0 {
        let rest = entries.drop_last();
        let last = entries.last();
        assert forall|i: int, j: int| 0 <= i < j < rest.len() implies (#[trigger] rest[i]).key@ != (#[trigger] rest[j]).key@ by {
            assert(rest[i] == entries[i]);
            assert(rest[j] == entries[j]);
        }
        lemma_lookup_filter(rest, now, ttl, k);
        let fr = rest.filter(pred);
        assert(entries.filter(pred) == if pred(last) { fr.push(last) } else { fr }) by {
            reveal(Seq::filter);
        }
        assert(lookup(entries, k) == if last.key@ == k { Some((last.config, last.last_used)) } else { lookup(rest, k) });
        if last.key@ == k {
            assert forall|i: int| 0 <= i < rest.len() implies (#[trigger] rest[i]).key@ != k by {
                assert(rest[i] == entries[i]);
                assert(entries[entries.len() - 1] == last);
            }
            lemma_lookup_some(rest, k);
            assert(lookup(rest, k) is None);
        }
        if pred(last) {
            let fp = fr.push(last);
            assert(fp.drop_last() =~= fr);
            assert(fp.last() == last);
            assert(lookup(fp, k) == if last.key@ == k { Some((last.config, last.last_used)) } else { lookup(fr, k) });
            assert forall|i: int, j: int| 0 <= i < j < fp.len() implies (#[trigger] fp[i]).key@ != (#[trigger] fp[j]).key@ by {
                if j == fr.len() {
                    assert(fp[i] == fr[i]);
                    assert(fp[j] == last);
                    rest.lemma_filter_contains_rev(pred, fr[i]);
                    assert(fr.contains(fr[i]));
                    assert(rest.contains(fr[i]));
                    let m = choose|m: int| 0 <= m < rest.len() && rest[m] == fr[i];
                    assert(entries[m] == rest[m]);
                    assert(entries[entries.len() - 1] == last);
                } else {
                    assert(fp[i] == fr[i]);
                    assert(fp[j] == fr[j]);
                }
            }
        }
    } else {
        assert(entries.filter(pred) =~= entries) by {
            reveal(Seq::filter);
        }
    }
}

impl<C> ConfigPool<C> {
    #[verifier::type_invariant]
    spec fn distinct_keys(self) -> bool {
        keys_distinct(self.entries@)
    }

    /// An empty pool.
    pub fn new() -> (r: Self)
        ensures
            r@ == Map::<Seq<char>, (C, u64)>::empty(),
    {
        let r = ConfigPool { entries: Vec::new() };
        assert(r@ =~= Map::<Seq<char>, (C, u64)>::empty());
        r
    }

    fn position(&self, key: &str) -> (r: Option<usize>)
        ensures
            match r {
                Some(i) => i < self.entries.len() && self.entries@[i as int].key@ == key@,
                None => forall|j: int| 0 <= j < self.entries.len() ==> (#[trigger] self.entries@[j]).key@ != key@,
            },
    {
        let mut i: usize = 0;
        while i < self.entries.len()
            invariant
                i <= self.entries.len(),
                forall|j: int| 0 <= j < i ==> (#[trigger] self.entries@[j]).key@ != key@,
            decreases self.entries.len() - i,
        {
            if str_eq(self.entries[i].key.as_str(), key) {
                return Some(i);
            }
            i = i + 1;
        }
        None
    }

    /// Marks the configuration under `key` as used at `now`; whether there is one.
    pub fn touch(&mut self, key: &str, now: u64) -> (found: bool)
        ensures
            found == old(self)@.contains_key(key@),
            final(self)@ == if found {
                old(self)@.insert(key@, (old(self)@[key@].0, now))
            } else {
                old(self)@
            },
    {
        proof { use_type_invariant(&*self); }
        match self.position(key) {
            Some(i) => {
                let ghost before = self.entries@;
                proof {
                    lemma_lookup_at(before, i as int);
                }
                let mut entries: Vec<PoolEntry<C>> = Vec::new();
                std::mem::swap(&mut entries, &mut self.entries);
                let mut e = entries.remove(i);
                e.last_used = now;
                entries.insert(i, e);
                proof {
                    assert(entries@ =~= before.update(i as int, e));
                    assert forall|a: int, b: int| 0 <= a < b < entries.len() implies (#[trigger] entries@[a]).key@ != (#[trigger] entries@[b]).key@ by {
                        assert(before[a].key@ == entries@[a].key@);
                        assert(before[b].key@ == entries@[b].key@);
                    }
                }
                self.entries = entries;
                proof {
                    assert forall|k: Seq<char>| #![auto] lookup(self.entries@, k) == if e.key@ == k { Some((e.config, e.last_used)) } else { lookup(before, k) } by {
                        lemma_lookup_update(before, i as int, e, k);
                    }
                    assert(self@ =~= old(self)@.insert(key@, (old(self)@[key@].0, now)));
                }
                true
            },
            None => {
                proof {
                    lemma_lookup_some(self.entries@, key@);
                }
                false
            },
        }
    }

    /// The configuration cached under `key`, if any.
    pub fn get(&self, key: &str) -> (r: Option<&C>)
        ensures
            match r {
                Some(c) => self@.contains_key(key@) && *c == self@[key@].0,
                None => !self@.contains_key(key@),
            },
    {
        proof { use_type_invariant(self); }
        match self.position(key) {
            Some(i) => {
                proof {
                    lemma_lookup_at(self.entries@, i as int);
                }
                Some(&self.entries[i].config)
            },
            None => {
                proof {
                    lemma_lookup_some(self.entries@, key@);
                }
                None
            },
        }
    }

    /// The configuration cached under `key`, if any, marked as used at `now`: what a
    /// request reuses instead of building a new one.
    pub fn reuse(&mut self, key: &str, now: u64) -> (r: Option<&C>)
        ensures
            final(self)@ == if old(self)@.contains_key(key@) {
                old(self)@.insert(key@, (old(self)@[key@].0, now))
            } else {
                old(self)@
            },
            match r {
                Some(c) => old(self)@.contains_key(key@) && *c == old(self)@[key@].0,
                None => !old(self)@.contains_key(key@),
            },
    {
        if self.touch(key, now) {
            self.get(key)
        } else {
            None
        }
    }

    /// Where a request's configuration comes from: the one cached under the key of its
    /// settings, marked as used at `now`, or, when none is, a new one built from the plan
    /// for its settings.
    pub fn config_for(&mut self, conn: &ConnectionParams, now: u64) -> (r: Result<&C, ConfigPlan>)
        ensures
            final(self)@ == if old(self)@.contains_key(cache_key_of(*conn)) {
                old(self)@.insert(cache_key_of(*conn), (old(self)@[cache_key_of(*conn)].0, now))
            } else {
                old(self)@
            },
            match r {
                Ok(c) => old(self)@.contains_key(cache_key_of(*conn)) && *c == old(self)@[cache_key_of(*conn)].0,
                Err(plan) => !old(self)@.contains_key(cache_key_of(*conn)) && plan_is(plan, *conn),
            },
    {
        let key = conn.cache_key();
        match self.reuse(key.as_str(), now) {
            Some(c) => Ok(c),
            None => Err(plan_config(conn)),
        }
    }

    /// Caches `config` under `key`, used at `now`, in place of any earlier one.
    pub fn insert(&mut self, key: String, config: C, now: u64)
        ensures
            final(self)@ == old(self)@.insert(key@, (config, now)),
    {
        proof { use_type_invariant(&*self); }
        let e = PoolEntry { key, config, last_used: now };
        let ghost before = self.entries@;
        match self.position(e.key.as_str()) {
            Some(i) => {
                proof {
                    lemma_lookup_at(before, i as int);
                }
                let mut entries: Vec<PoolEntry<C>> = Vec::new();
                std::mem::swap(&mut entries, &mut self.entries);
                entries.set(i, e);
                proof {
                    assert forall|a: int, b: int| 0 <= a < b < entries.len() implies (#[trigger] entries@[a]).key@ != (#[trigger] entries@[b]).key@ by {
                        assert(before[a].key@ == entries@[a].key@);
                        assert(before[b].key@ == entries@[b].key@);
                    }
                }
                self.entries = entries;
                proof {
                    assert forall|k: Seq<char>| #![auto] lookup(self.entries@, k) == if e.key@ == k { Some((e.config, e.last_used)) } else { lookup(before, k) } by {
                        lemma_lookup_update(before, i as int, e, k);
                    }
                    assert(self@ =~= old(self)@.insert(e.key@, (config, now)));
                }
            },
            None => {
                let mut entries: Vec<PoolEntry<C>> = Vec::new();
                std::mem::swap(&mut entries, &mut self.entries);
                entries.push(e);
                proof {
                    assert forall|a: int, b: int| 0 <= a < b < entries.len() implies (#[trigger] entries@[a]).key@ != (#[trigger] entries@[b]).key@ by {
                        if b < before.len() {
                            assert(before[a] == entries@[a]);
                            assert(before[b] == entries@[b]);
                        } else {
                            assert(before[a] == entries@[a]);
                        }
                    }
                }
                self.entries = entries;
                proof {
                    assert forall|k: Seq<char>| #![auto] lookup(self.entries@, k) == if e.key@ == k { Some((e.config, e.last_used)) } else { lookup(before, k) } by {
                        lemma_lookup_push(before, e, k);
                    }
                    assert(self@ =~= old(self)@.insert(e.key@, (config, now)));
                }
            },
        }
    }

    /// Drops every configuration not used for `ttl` or longer before `now`.
    pub fn cleanup(&mut self, now: u64, ttl: u64)
        ensures
            final(self)@ == cleaned(old(self)@, now, ttl),
    {
        proof { use_type_invariant(&*self); }
        let ghost orig = self.entries@;
        let ghost pred = fresh_pred::<C>(now, ttl);
        let mut rest: Vec<PoolEntry<C>> = Vec::new();
        std::mem::swap(&mut rest, &mut self.entries);
        let mut kept: Vec<PoolEntry<C>> = Vec::new();
        while rest.len() > 0
            invariant
                rest.len() <= orig.len(),
                rest@ == orig.skip(orig.len() - rest.len()),
                kept@ == orig.take(orig.len() - rest.len()).filter(pred),
                pred == fresh_pred::<C>(now, ttl),
            decreases rest.len(),
        {
            let ghost n = orig.len() - rest.len();
            let e = rest.remove(0);
            proof {
                assert(e == orig[n]);
                assert(orig.take(n + 1).drop_last() =~= orig.take(n));
                assert(orig.take(n + 1).last() == orig[n]);
                assert(rest@ =~= orig.skip(n + 1));
            }
            let fresh = if now >= e.last_used { now - e.last_used < ttl } else { 0 < ttl };
            proof {
                assert(fresh == pred(e));
                assert(orig.take(n + 1).filter(pred) == if pred(orig[n]) { orig.take(n).filter(pred).push(orig[n]) } else { orig.take(n).filter(pred) }) by {
                    reveal(Seq::filter);
                }
            }
            if fresh {
                kept.push(e);
            }
        }
        proof {
            assert(orig.take(orig.len() as int) =~= orig);
            assert forall|k: Seq<char>| #![auto] true implies lookup(kept@, k) == match lookup(orig, k) {
                Some((c, t)) => if is_fresh(t, now, ttl) { Some((c, t)) } else { None },
                None => None,
            } by {
                lemma_lookup_filter(orig, now, ttl, k);
            }
            lemma_lookup_filter(orig, now, ttl, Seq::empty());
        }
        self.entries = kept;
        proof {
            assert(self@ =~= cleaned(old(self)@, now, ttl));
        }
    }
}


/// Whether every configuration in a cache was built, as `built` tells, from settings whose
/// key it is cached under.
pub open spec fn faithful<C>(m: Map<Seq<char>, (C, u64)>, built: spec_fn(C, ConnectionView) -> bool) -> bool {
    forall|k: Seq<char>| #[trigger] m.contains_key(k) ==> exists|v: ConnectionView| settings_key(v) == k && built(m[k].0, v)
}

/// The cache is transparent: in a cache where each configuration was built from the
/// settings it is cached under, what is found under the key of some settings was built
/// from exactly those settings.
pub proof fn lemma_cache_is_transparent<C>(m: Map<Seq<char>, (C, u64)>, built: spec_fn(C, ConnectionView) -> bool, v: ConnectionView)
    requires
        faithful(m, built),
        m.contains_key(settings_key(v)),
    ensures
        built(m[settings_key(v)].0, v),
{
    let k = settings_key(v);
    assert(m.contains_key(k));
    let w = choose|w: ConnectionView| settings_key(w) == k && built(m[k].0, w);
    lemma_settings_key_injective(w, v);
}

/// Each way the pool changes keeps it faithful: an empty pool; caching a configuration
/// built from some settings under their key; marking an entry as used; a cleanup.
pub proof fn lemma_pool_stays_faithful<C>(
    m: Map<Seq<char>, (C, u64)>,
    built: spec_fn(C, ConnectionView) -> bool,
    v: ConnectionView,
    config: C,
    k: Seq<char>,
    t: u64,
    now: u64,
    ttl: u64,
)
    requires
        faithful(m, built),
    ensures
        faithful(Map::<Seq<char>, (C, u64)>::empty(), built),
        built(config, v) ==> faithful(m.insert(settings_key(v), (config, t)), built),
        m.contains_key(k) ==> faithful(m.insert(k, (m[k].0, t)), built),
        faithful(cleaned(m, now, ttl), built),
{
    if built(config, v) {
        let m2 = m.insert(settings_key(v), (config, t));
        assert forall|j: Seq<char>| #[trigger] m2.contains_key(j) implies exists|w: ConnectionView| settings_key(w) == j && built(m2[j].0, w) by {
            if j == settings_key(v) {
                assert(settings_key(v) == j && built(m2[j].0, v));
            } else {
                assert(m.contains_key(j));
                let w = choose|w: ConnectionView| settings_key(w) == j && built(m[j].0, w);
                assert(settings_key(w) == j && built(m2[j].0, w));
            }
        }
    }
    if m.contains_key(k) {
        let m3 = m.insert(k, (m[k].0, t));
        assert forall|j: Seq<char>| #[trigger] m3.contains_key(j) implies exists|w: ConnectionView| settings_key(w) == j && built(m3[j].0, w) by {
            assert(m.contains_key(j));
            let w = choose|w: ConnectionView| settings_key(w) == j && built(m[j].0, w);
            assert(settings_key(w) == j && built(m3[j].0, w));
        }
    }
    let m4 = cleaned(m, now, ttl);
    assert forall|j: Seq<char>| #[trigger] m4.contains_key(j) implies exists|w: ConnectionView| settings_key(w) == j && built(m4[j].0, w) by {
        assert(m.contains_key(j));
        let w = choose|w: ConnectionView| settings_key(w) == j && built(m[j].0, w);
        assert(settings_key(w) == j && built(m4[j].0, w));
    }
}

}
