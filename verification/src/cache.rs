//! The HTTPS client cache: a process-wide registry keyed by the connect
//! timeout and the TLS profile.  Entries are created on demand and
//! retained; equal keys always yield the same entry, distinct keys
//! distinct entries.

use vstd::prelude::*;

use crate::config::target::{TlsConfig, TlsVerifyConfig};
use crate::text::str_eq;

verus! {

/// The key of one cached client: the connect timeout and the TLS profile.
pub struct ClientKey {
    pub timeout_ms: u64,
    pub tls: TlsConfig,
}

/// The specification-level form of a cache key.
pub struct KeyView {
    pub timeout_ms: u64,
    pub verify: TlsVerifyConfig,
    pub ca: Option<Seq<char>>,
}

impl View for ClientKey {
    type V = KeyView;

    open spec fn view(&self) -> KeyView {
        KeyView { timeout_ms: self.timeout_ms, verify: self.tls@.verify, ca: self.tls@.ca }
    }
}

/// Whether two keys agree on timeout, verification flag and CA bundle.
pub fn key_eq(a: &ClientKey, b: &ClientKey) -> (r: bool)
    ensures
        r == (a@ == b@),
{
    if a.timeout_ms != b.timeout_ms {
        return false;
    }
    if a.tls.verify != b.tls.verify {
        return false;
    }
    match (&a.tls.ca, &b.tls.ca) {
        (None, None) => true,
        (Some(ca), Some(cb)) => str_eq(ca.as_str(), cb.as_str()),
        _ => false,
    }
}

/// The first cache slot holding `key`, or `-1`.
pub open spec fn key_index(keys: Seq<KeyView>, key: KeyView) -> int
    decreases keys.len(),
{
    if keys.len() == 0 {
        -1
    } else if keys[0] == key {
        0
    } else {
        let r = key_index(keys.drop_first(), key);
        if r < 0 {
            -1
        } else {
            1 + r
        }
    }
}

pub proof fn lemma_key_index_props(keys: Seq<KeyView>, key: KeyView)
    ensures
        -1 <= key_index(keys, key) < keys.len(),
        key_index(keys, key) >= 0 ==> keys[key_index(keys, key)] == key,
    decreases keys.len(),
{
    if keys.len() > 0 && keys[0] != key {
        lemma_key_index_props(keys.drop_first(), key);
    }
}

proof fn lemma_key_index_scan(keys: Seq<KeyView>, key: KeyView, i: int)
    requires
        0 <= i < keys.len(),
        keys[i] == key,
        forall|j: int| 0 <= j < i ==> keys[j] != key,
    ensures
        key_index(keys, key) == i,
    decreases i,
{
    if i > 0 {
        lemma_key_index_scan(keys.drop_first(), key, i - 1);
    }
}

proof fn lemma_key_index_missing(keys: Seq<KeyView>, key: KeyView)
    requires
        forall|j: int| 0 <= j < keys.len() ==> keys[j] != key,
    ensures
        key_index(keys, key) == -1,
    decreases keys.len(),
{
    if keys.len() > 0 {
        lemma_key_index_missing(keys.drop_first(), key);
    }
}

/// The cached clients, each under its key.  The payload type is opaque to
/// the cache: it stores what it is given and hands the same value back.
pub struct ClientCache<V> {
    entries: Vec<(ClientKey, V)>,
}

impl<V> ClientCache<V> {
    /// The keys of the slots, in slot order.
    pub closed spec fn keys(&self) -> Seq<KeyView> {
        Seq::new(self.entries@.len(), |i: int| self.entries@[i].0@)
    }

    /// The value of one slot.
    pub closed spec fn value_at(&self, i: int) -> V {
        self.entries@[i].1
    }

    /// Each key occupies at most one slot.
    pub open spec fn wf(&self) -> bool {
        forall|i: int, j: int| 0 <= i < j < self.keys().len() ==> self.keys()[i] != self.keys()[j]
    }

    pub fn new() -> (r: ClientCache<V>)
        ensures
            r.keys() == Seq::<KeyView>::empty(),
            r.wf(),
    {
        let r = ClientCache { entries: Vec::new() };
        proof {
            assert(r.keys() =~= Seq::<KeyView>::empty());
        }
        r
    }

    pub fn len(&self) -> (r: usize)
        ensures
            r == self.keys().len(),
    {
        self.entries.len()
    }

    /// The slot of `key`, when the cache holds it.
    pub fn lookup(&self, key: &ClientKey) -> (r: Option<usize>)
        ensures
            match r {
                Some(i) => i < self.keys().len() && key_index(self.keys(), key@) == i as int,
                None => key_index(self.keys(), key@) == -1,
            },
    {
        let n = self.entries.len();
        let mut i: usize = 0;
        while i < n
            invariant
                n == self.keys().len(),
                i <= n,
                forall|j: int| 0 <= j < i ==> self.keys()[j] != key@,
            decreases n - i,
        {
            if key_eq(&self.entries[i].0, key) {
                proof {
                    lemma_key_index_scan(self.keys(), key@, i as int);
                }
                return Some(i);
            }
            i = i + 1;
        }
        proof {
            lemma_key_index_missing(self.keys(), key@);
        }
        None
    }

    /// Stores a client under a key the cache does not hold yet; its slot
    /// is returned.
    pub fn insert(&mut self, key: ClientKey, value: V) -> (r: usize)
        requires
            old(self).wf(),
            key_index(old(self).keys(), key@) == -1,
        ensures
            final(self).wf(),
            r == old(self).keys().len(),
            final(self).keys() == old(self).keys().push(key@),
            final(self).value_at(r as int) == value,
            forall|i: int|
                0 <= i < old(self).keys().len() ==> final(self).value_at(i) == old(
                    self,
                ).value_at(i),
    {
        let r = self.entries.len();
        proof {
            lemma_key_index_props(old(self).keys(), key@);
        }
        self.entries.push((key, value));
        proof {
            assert(self.keys() =~= old(self).keys().push(key@));
            assert forall|i: int, j: int|
                0 <= i < j < self.keys().len() implies self.keys()[i] != self.keys()[j] by {
                if j == self.keys().len() - 1 {
                    lemma_key_index_found_somewhere(old(self).keys(), i);
                }
            }
        }
        r
    }

    /// The client in one slot.
    pub fn get(&self, i: usize) -> (r: &V)
        requires
            i < self.keys().len(),
        ensures
            *r == self.value_at(i as int),
    {
        &self.entries[i].1
    }
}

proof fn lemma_key_index_found_somewhere(keys: Seq<KeyView>, i: int)
    requires
        0 <= i < keys.len(),
    ensures
        key_index(keys, keys[i]) >= 0,
    decreases keys.len(),
{
    if keys.len() > 0 && keys[0] != keys[i] {
        lemma_key_index_found_somewhere(keys.drop_first(), i - 1);
    }
}

/// The cache yields identical handles for identical keys and distinct
/// handles for differing keys: the slot of a key is a function of the
/// key, and two differing keys never share a slot.
pub proof fn lemma_cache_key_determines_client<V>(
    c: ClientCache<V>,
    k1: KeyView,
    k2: KeyView,
)
    requires
        c.wf(),
    ensures
        k1 == k2 ==> key_index(c.keys(), k1) == key_index(c.keys(), k2),
        k1 != k2 && key_index(c.keys(), k1) >= 0 && key_index(c.keys(), k2) >= 0 ==> key_index(
            c.keys(),
            k1,
        ) != key_index(c.keys(), k2),
{
    lemma_key_index_props(c.keys(), k1);
    lemma_key_index_props(c.keys(), k2);
}

} // verus!
