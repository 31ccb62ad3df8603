//! Shadow state: the last-known-value cache that suppresses feedback loops.
//!
//! Every propagation path checks [`ShadowState::has_changed`] before
//! forwarding a value and calls [`ShadowState::update`] after deciding to
//! forward; a value that merely echoes the last propagated one is thereby
//! dropped instead of circling between the two sides forever.

use vstd::prelude::*;
use vstd::map::*;
use crate::translation::{UcNetParameterType, UcNetParameterValue};
use crate::strutil::str_eq;

verus! {

/// Identifies one controllable parameter: a device, a channel on it, and the
/// parameter type.
#[derive(Debug, Hash)]
pub struct ParameterId {
    /// UCNet device id.
    pub device_id: String,
    /// Channel number (1-based).
    pub channel: u32,
    /// Parameter type.
    pub parameter_type: UcNetParameterType,
}

/// The mathematical key a `ParameterId` stands for.
pub open spec fn id_key(id: &ParameterId) -> (Seq<char>, u32, UcNetParameterType) {
    (id.device_id@, id.channel, id.parameter_type)
}

/// The key type of the cache: a device id's characters, a channel, and a
/// parameter type.
pub type ShadowKey = (Seq<char>, u32, UcNetParameterType);

impl ParameterId {
    /// Creates a new parameter id.
    pub fn new(device_id: String, channel: u32, parameter_type: UcNetParameterType) -> (r: Self)
        ensures
            r.device_id == device_id,
            r.channel == channel,
            r.parameter_type == parameter_type,
    {
        Self { device_id, channel, parameter_type }
    }
}

impl Clone for ParameterId {
    fn clone(&self) -> (r: Self)
        ensures
            r == *self,
    {
        ParameterId {
            device_id: self.device_id.clone(),
            channel: self.channel,
            parameter_type: self.parameter_type,
        }
    }
}

impl PartialEq for ParameterId {
    fn eq(&self, other: &Self) -> (r: bool) {
        self.device_id == other.device_id && self.channel == other.channel
            && self.parameter_type == other.parameter_type
    }
}

impl vstd::std_specs::cmp::PartialEqSpecImpl for ParameterId {
    open spec fn obeys_eq_spec() -> bool {
        true
    }

    open spec fn eq_spec(&self, other: &Self) -> bool {
        id_key(self) == id_key(other)
    }
}

/// One cached value with the time it was recorded.
#[derive(Debug, Clone, Copy)]
pub struct ShadowEntry {
    /// Last known value.
    pub value: UcNetParameterValue,
    /// Time of the last update, in milliseconds of the caller's clock.
    pub timestamp: u64,
}

/// How old an entry is at time `now`; an entry stamped in the future counts
/// as brand new.
pub open spec fn spec_age(e: ShadowEntry, now: u64) -> int {
    if e.timestamp <= now {
        now - e.timestamp
    } else {
        0
    }
}

/// Whether two values count as equal: booleans by identity, continuous
/// values when they lie within `tolerance` micro-units of each other, and
/// values of different kinds never.
pub open spec fn spec_values_equal(
    tolerance: int,
    a: UcNetParameterValue,
    b: UcNetParameterValue,
) -> bool {
    match (a, b) {
        (UcNetParameterValue::Float(x), UcNetParameterValue::Float(y)) => (
            if x >= y {
                x - y
            } else {
                y - x
            }
        ) < tolerance,
        (UcNetParameterValue::Bool(x), UcNetParameterValue::Bool(y)) => x == y,
        _ => false,
    }
}

/// The value stored for key `k`, searching the newest (last) binding first.
pub open spec fn spec_lookup(
    s: Seq<(ParameterId, ShadowEntry)>,
    k: (Seq<char>, u32, UcNetParameterType),
) -> Option<ShadowEntry>
    decreases s.len(),
{
    if s.len() == 0 {
        None
    } else if id_key(&s.last().0) == k {
        Some(s.last().1)
    } else {
        spec_lookup(s.drop_last(), k)
    }
}

/// A lookup misses exactly when no binding carries the key.
pub proof fn lemma_lookup_none_iff(
    s: Seq<(ParameterId, ShadowEntry)>,
    k: (Seq<char>, u32, UcNetParameterType),
)
    ensures
        spec_lookup(s, k) is None <==> (forall|i: int| 0 <= i < s.len() ==> id_key(&s[i].0) != k),
    decreases s.len(),
{
    if s.len() > 0 {
        lemma_lookup_none_iff(s.drop_last(), k);
        assert(s.last() == s[s.len() - 1]);
        if spec_lookup(s, k) is None {
            assert forall|i: int| 0 <= i < s.len() implies id_key(&s[i].0) != k by {
                if i < s.len() - 1 {
                    assert(s.drop_last()[i] == s[i]);
                }
            }
        } else {
            if id_key(&s.last().0) != k {
                let w = choose|i: int|
                    0 <= i < s.drop_last().len() && id_key(&s.drop_last()[i].0) == k;
                assert(s.drop_last()[w] == s[w]);
            }
        }
    }
}

/// Appending a binding shadows its key and leaves every other key's binding
/// as it was.
pub proof fn lemma_lookup_push(s: Seq<(ParameterId, ShadowEntry)>, p: (ParameterId, ShadowEntry))
    ensures
        forall|k2: (Seq<char>, u32, UcNetParameterType)|
            #![trigger spec_lookup(s.push(p), k2)]
            spec_lookup(s.push(p), k2) == (if id_key(&p.0) == k2 {
                Some(p.1)
            } else {
                spec_lookup(s, k2)
            }),
{
    assert forall|k2: (Seq<char>, u32, UcNetParameterType)| spec_lookup(s.push(p), k2) == (if
    id_key(&p.0) == k2 {
        Some(p.1)
    } else {
        spec_lookup(s, k2)
    }) by {
        assert(s.push(p).last() == p);
        assert(s.push(p).drop_last() =~= s);
    }
}

/// What `has_changed` says of an abstract cache map: true when the map has
/// no entry for the key, the entry is older than the maximum age, or its
/// value differs beyond the tolerance.
pub open spec fn spec_has_changed_in(
    m: Map<ShadowKey, ShadowEntry>,
    tolerance: int,
    max_age: int,
    k: ShadowKey,
    value: UcNetParameterValue,
    now: u64,
) -> bool {
    if m.contains_key(k) {
        spec_age(m[k], now) > max_age || !spec_values_equal(tolerance, m[k].value, value)
    } else {
        true
    }
}

/// No two bindings carry the same key.
pub open spec fn unique_keys(s: Seq<(ParameterId, ShadowEntry)>) -> bool {
    forall|i: int, j: int| 0 <= i < j < s.len() ==> id_key(&s[i].0) != id_key(&s[j].0)
}

/// The per-parameter last-known-value cache.
pub struct ShadowState {
    entries: Vec<(ParameterId, ShadowEntry)>,
    /// Two continuous values within this many micro-units count as equal.
    float_tolerance: i64,
    /// Entries older than this many milliseconds are treated as changed.
    max_age_ms: u64,
}

impl ShadowState {
    /// Each parameter appears at most once in the store.
    pub closed spec fn wf(&self) -> bool {
        unique_keys(self.entries@)
    }

    /// The stored entry for key `k`, if any.
    pub closed spec fn entry_for(&self, k: (Seq<char>, u32, UcNetParameterType)) -> Option<
        ShadowEntry,
    > {
        spec_lookup(self.entries@, k)
    }

    /// The whole cache as a map from keys to entries.
    pub closed spec fn as_map(&self) -> Map<ShadowKey, ShadowEntry> {
        Map::new(
            |k: ShadowKey| spec_lookup(self.entries@, k) is Some,
            |k: ShadowKey| spec_lookup(self.entries@, k).unwrap(),
        )
    }

    /// The configured comparison tolerance in micro-units.
    pub closed spec fn spec_tolerance(&self) -> int {
        self.float_tolerance as int
    }

    /// The configured maximum entry age in milliseconds.
    pub closed spec fn spec_max_age(&self) -> int {
        self.max_age_ms as int
    }

    /// What `has_changed` returns: true when nothing is cached for the
    /// parameter, the cached entry is older than the maximum age, or the
    /// cached value differs beyond the tolerance.
    pub open spec fn spec_has_changed(
        &self,
        k: (Seq<char>, u32, UcNetParameterType),
        value: UcNetParameterValue,
        now: u64,
    ) -> bool {
        match self.entry_for(k) {
            None => true,
            Some(e) => spec_age(e, now) > self.spec_max_age() || !spec_values_equal(
                self.spec_tolerance(),
                e.value,
                value,
            ),
        }
    }

    /// Creates a shadow state with the given float tolerance (micro-units)
    /// and maximum entry age (milliseconds).
    pub fn new(float_tolerance: i64, max_age_ms: u64) -> (r: Self)
        ensures
            r.wf(),
            r.spec_tolerance() == float_tolerance,
            r.spec_max_age() == max_age_ms,
            forall|k: (Seq<char>, u32, UcNetParameterType)| r.entry_for(k) is None,
            r.len_spec() == 0,
    {
        Self { entries: Vec::new(), float_tolerance, max_age_ms }
    }

    /// The number of cached entries.
    pub closed spec fn len_spec(&self) -> nat {
        self.entries@.len()
    }

    /// Finds the index of the binding for `id`, newest first.
    fn find(&self, id: &ParameterId) -> (r: Option<usize>)
        ensures
            match r {
                Some(i) => i < self.entries@.len() && id_key(&self.entries@[i as int].0) == id_key(
                    id,
                ) && Some(self.entries@[i as int].1) == self.entry_for(id_key(id)),
                None => self.entry_for(id_key(id)) is None,
            },
    {
        let ghost k = id_key(id);
        let mut i = self.entries.len();
        proof {
            assert(self.entries@.take(self.entries@.len() as int) =~= self.entries@);
        }
        while i > 0
            invariant
                i <= self.entries@.len(),
                spec_lookup(self.entries@, k) == spec_lookup(self.entries@.take(i as int), k),
                k == id_key(id),
            decreases i,
        {
            proof {
                assert(self.entries@.take(i as int).last() == self.entries@[i - 1]);
                assert(self.entries@.take(i as int).drop_last() =~= self.entries@.take(i - 1));
            }
            if self.entries[i - 1].0.eq(id) {
                return Some(i - 1);
            }
            i = i - 1;
        }
        proof {
            assert(self.entries@.take(0) =~= Seq::<(ParameterId, ShadowEntry)>::empty());
        }
        None
    }

    /// Whether two values count as equal under the configured tolerance.
    fn values_equal(&self, a: &UcNetParameterValue, b: &UcNetParameterValue) -> (r: bool)
        ensures
            r == spec_values_equal(self.spec_tolerance(), *a, *b),
    {
        match (a, b) {
            (UcNetParameterValue::Float(x), UcNetParameterValue::Float(y)) => {
                let d: i128 = if *x >= *y {
                    *x as i128 - *y as i128
                } else {
                    *y as i128 - *x as i128
                };
                d < self.float_tolerance as i128
            },
            (UcNetParameterValue::Bool(x), UcNetParameterValue::Bool(y)) => x == y,
            _ => false,
        }
    }

    /// Removes the binding for `k`, leaving every other binding as it was.
    fn remove_key(&mut self, id: &ParameterId)
        requires
            old(self).wf(),
        ensures
            final(self).wf(),
            final(self).float_tolerance == old(self).float_tolerance,
            final(self).max_age_ms == old(self).max_age_ms,
            final(self).entry_for(id_key(id)) is None,
            forall|k2: (Seq<char>, u32, UcNetParameterType)|
                k2 != id_key(id) ==> final(self).entry_for(k2) == old(self).entry_for(k2),
    {
        let ghost k = id_key(id);
        let n = self.entries.len();
        let mut kept: Vec<(ParameterId, ShadowEntry)> = Vec::new();
        let mut j: usize = 0;
        while j < n
            invariant
                n == self.entries@.len(),
                j <= n,
                self.entries@ == old(self).entries@,
                self.float_tolerance == old(self).float_tolerance,
                self.max_age_ms == old(self).max_age_ms,
                unique_keys(old(self).entries@),
                unique_keys(kept@),
                k == id_key(id),
                forall|i2: int|
                    #![trigger kept@[i2]]
                    0 <= i2 < kept@.len() ==> exists|j2: int|
                        0 <= j2 < j && kept@[i2] == #[trigger] old(self).entries@[j2],
                forall|k2: (Seq<char>, u32, UcNetParameterType)|
                    spec_lookup(kept@, k2) == (if k2 == k {
                        None
                    } else {
                        spec_lookup(old(self).entries@.take(j as int), k2)
                    }),
            decreases n - j,
        {
            let ghost prefix = old(self).entries@.take(j as int);
            proof {
                assert(old(self).entries@.take(j + 1) =~= prefix.push(
                    old(self).entries@[j as int],
                ));
                lemma_lookup_push(prefix, old(self).entries@[j as int]);
            }
            if !self.entries[j].0.eq(id) {
                let ghost kept_before = kept@;
                let pair = (self.entries[j].0.clone(), self.entries[j].1);
                kept.push(pair);
                proof {
                    assert(kept_before.push(kept@.last()) =~= kept@);
                    lemma_lookup_push(kept_before, kept@.last());
                    assert forall|i2: int| 0 <= i2 < kept_before.len() implies id_key(
                        &kept_before[i2].0,
                    ) != id_key(&old(self).entries@[j as int].0) by {
                        let j2 = choose|j2: int|
                            0 <= j2 < j && kept_before[i2] == #[trigger] old(self).entries@[j2];
                    }
                }
            }
            j = j + 1;
        }
        proof {
            assert(old(self).entries@.take(n as int) =~= old(self).entries@);
        }
        self.entries = kept;
    }

    /// Records `value` for the parameter at time `now_ms`, replacing any
    /// previous entry for it; entries of other parameters are untouched.
    pub fn update(&mut self, id: ParameterId, value: UcNetParameterValue, now_ms: u64)
        requires
            old(self).wf(),
        ensures
            final(self).wf(),
            final(self).spec_tolerance() == old(self).spec_tolerance(),
            final(self).spec_max_age() == old(self).spec_max_age(),
            final(self).entry_for(id_key(&id)) == Some(ShadowEntry { value, timestamp: now_ms }),
            forall|k2: (Seq<char>, u32, UcNetParameterType)|
                k2 != id_key(&id) ==> final(self).entry_for(k2) == old(self).entry_for(k2),
            final(self).as_map() == old(self).as_map().insert(
                id_key(&id),
                ShadowEntry { value, timestamp: now_ms },
            ),
    {
        let ghost k = id_key(&id);
        self.remove_key(&id);
        let ghost mid = *self;
        proof {
            lemma_lookup_none_iff(mid.entries@, k);
        }
        self.entries.push((id, ShadowEntry { value, timestamp: now_ms }));
        proof {
            let s = self.entries@;
            assert(s.drop_last() =~= mid.entries@);
            let e = ShadowEntry { value, timestamp: now_ms };
            let m1 = self.as_map();
            let m2 = old(self).as_map().insert(k, e);
            assert_maps_equal!(m1, m2, k2 => {
                if k2 == k {
                    assert(spec_lookup(s, k2) == Some(e));
                } else {
                    assert(spec_lookup(s, k2) == spec_lookup(mid.entries@, k2));
                    assert(mid.entry_for(k2) == old(self).entry_for(k2));
                }
            });
        }
    }

    /// Returns true when the value would be news: nothing is cached for the
    /// parameter, the cached entry is older than the maximum age, or the
    /// cached value differs from `value` beyond the tolerance. Returns false
    /// for a value that merely echoes the cached one.
    pub fn has_changed(&self, id: &ParameterId, value: &UcNetParameterValue, now_ms: u64) -> (r:
        bool)
        ensures
            r == self.spec_has_changed(id_key(id), *value, now_ms),
    {
        match self.find(id) {
            None => true,
            Some(i) => {
                let entry_ts = self.entries[i].1.timestamp;
                let age = if entry_ts <= now_ms {
                    now_ms - entry_ts
                } else {
                    0
                };
                if age > self.max_age_ms {
                    return true;
                }
                let stored = self.entries[i].1.value;
                !self.values_equal(&stored, value)
            },
        }
    }

    /// Drops every cached entry.
    pub fn clear(&mut self)
        ensures
            final(self).wf(),
            final(self).spec_tolerance() == old(self).spec_tolerance(),
            final(self).spec_max_age() == old(self).spec_max_age(),
            forall|k: (Seq<char>, u32, UcNetParameterType)| final(self).entry_for(k) is None,
            final(self).len_spec() == 0,
    {
        self.entries.clear();
    }

    /// Drops the cached entries of one device; entries of other devices are
    /// untouched.
    pub fn clear_device(&mut self, device_id: &str)
        requires
            old(self).wf(),
        ensures
            final(self).wf(),
            final(self).spec_tolerance() == old(self).spec_tolerance(),
            final(self).spec_max_age() == old(self).spec_max_age(),
            forall|k: (Seq<char>, u32, UcNetParameterType)|
                final(self).entry_for(k) == (if k.0 == device_id@ {
                    None
                } else {
                    old(self).entry_for(k)
                }),
    {
        let n = self.entries.len();
        let mut kept: Vec<(ParameterId, ShadowEntry)> = Vec::new();
        let mut j: usize = 0;
        while j < n
            invariant
                n == self.entries@.len(),
                j <= n,
                self.entries@ == old(self).entries@,
                self.float_tolerance == old(self).float_tolerance,
                self.max_age_ms == old(self).max_age_ms,
                unique_keys(old(self).entries@),
                unique_keys(kept@),
                forall|i2: int|
                    #![trigger kept@[i2]]
                    0 <= i2 < kept@.len() ==> exists|j2: int|
                        0 <= j2 < j && kept@[i2] == #[trigger] old(self).entries@[j2],
                forall|k: (Seq<char>, u32, UcNetParameterType)|
                    spec_lookup(kept@, k) == (if k.0 == device_id@ {
                        None
                    } else {
                        spec_lookup(old(self).entries@.take(j as int), k)
                    }),
            decreases n - j,
        {
            let ghost prefix = old(self).entries@.take(j as int);
            proof {
                assert(old(self).entries@.take(j + 1) =~= prefix.push(
                    old(self).entries@[j as int],
                ));
                lemma_lookup_push(prefix, old(self).entries@[j as int]);
            }
            if !str_eq(self.entries[j].0.device_id.as_str(), device_id) {
                let ghost kept_before = kept@;
                let pair = (self.entries[j].0.clone(), self.entries[j].1);
                kept.push(pair);
                proof {
                    assert(kept_before.push(kept@.last()) =~= kept@);
                    lemma_lookup_push(kept_before, kept@.last());
                    assert forall|i2: int| 0 <= i2 < kept_before.len() implies id_key(
                        &kept_before[i2].0,
                    ) != id_key(&old(self).entries@[j as int].0) by {
                        let j2 = choose|j2: int|
                            0 <= j2 < j && kept_before[i2] == #[trigger] old(self).entries@[j2];
                    }
                }
            }
            j = j + 1;
        }
        proof {
            assert(old(self).entries@.take(n as int) =~= old(self).entries@);
        }
        self.entries = kept;
    }

    /// Drops every entry whose age at `now_ms` has reached the maximum age;
    /// younger entries are untouched.
    pub fn cleanup_stale(&mut self, now_ms: u64)
        requires
            old(self).wf(),
        ensures
            final(self).wf(),
            final(self).spec_tolerance() == old(self).spec_tolerance(),
            final(self).spec_max_age() == old(self).spec_max_age(),
            forall|k: (Seq<char>, u32, UcNetParameterType)|
                final(self).entry_for(k) == (match old(self).entry_for(k) {
                    Some(e) => if spec_age(e, now_ms) < old(self).spec_max_age() {
                        Some(e)
                    } else {
                        None
                    },
                    None => None,
                }),
    {
        let n = self.entries.len();
        let mut kept: Vec<(ParameterId, ShadowEntry)> = Vec::new();
        let mut j: usize = 0;
        while j < n
            invariant
                n == self.entries@.len(),
                j <= n,
                self.entries@ == old(self).entries@,
                self.float_tolerance == old(self).float_tolerance,
                self.max_age_ms == old(self).max_age_ms,
                unique_keys(old(self).entries@),
                unique_keys(kept@),
                forall|i2: int|
                    #![trigger kept@[i2]]
                    0 <= i2 < kept@.len() ==> exists|j2: int|
                        0 <= j2 < j && kept@[i2] == #[trigger] old(self).entries@[j2],
                forall|k: (Seq<char>, u32, UcNetParameterType)|
                    spec_lookup(kept@, k) == (match spec_lookup(
                        old(self).entries@.take(j as int),
                        k,
                    ) {
                        Some(e) => if spec_age(e, now_ms) < old(self).max_age_ms {
                            Some(e)
                        } else {
                            None
                        },
                        None => None,
                    }),
            decreases n - j,
        {
            let ghost prefix = old(self).entries@.take(j as int);
            proof {
                assert(old(self).entries@.take(j + 1) =~= prefix.push(
                    old(self).entries@[j as int],
                ));
                lemma_lookup_push(prefix, old(self).entries@[j as int]);
            }
            let entry_ts = self.entries[j].1.timestamp;
            let age = if entry_ts <= now_ms {
                now_ms - entry_ts
            } else {
                0
            };
            if age < self.max_age_ms {
                let ghost kept_before = kept@;
                let pair = (self.entries[j].0.clone(), self.entries[j].1);
                kept.push(pair);
                proof {
                    assert(kept_before.push(kept@.last()) =~= kept@);
                    lemma_lookup_push(kept_before, kept@.last());
                    assert forall|i2: int| 0 <= i2 < kept_before.len() implies id_key(
                        &kept_before[i2].0,
                    ) != id_key(&old(self).entries@[j as int].0) by {
                        let j2 = choose|j2: int|
                            0 <= j2 < j && kept_before[i2] == #[trigger] old(self).entries@[j2];
                    }
                }
            } else {
                proof {
                    let kj = id_key(&old(self).entries@[j as int].0);
                    assert forall|i2: int| 0 <= i2 < prefix.len() implies id_key(&prefix[i2].0)
                        != kj by {
                        assert(prefix[i2] == old(self).entries@[i2]);
                    }
                    lemma_lookup_none_iff(prefix, kj);
                }
            }
            j = j + 1;
        }
        proof {
            assert(old(self).entries@.take(n as int) =~= old(self).entries@);
        }
        self.entries = kept;
    }

    /// The cached value for a parameter, or `None` when nothing is cached or
    /// the entry's age has reached the maximum age.
    pub fn get(&self, id: &ParameterId, now_ms: u64) -> (r: Option<UcNetParameterValue>)
        ensures
            r == (match self.entry_for(id_key(id)) {
                Some(e) => if spec_age(e, now_ms) < self.spec_max_age() {
                    Some(e.value)
                } else {
                    None
                },
                None => None,
            }),
    {
        match self.find(id) {
            None => None,
            Some(i) => {
                let entry_ts = self.entries[i].1.timestamp;
                let age = if entry_ts <= now_ms {
                    now_ms - entry_ts
                } else {
                    0
                };
                if age < self.max_age_ms {
                    Some(self.entries[i].1.value)
                } else {
                    None
                }
            },
        }
    }

    /// The number of cached entries.
    pub fn len(&self) -> (r: usize)
        ensures
            r == self.len_spec(),
    {
        self.entries.len()
    }

    /// Whether the cache is empty.
    pub fn is_empty(&self) -> (r: bool)
        ensures
            r == (self.len_spec() == 0),
    {
        self.entries.is_empty()
    }
}

impl Default for ShadowState {
    /// The default cache: 1000 micro-units (0.001) of tolerance and a
    /// five-second maximum age.
    fn default() -> (r: Self)
        ensures
            r.wf(),
            r.spec_tolerance() == 1000,
            r.spec_max_age() == 5000,
            forall|k: (Seq<char>, u32, UcNetParameterType)| r.entry_for(k) is None,
    {
        Self::new(1000, 5000)
    }
}

/// After an update, a value within tolerance of the one recorded does not
/// count as changed while the entry is younger than the maximum age: the
/// gate that keeps a propagated value from echoing back and forth.
pub proof fn lemma_update_suppresses_echo(
    s: ShadowState,
    id: &ParameterId,
    recorded: UcNetParameterValue,
    offered: UcNetParameterValue,
    written_ms: u64,
    now_ms: u64,
)
    requires
        s.entry_for(id_key(id)) == Some(ShadowEntry { value: recorded, timestamp: written_ms }),
        spec_values_equal(s.spec_tolerance(), recorded, offered),
        written_ms <= now_ms,
        now_ms - written_ms <= s.spec_max_age(),
    ensures
        !s.spec_has_changed(id_key(id), offered, now_ms),
{
}

/// A value that echoes the recorded one exactly is never propagated again,
/// provided the tolerance is positive and the entry is fresh.
pub proof fn lemma_exact_echo_suppressed(
    s: ShadowState,
    id: &ParameterId,
    value: UcNetParameterValue,
    written_ms: u64,
    now_ms: u64,
)
    requires
        s.spec_tolerance() > 0,
        s.entry_for(id_key(id)) == Some(ShadowEntry { value, timestamp: written_ms }),
        written_ms <= now_ms,
        now_ms - written_ms <= s.spec_max_age(),
    ensures
        !s.spec_has_changed(id_key(id), value, now_ms),
{
}

/// `has_changed` seen through the map model: what the method returns equals
/// the map-level predicate applied to the cache's map.
pub proof fn lemma_has_changed_via_map(
    s: &ShadowState,
    k: ShadowKey,
    value: UcNetParameterValue,
    now: u64,
)
    ensures
        s.spec_has_changed(k, value, now) == spec_has_changed_in(
            s.as_map(),
            s.spec_tolerance(),
            s.spec_max_age(),
            k,
            value,
            now,
        ),
{
}

} // verus!
