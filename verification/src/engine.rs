//! The synchronisation engine: one mapper and one shadow state, driven by
//! MIDI messages from controllers and parameter changes from mixers.
//!
//! Each direction runs through the same gate: translate, then forward only
//! the values the shadow state has not seen, recording what was forwarded so
//! the echo coming back from the other side is dropped.

use vstd::prelude::*;
use crate::mapper::{
    result_view, results_view, spec_reverse_results, spec_translate, MappingResult,
    ParameterMapper, spec_cache_after,
};
use crate::midi::MidiMessageType;
use crate::shadow::{
    id_key, lemma_has_changed_via_map, spec_has_changed_in, ParameterId, ShadowEntry, ShadowKey,
    ShadowState,
};
use crate::translation::{ParameterMapping, UcNetParameterType, UcNetParameterValue};

verus! {

/// Which side a synchronised change originated from.
#[derive(Debug, Clone, Copy, PartialEq, Eq, Structural)]
pub enum SyncSource {
    /// The change came from a MIDI controller.
    Midi,
    /// The change came from a UCNet mixer.
    UcNet,
}

/// Summary of the recorded translation latencies, in microseconds.
#[derive(Debug, Clone, Copy, PartialEq, Eq, Structural)]
pub struct LatencyStats {
    /// Mean latency.
    pub avg_us: u64,
    /// Smallest sample.
    pub min_us: u64,
    /// Largest sample.
    pub max_us: u64,
    /// Number of samples summarised.
    pub sample_count: usize,
}

/// The sum of a sequence of samples.
pub open spec fn spec_sum(s: Seq<u64>) -> int
    decreases s.len(),
{
    if s.len() == 0 {
        0
    } else {
        spec_sum(s.drop_last()) + s.last()
    }
}

/// The smallest sample.
pub open spec fn spec_min(s: Seq<u64>) -> u64
    decreases s.len(),
{
    if s.len() <= 1 {
        s[0]
    } else if s.last() < spec_min(s.drop_last()) {
        s.last()
    } else {
        spec_min(s.drop_last())
    }
}

/// The largest sample.
pub open spec fn spec_max(s: Seq<u64>) -> u64
    decreases s.len(),
{
    if s.len() <= 1 {
        s[0]
    } else if s.last() > spec_max(s.drop_last()) {
        s.last()
    } else {
        spec_max(s.drop_last())
    }
}

/// The sum of a sample sequence is bounded by its length times its largest
/// member.
proof fn lemma_sum_bound(s: Seq<u64>)
    requires
        s.len() > 0,
    ensures
        spec_sum(s) <= s.len() * spec_max(s),
        spec_sum(s) >= 0,
        spec_max(s) <= u64::MAX,
    decreases s.len(),
{
    if s.len() == 1 {
        assert(s.drop_last().len() == 0);
        assert(spec_sum(s.drop_last()) == 0);
        assert(s.last() == s[0]);
        assert(s.len() * spec_max(s) == spec_max(s)) by (nonlinear_arith)
            requires s.len() == 1;
    } else {
        let dl = s.drop_last();
        lemma_sum_bound(dl);
        assert(spec_max(dl) <= spec_max(s));
        assert(s.last() <= spec_max(s));
        assert(dl.len() * spec_max(dl) <= dl.len() * spec_max(s)) by (nonlinear_arith)
            requires spec_max(dl) <= spec_max(s) && dl.len() >= 0;
        assert(spec_sum(s) == spec_sum(dl) + s.last());
        assert(dl.len() * spec_max(s) + spec_max(s) == s.len() * spec_max(s)) by (nonlinear_arith)
            requires dl.len() == s.len() - 1;
    }
}

/// One step of the forwarding gate: a translated result is forwarded when
/// the shadow map does not already hold its value; each forwarded result is
/// written back to the map before the next one is judged. Returns the
/// forwarded results and the final map.
pub open spec fn spec_forward(
    m: Map<ShadowKey, ShadowEntry>,
    tolerance: int,
    max_age: int,
    rs: Seq<(Seq<char>, u32, UcNetParameterType, UcNetParameterValue)>,
    now: u64,
) -> (Seq<(Seq<char>, u32, UcNetParameterType, UcNetParameterValue)>, Map<ShadowKey, ShadowEntry>)
    decreases rs.len(),
{
    if rs.len() == 0 {
        (Seq::empty(), m)
    } else {
        let r0 = rs.first();
        let k = (r0.0, r0.1, r0.2);
        if spec_has_changed_in(m, tolerance, max_age, k, r0.3, now) {
            let m1 = m.insert(k, ShadowEntry { value: r0.3, timestamp: now });
            let rec = spec_forward(m1, tolerance, max_age, rs.drop_first(), now);
            (seq![r0] + rec.0, rec.1)
        } else {
            spec_forward(m, tolerance, max_age, rs.drop_first(), now)
        }
    }
}

/// The bidirectional synchronisation engine.
pub struct SyncEngine {
    mapper: ParameterMapper,
    shadow_state: ShadowState,
    latency_samples: Vec<u64>,
    max_latency_samples: usize,
}

impl SyncEngine {
    /// The mapping table.
    pub closed spec fn mappings(&self) -> Seq<ParameterMapping> {
        self.mapper.mappings_view()
    }

    /// The mapper's buffered MSB bytes.
    pub closed spec fn msb_cache(&self) -> Seq<(u8, u8, u8)> {
        self.mapper.cache_view()
    }

    /// The shadow state.
    pub closed spec fn shadow(&self) -> ShadowState {
        self.shadow_state
    }

    /// The recorded latency samples, oldest first.
    pub closed spec fn latencies(&self) -> Seq<u64> {
        self.latency_samples@
    }

    /// The configured bound on the number of latency samples kept.
    pub closed spec fn max_latencies(&self) -> int {
        self.max_latency_samples as int
    }

    /// The engine's invariant: the shadow store keys are unique.
    pub open spec fn wf(&self) -> bool {
        self.shadow().wf()
    }

    /// Creates an engine with an empty mapping table and shadow state and
    /// the given bound on kept latency samples.
    pub fn new(max_latency_samples: usize) -> (r: Self)
        ensures
            r.wf(),
            r.mappings() == Seq::<ParameterMapping>::empty(),
            r.msb_cache() == Seq::<(u8, u8, u8)>::empty(),
            forall|k: ShadowKey| r.shadow().entry_for(k) is None,
            r.shadow().spec_tolerance() == 1000,
            r.shadow().spec_max_age() == 5000,
            r.latencies() == Seq::<u64>::empty(),
            r.max_latencies() == max_latency_samples,
    {
        Self {
            mapper: ParameterMapper::new(),
            shadow_state: ShadowState::new(1000, 5000),
            latency_samples: Vec::new(),
            max_latency_samples,
        }
    }

    /// Appends a parameter mapping.
    pub fn add_mapping(&mut self, mapping: ParameterMapping)
        requires
            old(self).wf(),
        ensures
            final(self).wf(),
            final(self).mappings() == old(self).mappings().push(mapping),
            final(self).shadow() == old(self).shadow(),
            final(self).latencies() == old(self).latencies(),
    {
        self.mapper.add_mapping(mapping);
    }

    /// Removes every mapping bound to the given MIDI control.
    pub fn remove_mapping(
        &mut self,
        midi_channel: u8,
        midi_controller: Option<u8>,
        midi_note: Option<u8>,
    )
        requires
            old(self).wf(),
        ensures
            final(self).wf(),
            final(self).mappings() == crate::mapper::spec_retain_mappings(
                old(self).mappings(),
                midi_channel,
                midi_controller,
                midi_note,
            ),
            final(self).shadow() == old(self).shadow(),
    {
        self.mapper.remove_mapping(midi_channel, midi_controller, midi_note);
    }

    /// Clears the mapping table.
    pub fn clear_mappings(&mut self)
        requires
            old(self).wf(),
        ensures
            final(self).wf(),
            final(self).mappings() == Seq::<ParameterMapping>::empty(),
            final(self).shadow() == old(self).shadow(),
    {
        self.mapper.clear_mappings();
    }

    /// A copy of the current mapping table.
    pub fn get_mappings(&self) -> (r: Vec<ParameterMapping>)
        ensures
            r@ == self.mappings(),
    {
        let source = self.mapper.get_mappings();
        let mut out: Vec<ParameterMapping> = Vec::new();
        let mut i: usize = 0;
        while i < source.len()
            invariant
                i <= source@.len(),
                source@ == self.mappings(),
                out@ == self.mappings().take(i as int),
            decreases source@.len() - i,
        {
            out.push(source[i].clone());
            proof {
                assert(out@ =~= self.mappings().take(i + 1));
            }
            i = i + 1;
        }
        proof {
            assert(self.mappings().take(source@.len() as int) =~= self.mappings());
        }
        out
    }

    /// Handles one MIDI message at time `now_ms`: translates it through the
    /// mapping table, then forwards each result that the shadow state has
    /// not seen, writing forwarded values back so the mixer's echo of them
    /// is suppressed. Returns the forwarded results; empty when no mapping
    /// matched or every value was already known.
    pub fn handle_midi_message(
        &mut self,
        device_id: String,
        message: MidiMessageType,
        now_ms: u64,
    ) -> (r: Vec<MappingResult>)
        requires
            old(self).wf(),
        ensures
            final(self).wf(),
            results_view(r@) == spec_forward(
                old(self).shadow().as_map(),
                old(self).shadow().spec_tolerance(),
                old(self).shadow().spec_max_age(),
                spec_translate(old(self).mappings(), old(self).msb_cache(), message),
                now_ms,
            ).0,
            final(self).shadow().as_map() == spec_forward(
                old(self).shadow().as_map(),
                old(self).shadow().spec_tolerance(),
                old(self).shadow().spec_max_age(),
                spec_translate(old(self).mappings(), old(self).msb_cache(), message),
                now_ms,
            ).1,
            final(self).shadow().spec_tolerance() == old(self).shadow().spec_tolerance(),
            final(self).shadow().spec_max_age() == old(self).shadow().spec_max_age(),
            final(self).mappings() == old(self).mappings(),
            forall|ch2: u8, cc2: u8|
                crate::mapper::spec_msb_cached(final(self).msb_cache(), ch2, cc2)
                    == spec_cache_after(
                    old(self).mappings(),
                    old(self).msb_cache(),
                    message,
                    ch2,
                    cc2,
                ),
            final(self).latencies() == old(self).latencies(),
    {
        let results = self.mapper.translate(message);
        let ghost mapper_mid = self.mapper;
        let ghost all = results_view(results@);
        let ghost tol = self.shadow_state.spec_tolerance();
        let ghost age = self.shadow_state.spec_max_age();
        let n = results.len();
        let mut filtered: Vec<MappingResult> = Vec::new();
        let mut i: usize = 0;
        let mut results_iter = results;
        proof {
            assert(all.skip(0) =~= all);
        }
        while i < n
            invariant
                self.shadow_state.wf(),
                self.shadow_state.spec_tolerance() == tol,
                self.shadow_state.spec_max_age() == age,
                n == results_iter@.len(),
                i <= n,
                results_view(results_iter@) == all,
                self.mapper == mapper_mid,
                self.latency_samples@ == old(self).latency_samples@,
                self.max_latency_samples == old(self).max_latency_samples,
                spec_forward(old(self).shadow().as_map(), tol, age, all, now_ms)
                    == (results_view(filtered@) + spec_forward(
                    self.shadow_state.as_map(),
                    tol,
                    age,
                    all.skip(i as int),
                    now_ms,
                ).0, spec_forward(
                    self.shadow_state.as_map(),
                    tol,
                    age,
                    all.skip(i as int),
                    now_ms,
                ).1),
            decreases n - i,
        {
            let ghost pre_map = self.shadow_state.as_map();
            let ghost rest = all.skip(i as int);
            proof {
                assert(rest.first() == all[i as int]);
                assert(rest.drop_first() =~= all.skip(i + 1));
                assert(all[i as int] == result_view(results_iter@[i as int]));
            }
            let result = &results_iter[i];
            let param_id = ParameterId::new(
                result.device_id.clone(),
                result.channel,
                result.parameter_type,
            );
            proof {
                assert(id_key(&param_id) == (all[i as int].0, all[i as int].1, all[i as int].2));
                lemma_has_changed_via_map(&self.shadow_state, id_key(&param_id), result.value, now_ms);
            }
            if self.shadow_state.has_changed(&param_id, &result.value, now_ms) {
                self.shadow_state.update(param_id, result.value, now_ms);
                let ghost before = filtered@;
                filtered.push(result.clone());
                proof {
                    assert(results_view(filtered@) =~= results_view(before).push(
                        result_view(filtered@.last()),
                    ));
                    assert(results_view(before).push(all[i as int]) + spec_forward(
                        self.shadow_state.as_map(),
                        tol,
                        age,
                        all.skip(i + 1),
                        now_ms,
                    ).0 =~= results_view(before) + (seq![all[i as int]] + spec_forward(
                        self.shadow_state.as_map(),
                        tol,
                        age,
                        all.skip(i + 1),
                        now_ms,
                    ).0));
                }
            }
            i = i + 1;
        }
        proof {
            assert(all.skip(n as int) =~= Seq::<
                (Seq<char>, u32, UcNetParameterType, UcNetParameterValue),
            >::empty());
            assert(results_view(filtered@) + Seq::<
                (Seq<char>, u32, UcNetParameterType, UcNetParameterValue),
            >::empty() =~= results_view(filtered@));
        }
        filtered
    }

    /// Handles one UCNet parameter change at time `now_ms`: a value the
    /// shadow state has already seen (an echo of a forwarded change) yields
    /// nothing and leaves the state untouched; a new value is recorded and
    /// reverse-translated into the MIDI messages of every mapping that
    /// targets the parameter.
    pub fn handle_ucnet_change(
        &mut self,
        device_id: String,
        channel: u32,
        parameter_type: UcNetParameterType,
        value: UcNetParameterValue,
        now_ms: u64,
    ) -> (r: Vec<MidiMessageType>)
        requires
            old(self).wf(),
        ensures
            final(self).wf(),
            final(self).mappings() == old(self).mappings(),
            final(self).msb_cache() == old(self).msb_cache(),
            ({
                let k = (device_id@, channel, parameter_type);
                if old(self).shadow().spec_has_changed(k, value, now_ms) {
                    &&& r@ == spec_reverse_results(
                        old(self).mappings(),
                        device_id@,
                        channel,
                        parameter_type,
                        value,
                    )
                    &&& final(self).shadow().entry_for(k) == Some(
                        ShadowEntry { value, timestamp: now_ms },
                    )
                    &&& forall|k2: ShadowKey|
                        k2 != k ==> final(self).shadow().entry_for(k2) == old(
                            self,
                        ).shadow().entry_for(k2)
                } else {
                    &&& r@ == Seq::<MidiMessageType>::empty()
                    &&& final(self).shadow() == old(self).shadow()
                }
            }),
            final(self).shadow().spec_tolerance() == old(self).shadow().spec_tolerance(),
            final(self).shadow().spec_max_age() == old(self).shadow().spec_max_age(),
    {
        let param_id = ParameterId::new(device_id.clone(), channel, parameter_type);
        if !self.shadow_state.has_changed(&param_id, &value, now_ms) {
            return Vec::new();
        }
        self.shadow_state.update(param_id, value, now_ms);
        self.mapper.reverse_translate(device_id.as_str(), channel, parameter_type, value)
    }

    /// Records one latency sample in microseconds; when the buffer is full
    /// the oldest sample is evicted.
    pub fn record_latency(&mut self, sample_us: u64)
        ensures
            final(self).latencies() == (if old(self).latencies().len() + 1 > old(
                self,
            ).max_latencies() {
                old(self).latencies().push(sample_us).drop_first()
            } else {
                old(self).latencies().push(sample_us)
            }),
            final(self).shadow() == old(self).shadow(),
            final(self).mappings() == old(self).mappings(),
            final(self).max_latencies() == old(self).max_latencies(),
    {
        self.latency_samples.push(sample_us);
        if self.latency_samples.len() > self.max_latency_samples {
            self.latency_samples.remove(0);
            proof {
                assert(self.latency_samples@ =~= old(self).latency_samples@.push(
                    sample_us,
                ).drop_first());
            }
        }
    }

    /// Summarises the recorded latency samples, or `None` when none have
    /// been recorded.
    pub fn get_latency_stats(&self) -> (r: Option<LatencyStats>)
        ensures
            match r {
                None => self.latencies().len() == 0,
                Some(st) => self.latencies().len() > 0 && st.sample_count == self.latencies().len()
                    && st.min_us == spec_min(self.latencies()) && st.max_us == spec_max(
                    self.latencies(),
                ) && st.avg_us == spec_sum(self.latencies()) / self.latencies().len() as int,
            },
    {
        let n = self.latency_samples.len();
        if n == 0 {
            return None;
        }
        let ghost s = self.latency_samples@;
        let mut sum: u128 = self.latency_samples[0] as u128;
        let mut min = self.latency_samples[0];
        let mut max = self.latency_samples[0];
        let mut i: usize = 1;
        proof {
            assert(s.take(1).len() == 1 && s.take(1)[0] == s[0]);
            assert(s.take(1).drop_last() =~= Seq::<u64>::empty());
            assert(spec_sum(s.take(1).drop_last()) == 0);
            assert(s.take(1).last() == s[0]);
            lemma_sum_bound(s.take(1));
        }
        while i < n
            invariant
                1 <= i <= n,
                n == s.len(),
                s == self.latency_samples@,
                sum == spec_sum(s.take(i as int)),
                min == spec_min(s.take(i as int)),
                max == spec_max(s.take(i as int)),
                sum <= i * (u64::MAX as u128),
            decreases n - i,
        {
            proof {
                assert(s.take(i + 1).drop_last() =~= s.take(i as int));
                assert(s.take(i + 1).last() == s[i as int]);
                assert(i * (u64::MAX as int) + (u64::MAX as int) == (i + 1) * (u64::MAX as int))
                    by (nonlinear_arith);
            }
            let v = self.latency_samples[i];
            sum = sum + v as u128;
            if v < min {
                min = v;
            }
            if v > max {
                max = v;
            }
            i = i + 1;
        }
        proof {
            assert(s.take(n as int) =~= s);
            assert(n * (u64::MAX as int) <= u128::MAX) by (nonlinear_arith)
                requires n <= usize::MAX;
            lemma_sum_bound(s);
            vstd::arithmetic::div_mod::lemma_div_is_ordered(
                spec_sum(s),
                s.len() * spec_max(s) as int,
                s.len() as int,
            );
            vstd::arithmetic::div_mod::lemma_div_multiples_vanish(
                spec_max(s) as int,
                s.len() as int,
            );
            assert(s.len() * spec_max(s) as int == spec_max(s) as int * s.len());
            assert(spec_sum(s) / s.len() as int <= spec_max(s));
        }
        let avg = (sum / n as u128) as u64;
        Some(LatencyStats { avg_us: avg, min_us: min, max_us: max, sample_count: n })
    }

    /// Clears the recorded latency samples.
    pub fn clear_latency_stats(&mut self)
        ensures
            final(self).latencies() == Seq::<u64>::empty(),
            final(self).shadow() == old(self).shadow(),
            final(self).mappings() == old(self).mappings(),
    {
        self.latency_samples.clear();
    }

    /// Drops the shadow entries of one device, so its next values are
    /// forwarded again.
    pub fn clear_device_state(&mut self, device_id: &str)
        requires
            old(self).wf(),
        ensures
            final(self).wf(),
            final(self).mappings() == old(self).mappings(),
            forall|k: ShadowKey|
                final(self).shadow().entry_for(k) == (if k.0 == device_id@ {
                    None
                } else {
                    old(self).shadow().entry_for(k)
                }),
            final(self).shadow().spec_tolerance() == old(self).shadow().spec_tolerance(),
            final(self).shadow().spec_max_age() == old(self).shadow().spec_max_age(),
    {
        self.shadow_state.clear_device(device_id);
    }

    /// Drops every shadow entry.
    pub fn clear_all_state(&mut self)
        requires
            old(self).wf(),
        ensures
            final(self).wf(),
            final(self).mappings() == old(self).mappings(),
            forall|k: ShadowKey| final(self).shadow().entry_for(k) is None,
            final(self).shadow().spec_tolerance() == old(self).shadow().spec_tolerance(),
            final(self).shadow().spec_max_age() == old(self).shadow().spec_max_age(),
    {
        self.shadow_state.clear();
    }

    /// Drops shadow entries whose age at `now_ms` has reached the maximum
    /// age, bounding the store's size.
    pub fn cleanup_stale(&mut self, now_ms: u64)
        requires
            old(self).wf(),
        ensures
            final(self).wf(),
            final(self).mappings() == old(self).mappings(),
            forall|k: ShadowKey|
                final(self).shadow().entry_for(k) == (match old(self).shadow().entry_for(k) {
                    Some(e) => if crate::shadow::spec_age(e, now_ms) < old(
                        self,
                    ).shadow().spec_max_age() {
                        Some(e)
                    } else {
                        None
                    },
                    None => None,
                }),
    {
        self.shadow_state.cleanup_stale(now_ms);
    }
}

impl Default for SyncEngine {
    /// An engine keeping at most 1000 latency samples.
    fn default() -> (r: Self)
        ensures
            r.wf(),
            r.mappings() == Seq::<ParameterMapping>::empty(),
            forall|k: ShadowKey| r.shadow().entry_for(k) is None,
            r.latencies() == Seq::<u64>::empty(),
            r.max_latencies() == 1000,
    {
        Self::new(1000)
    }
}


/// The shadow key of a forwarded result.
pub open spec fn result_key(
    rv: (Seq<char>, u32, UcNetParameterType, UcNetParameterValue),
) -> ShadowKey {
    (rv.0, rv.1, rv.2)
}

/// A key none of the forwarded results carries keeps its binding through the
/// forwarding gate.
proof fn lemma_forward_untouched(
    m: Map<ShadowKey, ShadowEntry>,
    tolerance: int,
    max_age: int,
    rs: Seq<(Seq<char>, u32, UcNetParameterType, UcNetParameterValue)>,
    now: u64,
    k: ShadowKey,
)
    requires
        forall|j: int|
            0 <= j < spec_forward(m, tolerance, max_age, rs, now).0.len() ==> result_key(
                #[trigger] spec_forward(m, tolerance, max_age, rs, now).0[j],
            ) != k,
    ensures
        spec_forward(m, tolerance, max_age, rs, now).1.contains_key(k) == m.contains_key(k),
        m.contains_key(k) ==> spec_forward(m, tolerance, max_age, rs, now).1[k] == m[k],
    decreases rs.len(),
{
    if rs.len() > 0 {
        let r0 = rs.first();
        let k0 = (r0.0, r0.1, r0.2);
        let fwd = spec_forward(m, tolerance, max_age, rs, now).0;
        if spec_has_changed_in(m, tolerance, max_age, k0, r0.3, now) {
            let m1 = m.insert(k0, ShadowEntry { value: r0.3, timestamp: now });
            let rec = spec_forward(m1, tolerance, max_age, rs.drop_first(), now);
            assert(fwd[0] == r0);
            assert(result_key(fwd[0]) != k);
            assert forall|j: int| 0 <= j < rec.0.len() implies result_key(#[trigger] rec.0[j])
                != k by {
                assert(fwd[j + 1] == rec.0[j]);
            }
            lemma_forward_untouched(m1, tolerance, max_age, rs.drop_first(), now, k);
        } else {
            lemma_forward_untouched(m, tolerance, max_age, rs.drop_first(), now, k);
        }
    }
}

/// What the filter leaves recorded under a key is the last forwarded
/// result that carries the key, with the forwarding time.
proof fn lemma_forward_last_write(
    m: Map<ShadowKey, ShadowEntry>,
    tolerance: int,
    max_age: int,
    rs: Seq<(Seq<char>, u32, UcNetParameterType, UcNetParameterValue)>,
    now: u64,
    i: int,
)
    requires
        0 <= i < spec_forward(m, tolerance, max_age, rs, now).0.len(),
        forall|j: int|
            i < j < spec_forward(m, tolerance, max_age, rs, now).0.len() ==> result_key(
                #[trigger] spec_forward(m, tolerance, max_age, rs, now).0[j],
            ) != result_key(spec_forward(m, tolerance, max_age, rs, now).0[i]),
    ensures
        ({
            let fwd = spec_forward(m, tolerance, max_age, rs, now).0;
            let m2 = spec_forward(m, tolerance, max_age, rs, now).1;
            m2.contains_key(result_key(fwd[i])) && m2[result_key(fwd[i])] == ShadowEntry {
                value: fwd[i].3,
                timestamp: now,
            }
        }),
    decreases rs.len(),
{
    let fwd = spec_forward(m, tolerance, max_age, rs, now).0;
    let r0 = rs.first();
    let k0 = (r0.0, r0.1, r0.2);
    if spec_has_changed_in(m, tolerance, max_age, k0, r0.3, now) {
        let m1 = m.insert(k0, ShadowEntry { value: r0.3, timestamp: now });
        let rec = spec_forward(m1, tolerance, max_age, rs.drop_first(), now);
        assert forall|j: int| 0 <= j < rec.0.len() implies #[trigger] rec.0[j] == fwd[j + 1] by {}
        if i == 0 {
            assert(fwd[0] == r0);
            assert forall|j: int| 0 <= j < rec.0.len() implies result_key(#[trigger] rec.0[j])
                != k0 by {
                assert(fwd[j + 1] == rec.0[j]);
            }
            lemma_forward_untouched(m1, tolerance, max_age, rs.drop_first(), now, k0);
        } else {
            lemma_forward_last_write(m1, tolerance, max_age, rs.drop_first(), now, i - 1);
            assert(rec.0[i - 1] == fwd[i]);
        }
    } else {
        let rec = spec_forward(m, tolerance, max_age, rs.drop_first(), now);
        assert(fwd == rec.0);
        lemma_forward_last_write(m, tolerance, max_age, rs.drop_first(), now, i);
    }
}

/// The feedback gate closes the loop: a value the engine forwarded does not
/// count as changed when it echoes back under its key within the maximum
/// age, so it is never propagated a second time. `i` names the last
/// forwarded result under its key; the tolerance must be positive for a
/// value to equal itself.
pub proof fn lemma_forwarded_echo_suppressed(
    m: Map<ShadowKey, ShadowEntry>,
    tolerance: int,
    max_age: int,
    rs: Seq<(Seq<char>, u32, UcNetParameterType, UcNetParameterValue)>,
    now: u64,
    i: int,
    echo_ms: u64,
)
    requires
        tolerance > 0,
        0 <= i < spec_forward(m, tolerance, max_age, rs, now).0.len(),
        forall|j: int|
            i < j < spec_forward(m, tolerance, max_age, rs, now).0.len() ==> result_key(
                #[trigger] spec_forward(m, tolerance, max_age, rs, now).0[j],
            ) != result_key(spec_forward(m, tolerance, max_age, rs, now).0[i]),
        now <= echo_ms,
        echo_ms - now <= max_age,
    ensures
        ({
            let fwd = spec_forward(m, tolerance, max_age, rs, now).0;
            !spec_has_changed_in(
                spec_forward(m, tolerance, max_age, rs, now).1,
                tolerance,
                max_age,
                result_key(fwd[i]),
                fwd[i].3,
                echo_ms,
            )
        }),
{
    lemma_forward_last_write(m, tolerance, max_age, rs, now, i);
}

} // verus!
