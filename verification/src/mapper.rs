//! The bidirectional parameter mapper: MIDI messages to UCNet parameter
//! changes and back.
//!
//! Forward translation matches Control Change and note messages against the
//! mapping table; 14-bit mappings buffer the MSB byte per (channel,
//! controller) until the paired LSB byte arrives. Reverse translation fans a
//! UCNet parameter change out to the MIDI messages of every mapping that
//! targets the parameter.

use vstd::prelude::*;
use crate::midi::MidiMessageType;
use crate::taper::{
    apply_taper, midi_14bit_to_normalized, midi_7bit_to_normalized, normalized_to_midi_14bit,
    normalized_to_midi_7bit, pan_to_normalized, reverse_taper, spec_apply_taper,
    spec_midi_14bit_to_normalized, spec_midi_7bit_to_normalized, spec_normalized_to_midi_14bit,
    spec_normalized_to_midi_7bit, spec_pan_to_normalized, spec_reverse_taper,
};
use crate::translation::{ParameterMapping, UcNetParameterType, UcNetParameterValue};
use crate::strutil::str_eq;

verus! {

/// One UCNet parameter change produced by forward translation.
#[derive(Debug, PartialEq)]
pub struct MappingResult {
    /// Target UCNet device id.
    pub device_id: String,
    /// Target channel number (1-based).
    pub channel: u32,
    /// Parameter type being controlled.
    pub parameter_type: UcNetParameterType,
    /// The mapped value.
    pub value: UcNetParameterValue,
}

impl Clone for MappingResult {
    fn clone(&self) -> (r: Self)
        ensures
            r == *self,
    {
        MappingResult {
            device_id: self.device_id.clone(),
            channel: self.channel,
            parameter_type: self.parameter_type,
            value: self.value,
        }
    }
}

/// The mathematical content of a `MappingResult`.
pub open spec fn result_view(r: MappingResult) -> (
    Seq<char>,
    u32,
    UcNetParameterType,
    UcNetParameterValue,
) {
    (r.device_id@, r.channel, r.parameter_type, r.value)
}

/// The mathematical content of a sequence of results.
pub open spec fn results_view(s: Seq<MappingResult>) -> Seq<
    (Seq<char>, u32, UcNetParameterType, UcNetParameterValue),
> {
    s.map_values(|r: MappingResult| result_view(r))
}

/// The value a continuous mapping produces from a normalized control
/// position: volume runs through the mapping's taper curve, pan is remapped
/// from [0, UNIT] to [-UNIT, UNIT]; a mute mapping produces nothing here
/// (notes drive mutes).
pub open spec fn spec_continuous_result(m: ParameterMapping, normalized: int) -> Option<
    (Seq<char>, u32, UcNetParameterType, UcNetParameterValue),
> {
    match m.parameter_type {
        UcNetParameterType::Volume => Some(
            (
                m.ucnet_device_id@,
                m.ucnet_channel,
                UcNetParameterType::Volume,
                UcNetParameterValue::Float(spec_apply_taper(normalized, m.taper_curve) as i64),
            ),
        ),
        UcNetParameterType::Pan => Some(
            (
                m.ucnet_device_id@,
                m.ucnet_channel,
                UcNetParameterType::Pan,
                UcNetParameterValue::Float((2 * normalized - 1_000_000) as i64),
            ),
        ),
        UcNetParameterType::Mute => None,
    }
}

/// The MSB value buffered for `(channel, controller)`, newest binding first.
pub open spec fn spec_msb_cached(cache: Seq<(u8, u8, u8)>, channel: u8, controller: u8) -> Option<
    u8,
>
    decreases cache.len(),
{
    if cache.len() == 0 {
        None
    } else if cache.last().0 == channel && cache.last().1 == controller {
        Some(cache.last().2)
    } else {
        spec_msb_cached(cache.drop_last(), channel, controller)
    }
}

/// Whether a mapping buffers this Control Change as the MSB half of its
/// 14-bit pair.
pub open spec fn spec_wants_msb(m: ParameterMapping, channel: u8, controller: u8) -> bool {
    &&& m.midi_channel == channel
    &&& m.use_14bit
    &&& m.midi_controller_msb == Some(controller)
    &&& m.midi_controller_lsb is Some
}

/// Whether any mapping buffers this Control Change as an MSB byte.
pub open spec fn spec_caches_msb(ms: Seq<ParameterMapping>, channel: u8, controller: u8) -> bool {
    exists|i: int| 0 <= i < ms.len() && spec_wants_msb(#[trigger] ms[i], channel, controller)
}

/// The result one mapping produces for a Control Change, reading buffered
/// MSB bytes from `cache`: a 7-bit mapping fires on its controller; a 14-bit
/// mapping fires only on its LSB controller, combining the buffered MSB (or
/// zero) with the incoming byte; the MSB byte itself produces nothing.
pub open spec fn spec_cc_one(
    m: ParameterMapping,
    cache: Seq<(u8, u8, u8)>,
    channel: u8,
    controller: u8,
    value: u8,
) -> Option<(Seq<char>, u32, UcNetParameterType, UcNetParameterValue)> {
    if m.midi_channel != channel {
        None
    } else if m.use_14bit {
        if m.midi_controller_msb is Some && m.midi_controller_lsb is Some {
            let msb_cc = m.midi_controller_msb.unwrap();
            let lsb_cc = m.midi_controller_lsb.unwrap();
            if controller == msb_cc {
                None
            } else if controller == lsb_cc {
                let msb = match spec_msb_cached(cache, channel, msb_cc) {
                    Some(b) => b,
                    None => 0,
                };
                spec_continuous_result(m, spec_midi_14bit_to_normalized(msb, value))
            } else {
                None
            }
        } else {
            None
        }
    } else if m.midi_controller == Some(controller) {
        spec_continuous_result(m, spec_midi_7bit_to_normalized(value))
    } else {
        None
    }
}

/// The results a Control Change produces across the mapping table, in table
/// order.
pub open spec fn spec_cc_results(
    ms: Seq<ParameterMapping>,
    cache: Seq<(u8, u8, u8)>,
    channel: u8,
    controller: u8,
    value: u8,
) -> Seq<(Seq<char>, u32, UcNetParameterType, UcNetParameterValue)>
    decreases ms.len(),
{
    if ms.len() == 0 {
        Seq::empty()
    } else {
        let rest = spec_cc_results(ms.drop_last(), cache, channel, controller, value);
        match spec_cc_one(ms.last(), cache, channel, controller, value) {
            Some(rv) => rest.push(rv),
            None => rest,
        }
    }
}

/// The result one mapping produces for a note event: only mute mappings on
/// the matching channel and note fire, with `Bool(is_on)`.
pub open spec fn spec_note_one(m: ParameterMapping, channel: u8, note: u8, is_on: bool) -> Option<
    (Seq<char>, u32, UcNetParameterType, UcNetParameterValue),
> {
    if m.midi_channel == channel && m.midi_note == Some(note) && m.parameter_type
        == UcNetParameterType::Mute {
        Some(
            (
                m.ucnet_device_id@,
                m.ucnet_channel,
                UcNetParameterType::Mute,
                UcNetParameterValue::Bool(is_on),
            ),
        )
    } else {
        None
    }
}

/// The results a note event produces across the mapping table, in table
/// order.
pub open spec fn spec_note_results(
    ms: Seq<ParameterMapping>,
    channel: u8,
    note: u8,
    is_on: bool,
) -> Seq<(Seq<char>, u32, UcNetParameterType, UcNetParameterValue)>
    decreases ms.len(),
{
    if ms.len() == 0 {
        Seq::empty()
    } else {
        let rest = spec_note_results(ms.drop_last(), channel, note, is_on);
        match spec_note_one(ms.last(), channel, note, is_on) {
            Some(rv) => rest.push(rv),
            None => rest,
        }
    }
}

/// The results one MIDI message produces: Control Change and note messages
/// translate, everything else produces nothing. Note On with velocity zero
/// counts as note-off, as MIDI running status conventions require.
pub open spec fn spec_translate(
    ms: Seq<ParameterMapping>,
    cache: Seq<(u8, u8, u8)>,
    message: MidiMessageType,
) -> Seq<(Seq<char>, u32, UcNetParameterType, UcNetParameterValue)> {
    match message {
        MidiMessageType::ControlChange { channel, controller, value } => spec_cc_results(
            ms,
            cache,
            channel,
            controller,
            value,
        ),
        MidiMessageType::NoteOn { channel, note, velocity } => spec_note_results(
            ms,
            channel,
            note,
            velocity > 0,
        ),
        MidiMessageType::NoteOff { channel, note, velocity } => spec_note_results(
            ms,
            channel,
            note,
            false,
        ),
        _ => Seq::empty(),
    }
}

/// The MIDI messages one mapping emits for a UCNet parameter change of the
/// mapping's own type: volume reverses through the taper curve, pan through
/// the inverse of the [0,UNIT] to [-UNIT,UNIT] remap; both emit either one
/// 7-bit Control Change or an MSB-first pair; mute emits Note On at velocity
/// 127 or Note Off at velocity 0.
pub open spec fn spec_reverse_one(
    m: ParameterMapping,
    parameter_type: UcNetParameterType,
    value: UcNetParameterValue,
) -> Seq<MidiMessageType> {
    match parameter_type {
        UcNetParameterType::Volume => match value {
            UcNetParameterValue::Float(v) => spec_reverse_continuous(
                m,
                spec_reverse_taper(v as int, m.taper_curve),
            ),
            _ => Seq::empty(),
        },
        UcNetParameterType::Pan => match value {
            UcNetParameterValue::Float(v) => spec_reverse_continuous(
                m,
                spec_pan_to_normalized(v as int),
            ),
            _ => Seq::empty(),
        },
        UcNetParameterType::Mute => match value {
            UcNetParameterValue::Bool(b) => {
                if m.midi_note is Some {
                    if b {
                        seq![
                            MidiMessageType::NoteOn {
                                channel: m.midi_channel,
                                note: m.midi_note.unwrap(),
                                velocity: 127,
                            },
                        ]
                    } else {
                        seq![
                            MidiMessageType::NoteOff {
                                channel: m.midi_channel,
                                note: m.midi_note.unwrap(),
                                velocity: 0,
                            },
                        ]
                    }
                } else {
                    Seq::empty()
                }
            },
            _ => Seq::empty(),
        },
    }
}

/// The Control Change messages that carry a normalized position back to the
/// mapping's controller: an MSB-first pair for 14-bit mappings, one message
/// otherwise.
pub open spec fn spec_reverse_continuous(m: ParameterMapping, normalized: int) -> Seq<
    MidiMessageType,
> {
    if m.use_14bit {
        if m.midi_controller_msb is Some && m.midi_controller_lsb is Some {
            let mv = spec_normalized_to_midi_14bit(normalized);
            seq![
                MidiMessageType::ControlChange {
                    channel: m.midi_channel,
                    controller: m.midi_controller_msb.unwrap(),
                    value: mv.0 as u8,
                },
                MidiMessageType::ControlChange {
                    channel: m.midi_channel,
                    controller: m.midi_controller_lsb.unwrap(),
                    value: mv.1 as u8,
                },
            ]
        } else {
            Seq::empty()
        }
    } else if m.midi_controller is Some {
        seq![
            MidiMessageType::ControlChange {
                channel: m.midi_channel,
                controller: m.midi_controller.unwrap(),
                value: spec_normalized_to_midi_7bit(normalized) as u8,
            },
        ]
    } else {
        Seq::empty()
    }
}

/// Whether a mapping targets the given UCNet parameter address.
pub open spec fn spec_targets(
    m: ParameterMapping,
    device_id: Seq<char>,
    channel: u32,
    parameter_type: UcNetParameterType,
) -> bool {
    m.ucnet_device_id@ == device_id && m.ucnet_channel == channel && m.parameter_type
        == parameter_type
}

/// The MIDI messages a UCNet parameter change produces across the mapping
/// table: the concatenation, in table order, of the messages of every
/// mapping that targets the address.
pub open spec fn spec_reverse_results(
    ms: Seq<ParameterMapping>,
    device_id: Seq<char>,
    channel: u32,
    parameter_type: UcNetParameterType,
    value: UcNetParameterValue,
) -> Seq<MidiMessageType>
    decreases ms.len(),
{
    if ms.len() == 0 {
        Seq::empty()
    } else {
        let rest = spec_reverse_results(ms.drop_last(), device_id, channel, parameter_type, value);
        if spec_targets(ms.last(), device_id, channel, parameter_type) {
            rest + spec_reverse_one(ms.last(), parameter_type, value)
        } else {
            rest
        }
    }
}

/// The MSB buffer after one message: a Control Change that some 14-bit
/// mapping buffers as its MSB byte overwrites the buffer's (channel,
/// controller) binding; any other message leaves the buffer as it was.
pub open spec fn spec_cache_after(
    ms: Seq<ParameterMapping>,
    cache: Seq<(u8, u8, u8)>,
    message: MidiMessageType,
    ch2: u8,
    cc2: u8,
) -> Option<u8> {
    match message {
        MidiMessageType::ControlChange { channel, controller, value } => {
            if ch2 == channel && cc2 == controller && spec_caches_msb(ms, channel, controller) {
                Some(value)
            } else {
                spec_msb_cached(cache, ch2, cc2)
            }
        },
        _ => spec_msb_cached(cache, ch2, cc2),
    }
}

/// The mapping table after removing every mapping bound to the given MIDI
/// control, in table order.
pub open spec fn spec_retain_mappings(
    ms: Seq<ParameterMapping>,
    midi_channel: u8,
    midi_controller: Option<u8>,
    midi_note: Option<u8>,
) -> Seq<ParameterMapping>
    decreases ms.len(),
{
    if ms.len() == 0 {
        Seq::empty()
    } else {
        let rest = spec_retain_mappings(ms.drop_last(), midi_channel, midi_controller, midi_note);
        let m = ms.last();
        if m.midi_channel == midi_channel && m.midi_controller == midi_controller && m.midi_note
            == midi_note {
            rest
        } else {
            rest.push(m)
        }
    }
}

/// The table of parameter mappings, with the MSB buffer for 14-bit Control
/// Change pairs.
pub struct ParameterMapper {
    mappings: Vec<ParameterMapping>,
    msb_cache: Vec<(u8, u8, u8)>,
}

impl ParameterMapper {
    /// The mapping table, in insertion order.
    pub closed spec fn mappings_view(&self) -> Seq<ParameterMapping> {
        self.mappings@
    }

    /// The buffered MSB bytes, as (channel, controller, value) bindings.
    pub closed spec fn cache_view(&self) -> Seq<(u8, u8, u8)> {
        self.msb_cache@
    }

    /// Creates an empty mapper.
    pub fn new() -> (r: Self)
        ensures
            r.mappings_view() == Seq::<ParameterMapping>::empty(),
            r.cache_view() == Seq::<(u8, u8, u8)>::empty(),
    {
        Self { mappings: Vec::new(), msb_cache: Vec::new() }
    }

    /// Appends a mapping to the table.
    pub fn add_mapping(&mut self, mapping: ParameterMapping)
        ensures
            final(self).mappings_view() == old(self).mappings_view().push(mapping),
            final(self).cache_view() == old(self).cache_view(),
    {
        self.mappings.push(mapping);
    }

    /// Removes every mapping bound to the given MIDI control (channel plus
    /// controller or note); other mappings keep their order.
    pub fn remove_mapping(
        &mut self,
        midi_channel: u8,
        midi_controller: Option<u8>,
        midi_note: Option<u8>,
    )
        ensures
            final(self).mappings_view() == spec_retain_mappings(
                old(self).mappings_view(),
                midi_channel,
                midi_controller,
                midi_note,
            ),
            final(self).cache_view() == old(self).cache_view(),
    {
        let n = self.mappings.len();
        let mut kept: Vec<ParameterMapping> = Vec::new();
        let mut j: usize = 0;
        while j < n
            invariant
                n == self.mappings@.len(),
                j <= n,
                self.mappings@ == old(self).mappings@,
                self.msb_cache@ == old(self).msb_cache@,
                kept@ == spec_retain_mappings(
                    old(self).mappings@.take(j as int),
                    midi_channel,
                    midi_controller,
                    midi_note,
                ),
            decreases n - j,
        {
            proof {
                assert(old(self).mappings@.take(j + 1).drop_last() =~= old(self).mappings@.take(
                    j as int,
                ));
                assert(old(self).mappings@.take(j + 1).last() == old(self).mappings@[j as int]);
            }
            let m = &self.mappings[j];
            let is_match = m.midi_channel == midi_channel && m.midi_controller == midi_controller
                && m.midi_note == midi_note;
            if !is_match {
                kept.push(self.mappings[j].clone());
            }
            j = j + 1;
        }
        proof {
            assert(old(self).mappings@.take(n as int) =~= old(self).mappings@);
        }
        self.mappings = kept;
    }

    /// Clears the mapping table and the MSB buffer.
    pub fn clear_mappings(&mut self)
        ensures
            final(self).mappings_view() == Seq::<ParameterMapping>::empty(),
            final(self).cache_view() == Seq::<(u8, u8, u8)>::empty(),
    {
        self.mappings.clear();
        self.msb_cache.clear();
    }

    /// The current mapping table.
    pub fn get_mappings(&self) -> (r: &[ParameterMapping])
        ensures
            r@ == self.mappings_view(),
    {
        self.mappings.as_slice()
    }

    /// The buffered MSB byte for a (channel, controller) pair.
    fn msb_lookup(&self, channel: u8, controller: u8) -> (r: Option<u8>)
        ensures
            r == spec_msb_cached(self.cache_view(), channel, controller),
    {
        let mut i = self.msb_cache.len();
        proof {
            assert(self.msb_cache@.take(self.msb_cache@.len() as int) =~= self.msb_cache@);
        }
        while i > 0
            invariant
                i <= self.msb_cache@.len(),
                spec_msb_cached(self.msb_cache@, channel, controller) == spec_msb_cached(
                    self.msb_cache@.take(i as int),
                    channel,
                    controller,
                ),
            decreases i,
        {
            proof {
                assert(self.msb_cache@.take(i as int).last() == self.msb_cache@[i - 1]);
                assert(self.msb_cache@.take(i as int).drop_last() =~= self.msb_cache@.take(i - 1));
            }
            let e = self.msb_cache[i - 1];
            if e.0 == channel && e.1 == controller {
                return Some(e.2);
            }
            i = i - 1;
        }
        proof {
            assert(self.msb_cache@.take(0) =~= Seq::<(u8, u8, u8)>::empty());
        }
        None
    }

    /// Buffers an MSB byte for a (channel, controller) pair, replacing any
    /// previous one.
    fn msb_store(&mut self, channel: u8, controller: u8, value: u8)
        ensures
            final(self).mappings_view() == old(self).mappings_view(),
            forall|ch2: u8, cc2: u8|
                spec_msb_cached(final(self).cache_view(), ch2, cc2) == (if ch2 == channel && cc2
                    == controller {
                    Some(value)
                } else {
                    spec_msb_cached(old(self).cache_view(), ch2, cc2)
                }),
    {
        let n = self.msb_cache.len();
        let mut kept: Vec<(u8, u8, u8)> = Vec::new();
        let mut j: usize = 0;
        while j < n
            invariant
                n == self.msb_cache@.len(),
                j <= n,
                self.msb_cache@ == old(self).msb_cache@,
                self.mappings@ == old(self).mappings@,
                forall|ch2: u8, cc2: u8|
                    spec_msb_cached(kept@, ch2, cc2) == (if ch2 == channel && cc2 == controller {
                        None::<u8>
                    } else {
                        spec_msb_cached(old(self).msb_cache@.take(j as int), ch2, cc2)
                    }),
            decreases n - j,
        {
            let ghost prefix = old(self).msb_cache@.take(j as int);
            let ghost ej = old(self).msb_cache@[j as int];
            proof {
                let t1 = old(self).msb_cache@.take(j + 1);
                assert forall|ch2: u8, cc2: u8| spec_msb_cached(t1, ch2, cc2) == (if ej.0 == ch2
                    && ej.1 == cc2 {
                    Some(ej.2)
                } else {
                    spec_msb_cached(prefix, ch2, cc2)
                }) by {
                    assert(t1.last() == ej);
                    assert(t1.drop_last() =~= prefix);
                }
            }
            let e = self.msb_cache[j];
            if !(e.0 == channel && e.1 == controller) {
                let ghost kept_before = kept@;
                kept.push(e);
                proof {
                    assert forall|ch2: u8, cc2: u8| spec_msb_cached(kept@, ch2, cc2) == (if e.0
                        == ch2 && e.1 == cc2 {
                        Some(e.2)
                    } else {
                        spec_msb_cached(kept_before, ch2, cc2)
                    }) by {
                        assert(kept@.last() == e);
                        assert(kept@.drop_last() =~= kept_before);
                    }
                }
            }
            j = j + 1;
        }
        proof {
            assert(old(self).msb_cache@.take(n as int) =~= old(self).msb_cache@);
        }
        let ghost kept_final = kept@;
        kept.push((channel, controller, value));
        self.msb_cache = kept;
        proof {
            assert forall|ch2: u8, cc2: u8| spec_msb_cached(self.msb_cache@, ch2, cc2) == (if ch2
                == channel && cc2 == controller {
                Some(value)
            } else {
                spec_msb_cached(kept_final, ch2, cc2)
            }) by {
                assert(self.msb_cache@.last() == (channel, controller, value));
                assert(self.msb_cache@.drop_last() =~= kept_final);
            }
        }
    }

    /// Maps a normalized control position through one continuous mapping.
    fn map_continuous_parameter(&self, mapping: &ParameterMapping, normalized: i64) -> (r: Option<
        MappingResult,
    >)
        requires
            0 <= normalized <= 1_000_000,
        ensures
            match r {
                Some(res) => spec_continuous_result(*mapping, normalized as int) == Some(
                    result_view(res),
                ),
                None => spec_continuous_result(*mapping, normalized as int) is None,
            },
    {
        match mapping.parameter_type {
            UcNetParameterType::Volume => {
                let tapered = apply_taper(normalized, mapping.taper_curve);
                Some(
                    MappingResult {
                        device_id: mapping.ucnet_device_id.clone(),
                        channel: mapping.ucnet_channel,
                        parameter_type: UcNetParameterType::Volume,
                        value: UcNetParameterValue::Float(tapered),
                    },
                )
            },
            UcNetParameterType::Pan => {
                let pan_value = 2 * normalized - 1_000_000;
                Some(
                    MappingResult {
                        device_id: mapping.ucnet_device_id.clone(),
                        channel: mapping.ucnet_channel,
                        parameter_type: UcNetParameterType::Pan,
                        value: UcNetParameterValue::Float(pan_value),
                    },
                )
            },
            UcNetParameterType::Mute => None,
        }
    }

    /// Translates a Control Change across the table. A 14-bit mapping's MSB
    /// controller byte is buffered and produces no results; its LSB
    /// controller byte combines with the buffered MSB into one result.
    fn translate_cc(&mut self, channel: u8, controller: u8, value: u8) -> (r: Vec<MappingResult>)
        ensures
            results_view(r@) == spec_cc_results(
                old(self).mappings_view(),
                old(self).cache_view(),
                channel,
                controller,
                value,
            ),
            final(self).mappings_view() == old(self).mappings_view(),
            forall|ch2: u8, cc2: u8|
                spec_msb_cached(final(self).cache_view(), ch2, cc2) == (if ch2 == channel && cc2
                    == controller && spec_caches_msb(old(self).mappings_view(), channel, controller) {
                    Some(value)
                } else {
                    spec_msb_cached(old(self).cache_view(), ch2, cc2)
                }),
    {
        let ghost ms = self.mappings@;
        let ghost cache0 = self.msb_cache@;
        let n = self.mappings.len();
        let mut results: Vec<MappingResult> = Vec::new();
        let mut cache_hit = false;
        let mut j: usize = 0;
        while j < n
            invariant
                n == self.mappings@.len(),
                self.mappings@ == ms,
                self.msb_cache@ == cache0,
                j <= n,
                cache_hit == spec_caches_msb(ms.take(j as int), channel, controller),
                results_view(results@) == spec_cc_results(
                    ms.take(j as int),
                    cache0,
                    channel,
                    controller,
                    value,
                ),
            decreases n - j,
        {
            let ghost prefix = ms.take(j as int);
            proof {
                assert(ms.take(j + 1).drop_last() =~= prefix);
                assert(ms.take(j + 1).last() == ms[j as int]);
                assert forall|i: int| 0 <= i < prefix.len() implies prefix[i] == ms[i] by {}
            }
            let ghost hit_before = cache_hit;
            let m = &self.mappings[j];
            if m.midi_channel == channel {
                if m.use_14bit {
                    if let (Some(msb_cc), Some(lsb_cc)) = (
                        m.midi_controller_msb,
                        m.midi_controller_lsb,
                    ) {
                        if controller == msb_cc {
                            cache_hit = true;
                        } else if controller == lsb_cc {
                            let msb = match self.msb_lookup(channel, msb_cc) {
                                Some(b) => b,
                                None => 0,
                            };
                            let normalized = midi_14bit_to_normalized(msb, value);
                            let ghost before = results@;
                            if let Some(res) = self.map_continuous_parameter(m, normalized) {
                                results.push(res);
                                proof {
                                    assert(results_view(results@) =~= results_view(before).push(
                                        result_view(results@.last()),
                                    ));
                                }
                            }
                        }
                    }
                } else if m.midi_controller == Some(controller) {
                    let normalized = midi_7bit_to_normalized(value);
                    let ghost before = results@;
                    if let Some(res) = self.map_continuous_parameter(m, normalized) {
                        results.push(res);
                        proof {
                            assert(results_view(results@) =~= results_view(before).push(
                                result_view(results@.last()),
                            ));
                        }
                    }
                }
            }
            proof {
                assert(cache_hit == (hit_before || spec_wants_msb(
                    ms[j as int],
                    channel,
                    controller,
                )));
                let t0 = ms.take(j as int);
                let t1 = ms.take(j + 1);
                if spec_caches_msb(t0, channel, controller) {
                    let w = choose|i: int|
                        0 <= i < t0.len() && spec_wants_msb(#[trigger] t0[i], channel, controller);
                    assert(spec_wants_msb(t1[w], channel, controller));
                }
                if spec_wants_msb(ms[j as int], channel, controller) {
                    assert(spec_wants_msb(t1[j as int], channel, controller));
                }
                if spec_caches_msb(t1, channel, controller) {
                    let w = choose|i: int|
                        0 <= i < t1.len() && spec_wants_msb(#[trigger] t1[i], channel, controller);
                    if w < j {
                        assert(spec_wants_msb(t0[w], channel, controller));
                    } else {
                        assert(spec_wants_msb(ms[j as int], channel, controller));
                    }
                }
            }
            j = j + 1;
        }
        proof {
            assert(ms.take(n as int) =~= ms);
        }
        if cache_hit {
            self.msb_store(channel, controller, value);
        }
        results
    }

    /// Translates a note event across the table: mute mappings on the
    /// matching channel and note fire with `Bool(is_on)`.
    fn translate_note(&self, channel: u8, note: u8, is_on: bool) -> (r: Vec<MappingResult>)
        ensures
            results_view(r@) == spec_note_results(self.mappings_view(), channel, note, is_on),
    {
        let ghost ms = self.mappings@;
        let n = self.mappings.len();
        let mut results: Vec<MappingResult> = Vec::new();
        let mut j: usize = 0;
        while j < n
            invariant
                n == self.mappings@.len(),
                self.mappings@ == ms,
                j <= n,
                results_view(results@) == spec_note_results(
                    ms.take(j as int),
                    channel,
                    note,
                    is_on,
                ),
            decreases n - j,
        {
            proof {
                assert(ms.take(j + 1).drop_last() =~= ms.take(j as int));
                assert(ms.take(j + 1).last() == ms[j as int]);
            }
            let m = &self.mappings[j];
            let is_mute = match m.parameter_type {
                UcNetParameterType::Mute => true,
                _ => false,
            };
            if m.midi_channel == channel && m.midi_note == Some(note) && is_mute {
                let ghost before = results@;
                results.push(
                    MappingResult {
                        device_id: m.ucnet_device_id.clone(),
                        channel: m.ucnet_channel,
                        parameter_type: UcNetParameterType::Mute,
                        value: UcNetParameterValue::Bool(is_on),
                    },
                );
                proof {
                    assert(results_view(results@) =~= results_view(before).push(
                        result_view(results@.last()),
                    ));
                }
            }
            j = j + 1;
        }
        proof {
            assert(ms.take(n as int) =~= ms);
        }
        results
    }

    /// Translates a MIDI message to UCNet parameter changes; the result is
    /// empty when no mapping matches. Control Change messages may update the
    /// MSB buffer; note messages fire mute mappings; other messages are
    /// ignored.
    pub fn translate(&mut self, message: MidiMessageType) -> (r: Vec<MappingResult>)
        ensures
            results_view(r@) == spec_translate(
                old(self).mappings_view(),
                old(self).cache_view(),
                message,
            ),
            final(self).mappings_view() == old(self).mappings_view(),
            forall|ch2: u8, cc2: u8|
                spec_msb_cached(final(self).cache_view(), ch2, cc2) == spec_cache_after(
                    old(self).mappings_view(),
                    old(self).cache_view(),
                    message,
                    ch2,
                    cc2,
                ),
    {
        match message {
            MidiMessageType::ControlChange { channel, controller, value } => self.translate_cc(
                channel,
                controller,
                value,
            ),
            MidiMessageType::NoteOn { channel, note, velocity } => self.translate_note(
                channel,
                note,
                velocity > 0,
            ),
            MidiMessageType::NoteOff { channel, note, velocity: _ } => self.translate_note(
                channel,
                note,
                false,
            ),
            _ => {
                let r = Vec::new();
                proof {
                    assert(results_view(r@) =~= Seq::<
                        (Seq<char>, u32, UcNetParameterType, UcNetParameterValue),
                    >::empty());
                }
                r
            },
        }
    }

    /// Translates a UCNet parameter change back to MIDI messages: the
    /// messages of every mapping that targets the address, in table order;
    /// empty when no mapping matches.
    pub fn reverse_translate(
        &self,
        device_id: &str,
        channel: u32,
        parameter_type: UcNetParameterType,
        value: UcNetParameterValue,
    ) -> (r: Vec<MidiMessageType>)
        ensures
            r@ == spec_reverse_results(
                self.mappings_view(),
                device_id@,
                channel,
                parameter_type,
                value,
            ),
    {
        let ghost ms = self.mappings@;
        let n = self.mappings.len();
        let mut messages: Vec<MidiMessageType> = Vec::new();
        let mut j: usize = 0;
        while j < n
            invariant
                n == self.mappings@.len(),
                self.mappings@ == ms,
                j <= n,
                messages@ == spec_reverse_results(
                    ms.take(j as int),
                    device_id@,
                    channel,
                    parameter_type,
                    value,
                ),
            decreases n - j,
        {
            proof {
                assert(ms.take(j + 1).drop_last() =~= ms.take(j as int));
                assert(ms.take(j + 1).last() == ms[j as int]);
            }
            let m = &self.mappings[j];
            let type_matches = match (m.parameter_type, parameter_type) {
                (UcNetParameterType::Volume, UcNetParameterType::Volume) => true,
                (UcNetParameterType::Mute, UcNetParameterType::Mute) => true,
                (UcNetParameterType::Pan, UcNetParameterType::Pan) => true,
                _ => false,
            };
            if str_eq(m.ucnet_device_id.as_str(), device_id) && m.ucnet_channel == channel
                && type_matches {
                let ghost before = messages@;
                match parameter_type {
                    UcNetParameterType::Volume => {
                        if let UcNetParameterValue::Float(v) = value {
                            let normalized = reverse_taper(v, m.taper_curve);
                            self.push_continuous_reverse(&mut messages, j, normalized);
                        }
                    },
                    UcNetParameterType::Pan => {
                        if let UcNetParameterValue::Float(v) = value {
                            let normalized = pan_to_normalized(v);
                            self.push_continuous_reverse(&mut messages, j, normalized);
                        }
                    },
                    UcNetParameterType::Mute => {
                        if let UcNetParameterValue::Bool(is_muted) = value {
                            if let Some(note) = m.midi_note {
                                if is_muted {
                                    messages.push(
                                        MidiMessageType::NoteOn {
                                            channel: m.midi_channel,
                                            note,
                                            velocity: 127,
                                        },
                                    );
                                } else {
                                    messages.push(
                                        MidiMessageType::NoteOff {
                                            channel: m.midi_channel,
                                            note,
                                            velocity: 0,
                                        },
                                    );
                                }
                            }
                        }
                    },
                }
                proof {
                    assert(messages@ =~= before + spec_reverse_one(
                        ms[j as int],
                        parameter_type,
                        value,
                    ));
                }
            }
            j = j + 1;
        }
        proof {
            assert(ms.take(n as int) =~= ms);
        }
        messages
    }

    /// Appends the Control Change message or MSB/LSB pair that carries a
    /// normalized position back to the mapping at index `j`.
    fn push_continuous_reverse(
        &self,
        messages: &mut Vec<MidiMessageType>,
        j: usize,
        normalized: i64,
    )
        requires
            j < self.mappings_view().len(),
        ensures
            final(messages)@ == old(messages)@ + spec_reverse_continuous(
                self.mappings_view()[j as int],
                normalized as int,
            ),
    {
        let m = &self.mappings[j];
        let ghost before = messages@;
        if m.use_14bit {
            if let (Some(msb_cc), Some(lsb_cc)) = (m.midi_controller_msb, m.midi_controller_lsb) {
                let (msb, lsb) = normalized_to_midi_14bit(normalized);
                messages.push(
                    MidiMessageType::ControlChange {
                        channel: m.midi_channel,
                        controller: msb_cc,
                        value: msb,
                    },
                );
                messages.push(
                    MidiMessageType::ControlChange {
                        channel: m.midi_channel,
                        controller: lsb_cc,
                        value: lsb,
                    },
                );
            }
        } else if let Some(controller) = m.midi_controller {
            let midi_value = normalized_to_midi_7bit(normalized);
            messages.push(
                MidiMessageType::ControlChange {
                    channel: m.midi_channel,
                    controller,
                    value: midi_value,
                },
            );
        }
        proof {
            assert(messages@ =~= before + spec_reverse_continuous(
                self.mappings@[j as int],
                normalized as int,
            ));
        }
    }
}

impl Default for ParameterMapper {
    /// An empty mapper.
    fn default() -> (r: Self)
        ensures
            r.mappings_view() == Seq::<ParameterMapping>::empty(),
            r.cache_view() == Seq::<(u8, u8, u8)>::empty(),
    {
        Self::new()
    }
}

/// A lone MSB controller byte yields no results: for every mapping, a
/// Control Change on a 14-bit mapping's MSB controller only buffers the
/// byte, so a table of 14-bit mappings whose LSB controllers all differ from
/// the byte's controller translates it to nothing.
pub proof fn lemma_msb_alone_yields_nothing(
    ms: Seq<ParameterMapping>,
    cache: Seq<(u8, u8, u8)>,
    channel: u8,
    controller: u8,
    value: u8,
)
    requires
        forall|i: int|
            0 <= i < ms.len() ==> (#[trigger] ms[i]).use_14bit && ms[i].midi_controller_lsb
                != Some(controller),
    ensures
        spec_cc_results(ms, cache, channel, controller, value) == Seq::<
            (Seq<char>, u32, UcNetParameterType, UcNetParameterValue),
        >::empty(),
    decreases ms.len(),
{
    if ms.len() > 0 {
        lemma_msb_alone_yields_nothing(ms.drop_last(), cache, channel, controller, value);
        assert(ms.last() == ms[ms.len() - 1]);
    }
}

} // verus!
