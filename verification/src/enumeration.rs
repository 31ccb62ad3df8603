//! MIDI device enumeration: the enumerator interface that backends and test
//! doubles implement, name-based manufacturer extraction, and the session
//! cache of discovered devices.

use vstd::prelude::*;
use vstd::string::StringExecFns;
use crate::device_db::{DeviceCategory, DeviceDatabase};
use crate::errors::{MidiError, MidiResult};
use crate::midi::{MidiConnectionStatus, MidiDevice, MidiDeviceType};
use crate::strutil::{
    first_word, starts_with, spec_starts_with, spec_word_end, spec_word_start, str_eq,
};
use crate::keys::spec_decimal;

verus! {

/// A source of MIDI device listings: a native backend in the surrounding
/// program, or a test double.
pub trait DeviceEnumerator {
    /// Lists the available MIDI input devices.
    fn discover_inputs(&self) -> MidiResult<Vec<MidiDevice>>;

    /// Lists the available MIDI output devices.
    fn discover_outputs(&self) -> MidiResult<Vec<MidiDevice>>;

    /// Lists all MIDI devices, inputs first.
    fn discover_all(&self) -> MidiResult<Vec<MidiDevice>> {
        let mut devices = match self.discover_inputs() {
            Ok(d) => d,
            Err(e) => {
                return Err(e);
            },
        };
        let mut outputs = match self.discover_outputs() {
            Ok(d) => d,
            Err(e) => {
                return Err(e);
            },
        };
        devices.append(&mut outputs);
        Ok(devices)
    }
}

/// The well-known manufacturer prefix of a device name, if any.
pub open spec fn spec_manufacturer_prefix(name: Seq<char>) -> Option<Seq<char>> {
    if spec_starts_with(name, "PreSonus"@) {
        Some("PreSonus"@)
    } else if spec_starts_with(name, "Behringer"@) {
        Some("Behringer"@)
    } else if spec_starts_with(name, "Novation"@) {
        Some("Novation"@)
    } else if spec_starts_with(name, "Akai"@) {
        Some("Akai"@)
    } else if spec_starts_with(name, "M-Audio"@) {
        Some("M-Audio"@)
    } else if spec_starts_with(name, "Roland"@) {
        Some("Roland"@)
    } else if spec_starts_with(name, "Yamaha"@) {
        Some("Yamaha"@)
    } else if spec_starts_with(name, "Korg"@) {
        Some("Korg"@)
    } else if spec_starts_with(name, "Arturia"@) {
        Some("Arturia"@)
    } else if spec_starts_with(name, "Native Instruments"@) {
        Some("Native Instruments"@)
    } else if spec_starts_with(name, "Focusrite"@) {
        Some("Focusrite"@)
    } else if spec_starts_with(name, "Mackie"@) {
        Some("Mackie"@)
    } else if spec_starts_with(name, "Allen & Heath"@) {
        Some("Allen & Heath"@)
    } else if spec_starts_with(name, "Moog"@) {
        Some("Moog"@)
    } else if spec_starts_with(name, "Sequential"@) {
        Some("Sequential"@)
    } else {
        None
    }
}

/// Holds the pure name logic of the native enumerator: manufacturer
/// recognition, the controllers-list filter, and id generation. The
/// surrounding program's backend lists ports and calls in here.
pub struct MidirEnumerator {
    device_db: DeviceDatabase,
}

impl MidirEnumerator {
    /// The known-device database the name logic consults.
    pub closed spec fn db(&self) -> DeviceDatabase {
        self.device_db
    }

    /// Creates the enumerator's name logic with the known-device database.
    pub fn new() -> (r: Self)
        ensures
            r.db().devices_view().len() == 8,
    {
        Self { device_db: DeviceDatabase::new() }
    }

    /// The manufacturer a device name reveals: a well-known prefix, or the
    /// name's first word.
    pub fn extract_manufacturer(name: &str) -> (r: Option<String>)
        ensures
            match spec_manufacturer_prefix(name@) {
                Some(m) => r matches Some(s) && s@ == m,
                None => {
                    let start = spec_word_start(name@, 0);
                    let end = spec_word_end(name@, start);
                    match r {
                        Some(w) => start < name@.len() && w@ == name@.subrange(start, end),
                        None => start >= name@.len(),
                    }
                },
            },
    {
        if starts_with(name, "PreSonus") {
            Some(String::from_str("PreSonus"))
        } else if starts_with(name, "Behringer") {
            Some(String::from_str("Behringer"))
        } else if starts_with(name, "Novation") {
            Some(String::from_str("Novation"))
        } else if starts_with(name, "Akai") {
            Some(String::from_str("Akai"))
        } else if starts_with(name, "M-Audio") {
            Some(String::from_str("M-Audio"))
        } else if starts_with(name, "Roland") {
            Some(String::from_str("Roland"))
        } else if starts_with(name, "Yamaha") {
            Some(String::from_str("Yamaha"))
        } else if starts_with(name, "Korg") {
            Some(String::from_str("Korg"))
        } else if starts_with(name, "Arturia") {
            Some(String::from_str("Arturia"))
        } else if starts_with(name, "Native Instruments") {
            Some(String::from_str("Native Instruments"))
        } else if starts_with(name, "Focusrite") {
            Some(String::from_str("Focusrite"))
        } else if starts_with(name, "Mackie") {
            Some(String::from_str("Mackie"))
        } else if starts_with(name, "Allen & Heath") {
            Some(String::from_str("Allen & Heath"))
        } else if starts_with(name, "Moog") {
            Some(String::from_str("Moog"))
        } else if starts_with(name, "Sequential") {
            Some(String::from_str("Sequential"))
        } else {
            first_word(name)
        }
    }

    /// Whether a device should be kept out of the controllers list: true
    /// exactly for devices the database categorises as audio interfaces.
    pub fn should_exclude_from_controllers(&self, name: &str) -> (r: bool)
        ensures
            r == (self.db().categorize_spec(name@, None, None)
                == DeviceCategory::AudioInterface),
    {
        let category = self.device_db.categorize_device(name, None, None);
        match category {
            DeviceCategory::AudioInterface => true,
            _ => false,
        }
    }

    /// The session-stable id of a device: `{type}:{port}:{name}`.
    pub fn generate_device_id(device_type: MidiDeviceType, port: usize, name: &str) -> (r: String)
        requires
            port <= u32::MAX,
        ensures
            r@ == (match device_type {
                MidiDeviceType::Input => "Input"@,
                MidiDeviceType::Output => "Output"@,
            }) + ":"@ + spec_decimal(port as int) + ":"@ + name@,
    {
        let t = match device_type {
            MidiDeviceType::Input => "Input",
            MidiDeviceType::Output => "Output",
        };
        String::from_str(t).concat(":").concat(
            crate::keys::decimal_string(port as u32).as_str(),
        ).concat(":").concat(name)
    }
}

impl Default for MidirEnumerator {
    /// The enumerator's name logic with the known-device database.
    fn default() -> (r: Self)
        ensures
            r.db().devices_view().len() == 8,
    {
        Self::new()
    }
}

/// The device cached under an id, searching the newest binding first.
pub open spec fn spec_cache_lookup(s: Seq<MidiDevice>, id: Seq<char>) -> Option<MidiDevice>
    decreases s.len(),
{
    if s.len() == 0 {
        None
    } else if s.last().id@ == id {
        Some(s.last())
    } else {
        spec_cache_lookup(s.drop_last(), id)
    }
}

/// Discovers MIDI devices through an enumerator and caches what was found,
/// so later lookups need not touch the unreliable system port list.
pub struct MidiDeviceManager<E: DeviceEnumerator> {
    enumerator: E,
    cached_devices: Vec<MidiDevice>,
}

impl<E: DeviceEnumerator> MidiDeviceManager<E> {
    /// The cached devices, in discovery order.
    pub closed spec fn cache_view(&self) -> Seq<MidiDevice> {
        self.cached_devices@
    }

    /// Creates a manager around an enumerator, with an empty cache.
    pub fn with_enumerator(enumerator: E) -> (r: Self)
        ensures
            r.cache_view() == Seq::<MidiDevice>::empty(),
    {
        Self { enumerator, cached_devices: Vec::new() }
    }

    /// Discovers all devices through the enumerator, replaces the cache with
    /// the result, and returns it.
    pub fn discover_devices(&mut self) -> (r: MidiResult<Vec<MidiDevice>>)
        ensures
            match r {
                Ok(devices) => final(self).cache_view() == devices@,
                Err(_) => final(self).cache_view() == old(self).cache_view(),
            },
    {
        let devices = match self.enumerator.discover_all() {
            Ok(d) => d,
            Err(e) => {
                return Err(e);
            },
        };
        let mut cache: Vec<MidiDevice> = Vec::new();
        let mut i: usize = 0;
        while i < devices.len()
            invariant
                i <= devices@.len(),
                cache@ == devices@.take(i as int),
            decreases devices@.len() - i,
        {
            cache.push(devices[i].clone());
            proof {
                assert(cache@ =~= devices@.take(i + 1));
            }
            i = i + 1;
        }
        proof {
            assert(devices@.take(devices@.len() as int) =~= devices@);
        }
        self.cached_devices = cache;
        Ok(devices)
    }

    /// The cached device under an id, if any.
    pub fn get_device(&self, id: &str) -> (r: MidiResult<Option<MidiDevice>>)
        ensures
            r matches Ok(d) && d == spec_cache_lookup(self.cache_view(), id@),
    {
        let n = self.cached_devices.len();
        proof {
            assert(self.cached_devices@.take(n as int) =~= self.cached_devices@);
        }
        let mut i = n;
        while i > 0
            invariant
                i <= n,
                n == self.cached_devices@.len(),
                spec_cache_lookup(self.cached_devices@, id@) == spec_cache_lookup(
                    self.cached_devices@.take(i as int),
                    id@,
                ),
            decreases i,
        {
            proof {
                assert(self.cached_devices@.take(i as int).last()
                    == self.cached_devices@[i - 1]);
                assert(self.cached_devices@.take(i as int).drop_last()
                    =~= self.cached_devices@.take(i - 1));
            }
            if str_eq(self.cached_devices[i - 1].id.as_str(), id) {
                return Ok(Some(self.cached_devices[i - 1].clone()));
            }
            i = i - 1;
        }
        proof {
            assert(self.cached_devices@.take(0) =~= Seq::<MidiDevice>::empty());
        }
        Ok(None)
    }

    /// A copy of all cached devices.
    pub fn get_cached_devices(&self) -> (r: MidiResult<Vec<MidiDevice>>)
        ensures
            r matches Ok(devices) && devices@ == self.cache_view(),
    {
        let mut out: Vec<MidiDevice> = Vec::new();
        let mut i: usize = 0;
        while i < self.cached_devices.len()
            invariant
                i <= self.cached_devices@.len(),
                out@ == self.cached_devices@.take(i as int),
            decreases self.cached_devices@.len() - i,
        {
            out.push(self.cached_devices[i].clone());
            proof {
                assert(out@ =~= self.cached_devices@.take(i + 1));
            }
            i = i + 1;
        }
        proof {
            assert(self.cached_devices@.take(self.cached_devices@.len() as int)
                =~= self.cached_devices@);
        }
        Ok(out)
    }

    /// Sets the status of the cached device under `id`; fails when no such
    /// device is cached.
    pub fn update_device_status(&mut self, id: &str, status: MidiConnectionStatus) -> (r:
        MidiResult<()>)
        ensures
            match r {
                Ok(_) => {
                    &&& final(self).cache_view().len() == old(self).cache_view().len()
                    &&& (forall|i: int|
                        0 <= i < old(self).cache_view().len() ==> (if old(
                            self,
                        ).cache_view()[i].id@ == id@ {
                            #[trigger] final(self).cache_view()[i] == MidiDevice {
                                status,
                                ..old(self).cache_view()[i]
                            }
                        } else {
                            final(self).cache_view()[i] == old(self).cache_view()[i]
                        }))
                },
                Err(e) => {
                    &&& final(self).cache_view() == old(self).cache_view()
                    &&& spec_cache_lookup(old(self).cache_view(), id@) is None
                    &&& e matches MidiError::DeviceNotFound(_)
                },
            },
    {
        let n = self.cached_devices.len();
        let mut updated: Vec<MidiDevice> = Vec::new();
        let mut any = false;
        let mut i: usize = 0;
        while i < n
            invariant
                i <= n,
                n == self.cached_devices@.len(),
                updated@.len() == i,
                forall|k: int|
                    0 <= k < i ==> (if self.cached_devices@[k].id@ == id@ {
                        #[trigger] updated@[k] == MidiDevice {
                            status,
                            ..self.cached_devices@[k]
                        }
                    } else {
                        updated@[k] == self.cached_devices@[k]
                    }),
                any == (exists|k: int| 0 <= k < i && (#[trigger] self.cached_devices@[k]).id@
                    == id@),
            decreases n - i,
        {
            let d = &self.cached_devices[i];
            if str_eq(d.id.as_str(), id) {
                let mut nd = d.clone();
                nd.status = status;
                updated.push(nd);
                any = true;
            } else {
                updated.push(d.clone());
            }
            i = i + 1;
        }
        if any {
            self.cached_devices = updated;
            Ok(())
        } else {
            proof {
                lemma_cache_lookup_none(self.cached_devices@, id@);
            }
            Err(MidiError::DeviceNotFound(id.to_owned()))
        }
    }
}

/// A lookup misses when no cached device carries the id.
proof fn lemma_cache_lookup_none(s: Seq<MidiDevice>, id: Seq<char>)
    requires
        forall|k: int| 0 <= k < s.len() ==> (#[trigger] s[k]).id@ != id,
    ensures
        spec_cache_lookup(s, id) is None,
    decreases s.len(),
{
    if s.len() > 0 {
        lemma_cache_lookup_none(s.drop_last(), id);
    }
}

} // verus!
