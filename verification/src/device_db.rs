//! The device categorisation database: known devices and name heuristics
//! that sort MIDI endpoints into control surfaces and audio interfaces.

use vstd::prelude::*;
use vstd::string::StringExecFns;
use crate::strutil::{
    contains, contains_ignore_ascii_case, spec_contains, spec_contains_lower, str_eq,
};

verus! {

/// What a device is for.
#[derive(Debug, Clone, Copy, PartialEq, Eq, Structural)]
pub enum DeviceCategory {
    /// A control surface: it belongs in the controllers list.
    Controller,
    /// An audio interface or mixer.
    AudioInterface,
    /// Both capabilities; the user should choose.
    Both,
}

/// One known device.
#[derive(Debug)]
pub struct DeviceInfo {
    /// Name or name fragment that identifies the device.
    pub name_pattern: String,
    /// Its category.
    pub category: DeviceCategory,
    /// USB vendor id, when known.
    pub vendor_id: Option<u16>,
    /// USB product id, when known.
    pub product_id: Option<u16>,
    /// Human-readable description.
    pub description: String,
}

impl Clone for DeviceInfo {
    fn clone(&self) -> (r: Self)
        ensures
            r == *self,
    {
        DeviceInfo {
            name_pattern: self.name_pattern.clone(),
            category: self.category,
            vendor_id: self.vendor_id,
            product_id: self.product_id,
            description: self.description.clone(),
        }
    }
}

/// The first entry whose pattern equals the name exactly.
pub open spec fn spec_first_exact(s: Seq<DeviceInfo>, name: Seq<char>) -> Option<int>
    decreases s.len(),
{
    if s.len() == 0 {
        None
    } else if s.first().name_pattern@ == name {
        Some(0)
    } else {
        match spec_first_exact(s.drop_first(), name) {
            Some(k) => Some(k + 1),
            None => None,
        }
    }
}

/// The first entry whose pattern occurs inside the name.
pub open spec fn spec_first_fragment(s: Seq<DeviceInfo>, name: Seq<char>) -> Option<int>
    decreases s.len(),
{
    if s.len() == 0 {
        None
    } else if spec_contains(name, s.first().name_pattern@) {
        Some(0)
    } else {
        match spec_first_fragment(s.drop_first(), name) {
            Some(k) => Some(k + 1),
            None => None,
        }
    }
}

/// The first entry carrying exactly the given USB ids.
pub open spec fn spec_first_usb(s: Seq<DeviceInfo>, vid: u16, pid: u16) -> Option<int>
    decreases s.len(),
{
    if s.len() == 0 {
        None
    } else if s.first().vendor_id == Some(vid) && s.first().product_id == Some(pid) {
        Some(0)
    } else {
        match spec_first_usb(s.drop_first(), vid, pid) {
            Some(k) => Some(k + 1),
            None => None,
        }
    }
}

/// The category the name heuristics assign: UCNet MIDI ports are
/// controllers; names of known audio interfaces and processors are
/// interfaces; names of known control surfaces are controllers; a PreSonus
/// device naming Control or MIDI is a controller; anything else counts as an
/// audio interface, keeping unknown devices out of the controllers list.
pub open spec fn spec_heuristic_category(name: Seq<char>) -> DeviceCategory {
    if spec_contains(name, "UCNET MIDI"@) || spec_contains(name, "UCNet MIDI"@) {
        DeviceCategory::Controller
    } else if spec_matches_audio_pattern(name) {
        DeviceCategory::AudioInterface
    } else if spec_matches_controller_pattern(name) {
        DeviceCategory::Controller
    } else if spec_contains(name, "PreSonus"@) && (spec_contains(name, "Control"@)
        || spec_contains(name, "MIDI"@)) {
        DeviceCategory::Controller
    } else {
        DeviceCategory::AudioInterface
    }
}

/// Whether the name matches a known audio interface or processor, with ASCII
/// case folded.
pub open spec fn spec_matches_audio_pattern(name: Seq<char>) -> bool {
    ||| spec_contains_lower(name, "quantum"@)
    ||| spec_contains_lower(name, "studiolive"@)
    ||| spec_contains_lower(name, "audiobox"@)
    ||| spec_contains_lower(name, "studio 68"@)
    ||| spec_contains_lower(name, "studio 192"@)
    ||| spec_contains_lower(name, "scarlett"@)
    ||| spec_contains_lower(name, "clarett"@)
    ||| spec_contains_lower(name, "saffire"@)
    ||| spec_contains_lower(name, "liquid"@)
    ||| spec_contains_lower(name, "motu"@)
    ||| spec_contains_lower(name, "ultralite"@)
    ||| spec_contains_lower(name, "traveler"@)
    ||| spec_contains_lower(name, "828"@)
    ||| spec_contains_lower(name, "apollo"@)
    ||| spec_contains_lower(name, "twin"@)
    ||| spec_contains_lower(name, "duo"@)
    ||| spec_contains_lower(name, "quad"@)
    ||| spec_contains_lower(name, "tone master"@)
    ||| spec_contains_lower(name, "axe-fx"@)
    ||| spec_contains_lower(name, "helix"@)
    ||| spec_contains_lower(name, "kemper"@)
    ||| spec_contains_lower(name, "quad cortex"@)
    ||| spec_contains_lower(name, "audio interface"@)
    ||| spec_contains_lower(name, "sound card"@)
}

/// Whether the name matches a known control surface, with ASCII case folded.
pub open spec fn spec_matches_controller_pattern(name: Seq<char>) -> bool {
    ||| spec_contains_lower(name, "faderport"@)
    ||| spec_contains_lower(name, "x-touch"@)
    ||| spec_contains_lower(name, "bcf"@)
    ||| spec_contains_lower(name, "bcr"@)
    ||| spec_contains_lower(name, "launchpad"@)
    ||| spec_contains_lower(name, "push"@)
    ||| spec_contains_lower(name, "maschine"@)
    ||| spec_contains_lower(name, "apc"@)
    ||| spec_contains_lower(name, "keylab"@)
    ||| spec_contains_lower(name, "sl mk"@)
    ||| spec_contains_lower(name, "impulse"@)
    ||| spec_contains_lower(name, "control"@)
    ||| spec_contains_lower(name, "surface"@)
    ||| spec_contains_lower(name, "controller"@)
}

/// The database of known devices.
pub struct DeviceDatabase {
    devices: Vec<DeviceInfo>,
}

impl DeviceDatabase {
    /// The known devices, in precedence order.
    pub closed spec fn devices_view(&self) -> Seq<DeviceInfo> {
        self.devices@
    }

    /// Creates the database of known PreSonus and related devices.
    pub fn new() -> (r: Self)
        ensures
            r.devices_view().len() == 8,
    {
        let mut devices: Vec<DeviceInfo> = Vec::new();
        devices.push(
            DeviceInfo {
                name_pattern: String::from_str("PreSonus FP2"),
                category: DeviceCategory::Controller,
                vendor_id: Some(0x194F),
                product_id: Some(0x1800),
                description: String::from_str("FaderPort v2 control surface"),
            },
        );
        devices.push(
            DeviceInfo {
                name_pattern: String::from_str("PreSonus FP8"),
                category: DeviceCategory::Controller,
                vendor_id: Some(0x194F),
                product_id: Some(0x1810),
                description: String::from_str("FaderPort 8 control surface"),
            },
        );
        devices.push(
            DeviceInfo {
                name_pattern: String::from_str("PreSonus FP16"),
                category: DeviceCategory::Controller,
                vendor_id: Some(0x194F),
                product_id: Some(0x1820),
                description: String::from_str("FaderPort 16 control surface"),
            },
        );
        devices.push(
            DeviceInfo {
                name_pattern: String::from_str("Quantum HD 2"),
                category: DeviceCategory::AudioInterface,
                vendor_id: Some(0x194F),
                product_id: Some(0x8187),
                description: String::from_str("Quantum HD 2 audio interface"),
            },
        );
        devices.push(
            DeviceInfo {
                name_pattern: String::from_str("Quantum HD 4"),
                category: DeviceCategory::AudioInterface,
                vendor_id: Some(0x194F),
                product_id: Some(0x8186),
                description: String::from_str("Quantum HD 4 audio interface"),
            },
        );
        devices.push(
            DeviceInfo {
                name_pattern: String::from_str("Quantum HD 8"),
                category: DeviceCategory::AudioInterface,
                vendor_id: Some(0x194F),
                product_id: Some(0x8188),
                description: String::from_str("Quantum HD 8 audio interface"),
            },
        );
        devices.push(
            DeviceInfo {
                name_pattern: String::from_str("UCNET MIDI StudioLive"),
                category: DeviceCategory::Controller,
                vendor_id: Some(0x194F),
                product_id: None,
                description: String::from_str("StudioLive Series III network MIDI control"),
            },
        );
        devices.push(
            DeviceInfo {
                name_pattern: String::from_str("Tone Master Pro"),
                category: DeviceCategory::AudioInterface,
                vendor_id: None,
                product_id: None,
                description: String::from_str("Tone Master Pro audio interface"),
            },
        );
        Self { devices }
    }

    /// Looks a device up by name: an exact pattern match wins, then the
    /// first entry whose pattern occurs inside the name.
    pub fn lookup_by_name(&self, name: &str) -> (r: Option<&DeviceInfo>)
        ensures
            match r {
                Some(info) => match spec_first_exact(self.devices_view(), name@) {
                    Some(k) => *info == self.devices_view()[k],
                    None => match spec_first_fragment(self.devices_view(), name@) {
                        Some(k) => *info == self.devices_view()[k],
                        None => false,
                    },
                },
                None => spec_first_exact(self.devices_view(), name@) is None
                    && spec_first_fragment(self.devices_view(), name@) is None,
            },
    {
        let n = self.devices.len();
        proof {
            assert(self.devices@.skip(0) =~= self.devices@);
        }
        let mut i: usize = 0;
        while i < n
            invariant
                i <= n,
                n == self.devices@.len(),
                spec_first_exact(self.devices@, name@) == (match spec_first_exact(
                    self.devices@.skip(i as int),
                    name@,
                ) {
                    Some(k) => Some(k + i),
                    None => None::<int>,
                }),
            decreases n - i,
        {
            proof {
                assert(self.devices@.skip(i as int).first() == self.devices@[i as int]);
                assert(self.devices@.skip(i as int).drop_first() =~= self.devices@.skip(i + 1));
            }
            if str_eq(name, self.devices[i].name_pattern.as_str()) {
                return Some(&self.devices[i]);
            }
            i = i + 1;
        }
        proof {
            assert(self.devices@.skip(n as int) =~= Seq::<DeviceInfo>::empty());
        }
        let mut j: usize = 0;
        proof {
            assert(self.devices@.skip(0) =~= self.devices@);
        }
        while j < n
            invariant
                j <= n,
                n == self.devices@.len(),
                spec_first_exact(self.devices@, name@) is None,
                spec_first_fragment(self.devices@, name@) == (match spec_first_fragment(
                    self.devices@.skip(j as int),
                    name@,
                ) {
                    Some(k) => Some(k + j),
                    None => None::<int>,
                }),
            decreases n - j,
        {
            proof {
                assert(self.devices@.skip(j as int).first() == self.devices@[j as int]);
                assert(self.devices@.skip(j as int).drop_first() =~= self.devices@.skip(j + 1));
            }
            if contains(name, self.devices[j].name_pattern.as_str()) {
                return Some(&self.devices[j]);
            }
            j = j + 1;
        }
        proof {
            assert(self.devices@.skip(n as int) =~= Seq::<DeviceInfo>::empty());
        }
        None
    }

    /// Looks a device up by its USB vendor and product ids.
    pub fn lookup_by_usb_id(&self, vendor_id: u16, product_id: u16) -> (r: Option<&DeviceInfo>)
        ensures
            match r {
                Some(info) => match spec_first_usb(self.devices_view(), vendor_id, product_id) {
                    Some(k) => *info == self.devices_view()[k],
                    None => false,
                },
                None => spec_first_usb(self.devices_view(), vendor_id, product_id) is None,
            },
    {
        let n = self.devices.len();
        proof {
            assert(self.devices@.skip(0) =~= self.devices@);
        }
        let mut i: usize = 0;
        while i < n
            invariant
                i <= n,
                n == self.devices@.len(),
                spec_first_usb(self.devices@, vendor_id, product_id) == (match spec_first_usb(
                    self.devices@.skip(i as int),
                    vendor_id,
                    product_id,
                ) {
                    Some(k) => Some(k + i),
                    None => None::<int>,
                }),
            decreases n - i,
        {
            proof {
                assert(self.devices@.skip(i as int).first() == self.devices@[i as int]);
                assert(self.devices@.skip(i as int).drop_first() =~= self.devices@.skip(i + 1));
            }
            let d = &self.devices[i];
            if d.vendor_id == Some(vendor_id) && d.product_id == Some(product_id) {
                return Some(&self.devices[i]);
            }
            i = i + 1;
        }
        proof {
            assert(self.devices@.skip(n as int) =~= Seq::<DeviceInfo>::empty());
        }
        None
    }

    /// What categorisation yields: the database rules by USB ids first,
    /// then by name, then the name heuristics decide.
    pub open spec fn categorize_spec(
        &self,
        name: Seq<char>,
        vendor_id: Option<u16>,
        product_id: Option<u16>,
    ) -> DeviceCategory {
        let by_usb = match (vendor_id, product_id) {
            (Some(v), Some(p)) => spec_first_usb(self.devices_view(), v, p),
            _ => None,
        };
        match by_usb {
            Some(k) => self.devices_view()[k].category,
            None => match spec_first_exact(self.devices_view(), name) {
                Some(k) => self.devices_view()[k].category,
                None => match spec_first_fragment(self.devices_view(), name) {
                    Some(k) => self.devices_view()[k].category,
                    None => spec_heuristic_category(name),
                },
            },
        }
    }

    /// Categorises a device: the database rules by USB ids first, then by
    /// name, then the name heuristics decide.
    pub fn categorize_device(&self, name: &str, vendor_id: Option<u16>, product_id: Option<u16>)
        -> (r: DeviceCategory)
        ensures
            r == self.categorize_spec(name@, vendor_id, product_id),
    {
        if let (Some(vid), Some(pid)) = (vendor_id, product_id) {
            if let Some(info) = self.lookup_by_usb_id(vid, pid) {
                return info.category;
            }
        }
        if let Some(info) = self.lookup_by_name(name) {
            return info.category;
        }
        self.categorize_by_heuristics(name)
    }

    /// Categorises a device by its name alone.
    pub fn categorize_by_heuristics(&self, name: &str) -> (r: DeviceCategory)
        ensures
            r == spec_heuristic_category(name@),
    {
        if contains(name, "UCNET MIDI") || contains(name, "UCNet MIDI") {
            return DeviceCategory::Controller;
        }
        let audio = contains_ignore_ascii_case(name, "quantum") || contains_ignore_ascii_case(
            name,
            "studiolive",
        ) || contains_ignore_ascii_case(name, "audiobox") || contains_ignore_ascii_case(
            name,
            "studio 68",
        ) || contains_ignore_ascii_case(name, "studio 192") || contains_ignore_ascii_case(
            name,
            "scarlett",
        ) || contains_ignore_ascii_case(name, "clarett") || contains_ignore_ascii_case(
            name,
            "saffire",
        ) || contains_ignore_ascii_case(name, "liquid") || contains_ignore_ascii_case(
            name,
            "motu",
        ) || contains_ignore_ascii_case(name, "ultralite") || contains_ignore_ascii_case(
            name,
            "traveler",
        ) || contains_ignore_ascii_case(name, "828") || contains_ignore_ascii_case(
            name,
            "apollo",
        ) || contains_ignore_ascii_case(name, "twin") || contains_ignore_ascii_case(name, "duo")
            || contains_ignore_ascii_case(name, "quad") || contains_ignore_ascii_case(
            name,
            "tone master",
        ) || contains_ignore_ascii_case(name, "axe-fx") || contains_ignore_ascii_case(
            name,
            "helix",
        ) || contains_ignore_ascii_case(name, "kemper") || contains_ignore_ascii_case(
            name,
            "quad cortex",
        ) || contains_ignore_ascii_case(name, "audio interface") || contains_ignore_ascii_case(
            name,
            "sound card",
        );
        if audio {
            return DeviceCategory::AudioInterface;
        }
        let controller = contains_ignore_ascii_case(name, "faderport")
            || contains_ignore_ascii_case(name, "x-touch") || contains_ignore_ascii_case(
            name,
            "bcf",
        ) || contains_ignore_ascii_case(name, "bcr") || contains_ignore_ascii_case(
            name,
            "launchpad",
        ) || contains_ignore_ascii_case(name, "push") || contains_ignore_ascii_case(
            name,
            "maschine",
        ) || contains_ignore_ascii_case(name, "apc") || contains_ignore_ascii_case(
            name,
            "keylab",
        ) || contains_ignore_ascii_case(name, "sl mk") || contains_ignore_ascii_case(
            name,
            "impulse",
        ) || contains_ignore_ascii_case(name, "control") || contains_ignore_ascii_case(
            name,
            "surface",
        ) || contains_ignore_ascii_case(name, "controller");
        if controller {
            return DeviceCategory::Controller;
        }
        if contains(name, "PreSonus") && (contains(name, "Control") || contains(name, "MIDI")) {
            return DeviceCategory::Controller;
        }
        DeviceCategory::AudioInterface
    }
}

impl Default for DeviceDatabase {
    /// The database of known devices.
    fn default() -> (r: Self)
        ensures
            r.devices_view().len() == 8,
    {
        Self::new()
    }
}

} // verus!
