//! Studio's view of the published configurations and of the flash image it
//! builds: firmware, metadata and ROM images at fixed offsets.

use vstd::prelude::*;

use crate::builder::FIRMWARE_SIZE;
use crate::meta::MAX_METADATA_LEN;
use crate::net::FirmwareVersion;
use crate::sdrr_types::McuVariant;
use crate::text::{
    chars_of, dec, join, join_strings, lex_sorted, push_decimal, push_str, sort_strings, str_eq,
    string_from_chars, views,
};

verus! {

/// Host the configurations are published on.
pub const CONFIG_SITE_BASE: &'static str = "images.onerom.org";

/// Name of the configuration manifest on the image site.
pub const CONFIG_MANIFEST: &'static str = "configs.json";

/// What follows the last `c` in `s` (all of `s` when there is none).
pub open spec fn after_last(s: Seq<char>, c: char) -> Seq<char>
    decreases s.len(),
{
    if s.len() == 0 {
        s
    } else if s.last() == c {
        Seq::empty()
    } else {
        after_last(s.drop_last(), c).push(s.last())
    }
}

/// What comes before the first `c` in `s` (all of `s` when there is none).
pub open spec fn before_first(s: Seq<char>, c: char) -> Seq<char>
    decreases s.len(),
{
    if s.len() == 0 {
        s
    } else if s[0] == c {
        Seq::empty()
    } else {
        seq![s[0]] + before_first(s.drop_first(), c)
    }
}

/// The name of a configuration file: after the last `/`, up to the first `.`.
pub open spec fn file_stem(path: Seq<char>) -> Seq<char> {
    before_first(after_last(path, '/'), '.')
}

proof fn lemma_before_first(s: Seq<char>, c: char, i: int)
    requires
        0 <= i <= s.len(),
        forall|j: int| 0 <= j < i ==> s[j] != c,
        i == s.len() || s[i] == c,
    ensures
        before_first(s, c) == s.take(i),
    decreases i,
{
    if i == 0 {
        assert(s.take(0) =~= Seq::<char>::empty());
    } else {
        lemma_before_first(s.drop_first(), c, i - 1);
        assert(s.take(i) =~= seq![s[0]] + s.drop_first().take(i - 1));
    }
}

fn after_last_of(s: &Vec<char>, c: char) -> (r: Vec<char>)
    ensures
        r@ == after_last(s@, c),
{
    let mut cur: Vec<char> = Vec::new();
    let mut i: usize = 0;
    while i < s.len()
        invariant
            i <= s.len(),
            cur@ == after_last(s@.take(i as int), c),
        decreases s.len() - i,
    {
        assert(s@.take(i + 1).drop_last() =~= s@.take(i as int));
        if s[i] == c {
            cur = Vec::new();
        } else {
            cur.push(s[i]);
        }
        i += 1;
    }
    assert(s@.take(s.len() as int) =~= s@);
    cur
}

fn before_first_of(s: &Vec<char>, c: char) -> (r: Vec<char>)
    ensures
        r@ == before_first(s@, c),
{
    let mut i: usize = 0;
    while i < s.len() && s[i] != c
        invariant
            i <= s.len(),
            forall|j: int| 0 <= j < i ==> s@[j] != c,
        decreases s.len() - i,
    {
        i += 1;
    }
    proof {
        lemma_before_first(s@, c, i as int);
    }
    let mut r: Vec<char> = Vec::new();
    let mut k: usize = 0;
    while k < i
        invariant
            k <= i <= s.len(),
            r@ == s@.take(k as int),
        decreases i - k,
    {
        r.push(s[k]);
        assert(s@.take(k + 1) =~= s@.take(k as int).push(s@[k as int]));
        k += 1;
    }
    r
}

/// The name of a configuration file: after the last `/`, up to the first `.`.
pub fn config_name(path: &str) -> (r: String)
    ensures
        r@ == file_stem(path@),
{
    let chars = chars_of(path);
    let tail = after_last_of(&chars, '/');
    let stem = before_first_of(&tail, '.');
    string_from_chars(stem.as_slice())
}

/// The names of the configuration files.
pub open spec fn stems(configs: Seq<String>) -> Seq<Seq<char>> {
    configs.map_values(|c: String| file_stem(c@))
}

/// The first configuration file whose name is `name`.
pub open spec fn first_named(configs: Seq<String>, name: Seq<char>) -> Option<int> {
    if exists|i: int| 0 <= i < configs.len() && file_stem(configs[i]@) == name {
        Some(
            choose|i: int|
                0 <= i < configs.len() && file_stem(configs[i]@) == name && forall|j: int|
                    0 <= j < i ==> file_stem(configs[j]@) != name,
        )
    } else {
        None
    }
}

/// The configuration manifest: the configuration files published, and
/// their names sorted for display.
#[derive(Debug, Clone)]
pub struct Configs {
    pub version: usize,
    pub configs: Vec<String>,
    pub names: Option<Vec<String>>,
}

impl Configs {
    /// A manifest of the given version and configuration files, with their
    /// names (each file's name after the last `/`, up to the first `.`)
    /// sorted in lexicographic order.
    pub fn new(version: usize, configs: Vec<String>) -> (r: Self)
        ensures
            r.version == version,
            r.configs@ == configs@,
            r.names matches Some(n) && lex_sorted(views(n@)) && views(n@).to_multiset()
                == stems(configs@).to_multiset(),
    {
        let mut names: Vec<String> = Vec::new();
        let mut i: usize = 0;
        while i < configs.len()
            invariant
                i <= configs@.len(),
                names@.len() == i,
                views(names@) == stems(configs@.take(i as int)),
            decreases configs@.len() - i,
        {
            let n = config_name(configs[i].as_str());
            let ghost before = names@;
            names.push(n);
            proof {
                assert forall|k: int| 0 <= k < names@.len() implies views(names@)[k] == stems(
                    configs@.take(i + 1),
                )[k] by {
                    if k < i {
                        assert(names@[k] == before[k]);
                        assert(views(before)[k] == stems(configs@.take(i as int))[k]);
                    }
                }
                assert(views(names@) =~= stems(configs@.take(i + 1)));
            }
            i += 1;
        }
        assert(configs@.take(configs@.len() as int) =~= configs@);
        let sorted = sort_strings(names);
        Configs { version, configs, names: Some(sorted) }
    }

    /// The sorted names of the configurations.
    pub fn names(&self) -> (r: &Vec<String>)
        requires
            self.names is Some,
        ensures
            *r == self.names->Some_0,
    {
        match &self.names {
            Some(n) => n,
            None => {
                proof {
                    assert(false);
                }
                &self.configs
            },
        }
    }

    /// The sorted names of the configurations, joined with `", "`.
    pub fn names_str(&self) -> (r: String)
        requires
            self.names is Some,
        ensures
            r@ == join(views(self.names->Some_0@), ", "@),
    {
        join_strings(self.names(), ", ")
    }

    /// The path of the first configuration file named `name`.
    pub fn path(&self, name: &str) -> (r: Option<String>)
        ensures
            match first_named(self.configs@, name@) {
                Some(i) => r matches Some(p) && p@ == self.configs@[i]@,
                None => r is None,
            },
    {
        let mut i: usize = 0;
        while i < self.configs.len()
            invariant
                i <= self.configs@.len(),
                forall|j: int| 0 <= j < i ==> file_stem(self.configs@[j]@) != name@,
            decreases self.configs@.len() - i,
        {
            let stem = config_name(self.configs[i].as_str());
            if str_eq(stem.as_str(), name) {
                proof {
                    let k = first_named(self.configs@, name@).unwrap();
                    assert(!(k < i) && !(i < k));
                }
                return Some(self.configs[i].clone());
            }
            i += 1;
        }
        None
    }

    /// The URL of the first configuration file named `name`.
    pub fn config_url(&self, name: &str) -> (r: Option<String>)
        ensures
            match first_named(self.configs@, name@) {
                Some(i) => r matches Some(u) && u@ == "https://"@ + CONFIG_SITE_BASE@ + "/"@
                    + self.configs@[i]@,
                None => r is None,
            },
    {
        let path = match self.path(name) {
            Some(p) => p,
            None => {
                return None;
            },
        };
        let mut s = String::from_str("https://");
        push_str(&mut s, CONFIG_SITE_BASE);
        push_str(&mut s, "/");
        push_str(&mut s, path.as_str());
        Some(s)
    }

    /// `"Configs(<number of configuration files>)"`.
    pub fn to_string(&self) -> (r: String)
        ensures
            r@ == "Configs("@ + dec(self.configs@.len()) + ")"@,
    {
        let mut s = String::from_str("Configs(");
        push_decimal(&mut s, self.configs.len() as u64);
        push_str(&mut s, ")");
        s
    }

    /// URL of the configuration manifest.
    pub fn manifest_url() -> (r: String)
        ensures
            r@ == "https://"@ + CONFIG_SITE_BASE@ + "/"@ + CONFIG_MANIFEST@,
    {
        let mut s = String::from_str("https://");
        push_str(&mut s, CONFIG_SITE_BASE);
        push_str(&mut s, "/");
        push_str(&mut s, CONFIG_MANIFEST);
        s
    }
}

/// Byte that fills the unused flash of the firmware and metadata portions.
pub const PAD_FLASH_BYTE: u8 = 0xFF;

/// `data` followed by `PAD_FLASH_BYTE` up to `size` bytes.
pub open spec fn padded(data: Seq<u8>, size: nat) -> Seq<u8> {
    data + Seq::new((size - data.len()) as nat, |i: int| PAD_FLASH_BYTE)
}

/// `data` followed by `PAD_FLASH_BYTE` up to `size` bytes.
fn pad_to(data: &Vec<u8>, size: usize) -> (r: Vec<u8>)
    requires
        data@.len() <= size,
    ensures
        r@ == padded(data@, size as nat),
{
    let mut r: Vec<u8> = Vec::new();
    let mut i: usize = 0;
    while i < size
        invariant
            i <= size,
            data@.len() <= size,
            r@ == padded(data@, size as nat).take(i as int),
        decreases size - i,
    {
        let b = if i < data.len() {
            data[i]
        } else {
            PAD_FLASH_BYTE
        };
        r.push(b);
        assert(r@ =~= padded(data@, size as nat).take(i + 1));
        i += 1;
    }
    assert(r@ =~= padded(data@, size as nat));
    r
}

fn append_bytes(dst: &mut Vec<u8>, src: &Vec<u8>)
    ensures
        final(dst)@ == old(dst)@ + src@,
{
    let ghost start = dst@;
    let mut i: usize = 0;
    while i < src.len()
        invariant
            i <= src@.len(),
            dst@ == start + src@.take(i as int),
        decreases src@.len() - i,
    {
        dst.push(src[i]);
        assert(dst@ =~= start + src@.take(i + 1));
        i += 1;
    }
    assert(src@.take(src@.len() as int) =~= src@);
}

/// The images Studio builds: firmware, metadata and ROM images, each held
/// without padding.
#[derive(Debug, Clone)]
pub struct Images {
    firmware: Vec<u8>,
    metadata: Vec<u8>,
    roms: Vec<u8>,
}

impl Images {
    /// Images from the firmware, metadata and ROM image bytes.
    pub fn new(firmware: Vec<u8>, metadata: Vec<u8>, roms: Vec<u8>) -> (r: Self)
        ensures
            r.spec_firmware() == firmware@,
            r.spec_metadata() == metadata@,
            r.spec_roms() == roms@,
    {
        Images { firmware, metadata, roms }
    }

    pub closed spec fn spec_firmware(self) -> Seq<u8> {
        self.firmware@
    }

    pub closed spec fn spec_metadata(self) -> Seq<u8> {
        self.metadata@
    }

    pub closed spec fn spec_roms(self) -> Seq<u8> {
        self.roms@
    }

    /// Whether the firmware and the metadata fit their portions of flash.
    pub open spec fn fits(self) -> bool {
        self.spec_firmware().len() <= FIRMWARE_SIZE && self.spec_metadata().len()
            <= MAX_METADATA_LEN
    }

    /// The full image as flashed: firmware and metadata each padded to its
    /// portion, then the ROM images.
    pub open spec fn spec_full_image(self) -> Seq<u8> {
        padded(self.spec_firmware(), FIRMWARE_SIZE as nat) + padded(
            self.spec_metadata(),
            MAX_METADATA_LEN as nat,
        ) + self.spec_roms()
    }

    /// The firmware, without padding.
    pub fn firmware_skinny(&self) -> (r: &[u8])
        ensures
            r@ == self.spec_firmware(),
    {
        self.firmware.as_slice()
    }

    /// Length of the firmware.
    pub fn firmware_len(&self) -> (r: usize)
        ensures
            r == self.spec_firmware().len(),
    {
        self.firmware.len()
    }

    /// Size of the firmware portion of flash (48KB).
    pub fn max_firmware_len() -> (r: usize)
        ensures
            r == FIRMWARE_SIZE,
    {
        FIRMWARE_SIZE
    }

    /// Offset of the firmware from the start of flash.
    pub fn firmware_offset() -> (r: usize)
        ensures
            r == 0,
    {
        0
    }

    /// The firmware padded with 0xFF to its full portion.
    pub fn firmware_full(&self) -> (r: Vec<u8>)
        requires
            self.spec_firmware().len() <= FIRMWARE_SIZE,
        ensures
            r@ == padded(self.spec_firmware(), FIRMWARE_SIZE as nat),
    {
        pad_to(&self.firmware, FIRMWARE_SIZE)
    }

    /// The metadata, without padding.
    pub fn metadata_skinny(&self) -> (r: &[u8])
        ensures
            r@ == self.spec_metadata(),
    {
        self.metadata.as_slice()
    }

    /// Length of the metadata.
    pub fn metadata_len(&self) -> (r: usize)
        ensures
            r == self.spec_metadata().len(),
    {
        self.metadata.len()
    }

    /// Size of the metadata portion of flash (16KB).
    pub fn max_metadata_len() -> (r: usize)
        ensures
            r == MAX_METADATA_LEN,
    {
        MAX_METADATA_LEN
    }

    /// Offset of the metadata from the start of flash.
    pub fn metadata_offset() -> (r: usize)
        ensures
            r == FIRMWARE_SIZE,
    {
        FIRMWARE_SIZE
    }

    /// The metadata padded with 0xFF to its full portion.
    pub fn metadata_full(&self) -> (r: Vec<u8>)
        requires
            self.spec_metadata().len() <= MAX_METADATA_LEN,
        ensures
            r@ == padded(self.spec_metadata(), MAX_METADATA_LEN as nat),
    {
        pad_to(&self.metadata, MAX_METADATA_LEN)
    }

    /// The ROM images.
    pub fn roms(&self) -> (r: &[u8])
        ensures
            r@ == self.spec_roms(),
    {
        self.roms.as_slice()
    }

    /// Length of the ROM images.
    pub fn roms_len(&self) -> (r: usize)
        ensures
            r == self.spec_roms().len(),
    {
        self.roms.len()
    }

    /// Offset of the ROM images from the start of flash: the firmware and
    /// metadata portions together.
    pub open spec fn spec_roms_offset() -> nat {
        (FIRMWARE_SIZE + MAX_METADATA_LEN) as nat
    }

    /// Size of the full image: the ROM images' offset plus their length.
    pub open spec fn spec_full_image_len(self) -> nat {
        Self::spec_roms_offset() + self.spec_roms().len()
    }

    /// Offset of the ROM images from the start of flash.
    pub fn roms_offset() -> (r: usize)
        ensures
            r == Self::spec_roms_offset(),
    {
        FIRMWARE_SIZE + MAX_METADATA_LEN
    }

    /// The full image as it is flashed to the device: the firmware padded
    /// to its portion, the metadata padded to its portion, then the ROM
    /// images.
    pub fn full_image(&self) -> (r: Vec<u8>)
        requires
            self.fits(),
        ensures
            r@ == self.spec_full_image(),
            r@ == padded(self.spec_firmware(), FIRMWARE_SIZE as nat) + padded(
                self.spec_metadata(),
                MAX_METADATA_LEN as nat,
            ) + self.spec_roms(),
            r@.len() == self.spec_full_image_len(),
            r@.subrange(Self::spec_roms_offset() as int, r@.len() as int) == self.spec_roms(),
    {
        proof {
            law_full_image_layout(*self);
        }
        let mut image: Vec<u8> = Vec::new();
        let fw = self.firmware_full();
        append_bytes(&mut image, &fw);
        let md = self.metadata_full();
        append_bytes(&mut image, &md);
        append_bytes(&mut image, &self.roms);
        assert(image@ =~= self.spec_full_image());
        image
    }

    /// `"Images(<firmware>/<metadata>/<ROMs>"`: the three lengths.
    pub fn to_string(&self) -> (r: String)
        ensures
            r@ == "Images("@ + dec(self.spec_firmware().len()) + "/"@ + dec(
                self.spec_metadata().len(),
            ) + "/"@ + dec(self.spec_roms().len()),
    {
        let mut s = String::from_str("Images(");
        push_decimal(&mut s, self.firmware.len() as u64);
        push_str(&mut s, "/");
        push_decimal(&mut s, self.metadata.len() as u64);
        push_str(&mut s, "/");
        push_decimal(&mut s, self.roms.len() as u64);
        s
    }

    /// The size of the full image as it is flashed to the device.  (A
    /// vector never holds more than `isize::MAX` bytes, so the sum fits; the
    /// bound is stated because nothing here gives that limit to the prover.)
    pub fn full_image_len(&self) -> (r: usize)
        requires
            self.spec_full_image_len() <= usize::MAX,
        ensures
            r == self.spec_full_image_len(),
            r == Self::spec_roms_offset() + self.spec_roms().len(),
    {
        Self::max_firmware_len() + Self::max_metadata_len() + self.roms_len()
    }
}

/// The tabs of the Studio window.
#[derive(Debug, Clone, Copy, PartialEq, Eq, Structural)]
pub enum StudioTab {
    Analyse,
    Create,
    Log,
}

impl Default for StudioTab {
    fn default() -> (r: Self)
        ensures
            r == StudioTab::Analyse,
    {
        StudioTab::Analyse
    }
}

impl StudioTab {
    /// The tab's name, as on its button.
    pub open spec fn spec_name(self) -> Seq<char> {
        match self {
            StudioTab::Analyse => "Analyse"@,
            StudioTab::Create => "Create"@,
            StudioTab::Log => "Log"@,
        }
    }

    /// The tab's name, as on its button.
    pub fn name(&self) -> (r: &str)
        ensures
            r@ == self.spec_name(),
    {
        match self {
            StudioTab::Analyse => "Analyse",
            StudioTab::Create => "Create",
            StudioTab::Log => "Log",
        }
    }

    /// The tab's name as a string.
    pub fn to_string(&self) -> (r: String)
        ensures
            r@ == self.spec_name(),
    {
        String::from_str(self.name())
    }
}

/// Where an image to analyse comes from.
#[derive(Debug, Clone, Copy, PartialEq, Eq, Structural)]
pub enum SourceTab {
    Device,
    File,
}

impl Default for SourceTab {
    fn default() -> (r: Self)
        ensures
            r == SourceTab::File,
    {
        SourceTab::File
    }
}

impl SourceTab {
    /// The source's name.
    pub fn to_string(&self) -> (r: String)
        ensures
            r@ == match self {
                SourceTab::Device => "Device"@,
                SourceTab::File => "File"@,
            },
    {
        match self {
            SourceTab::Device => String::from_str("Device"),
            SourceTab::File => String::from_str("File"),
        }
    }
}

/// The parts of Studio that ask the device for work.
#[derive(Debug, Clone, Copy, PartialEq, Eq, Structural)]
pub enum Client {
    Analyse,
    Create,
}

impl Client {
    /// The client's name.
    pub fn to_string(&self) -> (r: String)
        ensures
            r@ == match self {
                Client::Analyse => "Analyse"@,
                Client::Create => "Create"@,
            },
    {
        match self {
            Client::Analyse => String::from_str("Analyse"),
            Client::Create => String::from_str("Create"),
        }
    }
}

/// The device Studio works with: none, one reached through a debug probe,
/// or a USB bootloader.  Probes and USB devices are known by the ids their
/// caller gives them, and two are the same device exactly when their ids
/// are equal.
#[derive(Debug, Clone, Copy, PartialEq, Eq, Structural)]
pub enum DeviceType {
    Nothing,
    DebugProbe(u64),
    Usb(u64),
}

impl DeviceType {
    /// Whether no device is selected.
    pub fn is_none(&self) -> (r: bool)
        ensures
            r == (*self is Nothing),
    {
        match self {
            DeviceType::Nothing => true,
            _ => false,
        }
    }
}

/// What reaches the device handler: requests from the rest of Studio and
/// the outcomes of the work it started.
#[derive(Debug, Clone)]
pub enum DeviceEvent {
    /// Look for debug probes.
    DetectProbes,
    /// The debug probes now attached.
    ProbesDetected(Vec<u64>),
    /// The user picked a device.
    SelectDevice(DeviceType),
    /// The user picked a debug probe.
    SelectProbe(u64),
    /// The user picked a USB device.
    SelectUsbDevice(u64),
    /// Look for USB bootloaders.
    DetectUsbDevices,
    /// The USB bootloaders now attached.
    UsbDevicesDetected(Vec<u64>),
    /// `client` asks for firmware to be flashed.
    FlashFirmware(Client),
    /// Flashing for `client` finished, successfully or not.
    FlashFirmwareResult(Client, bool),
    /// `client` asks for the device's memory to be read.
    ReadDevice(Client),
    /// Data read for `client` came back.
    DeviceData(Client),
    /// A read for `client` failed.
    ReadFailed(Client),
}

/// What the device handler asks its caller to do next.
#[derive(Debug, Clone, Copy, PartialEq, Eq, Structural)]
pub enum DeviceAction {
    /// Nothing.
    Nothing,
    /// List the attached debug probes.
    ListProbes,
    /// List the attached USB bootloaders.
    ListUsbDevices,
    /// Flash the selected device for `client`.
    Flash(Client),
    /// List the USB bootloaders again, then hand the flash outcome to
    /// `client`.
    ReportFlash(Client, bool),
    /// Read the selected device for `client`.
    Read(Client),
    /// Hand the data read to `client`.
    ReportData(Client),
    /// Tell `client` that the read failed.
    ReportReadFailed(Client),
    /// Report a request that no client may make.
    InternalError,
}

/// The device handler's state: the device selected, the probe and USB
/// device selected, those last seen attached, and the client, if any, it is
/// working for.
#[derive(Debug, Clone)]
pub struct Device {
    selected: DeviceType,
    selected_probe: Option<u64>,
    selected_usb_device: Option<u64>,
    probes: Vec<u64>,
    usb_devices: Vec<u64>,
    operating: Option<Client>,
}

/// The device handler's state as values.
#[verifier::ext_equal]
pub struct DeviceView {
    pub selected: DeviceType,
    pub selected_probe: Option<u64>,
    pub selected_usb_device: Option<u64>,
    pub probes: Seq<u64>,
    pub usb_devices: Seq<u64>,
    pub operating: Option<Client>,
}

impl View for Device {
    type V = DeviceView;

    closed spec fn view(&self) -> DeviceView {
        DeviceView {
            selected: self.selected,
            selected_probe: self.selected_probe,
            selected_usb_device: self.selected_usb_device,
            probes: self.probes@,
            usb_devices: self.usb_devices@,
            operating: self.operating,
        }
    }
}

/// Whether `event` may reach a handler: data and read failures only ever
/// come back for reads, which only the Analyse client may start.
pub open spec fn device_event_valid(event: DeviceEvent) -> bool {
    match event {
        DeviceEvent::DeviceData(c) => c == Client::Analyse,
        DeviceEvent::ReadFailed(c) => c == Client::Analyse,
        _ => true,
    }
}

/// The selection kept after a new list of attached devices: the one
/// selected while it is still attached, and otherwise the first attached,
/// if any.
pub open spec fn spec_reselect(attached: Seq<u64>, selected: Option<u64>) -> Option<u64> {
    if selected matches Some(x) && attached.contains(x) {
        selected
    } else if attached.len() > 0 {
        Some(attached[0])
    } else {
        None
    }
}

/// Where no device is selected, the selected USB device, else the selected
/// probe, becomes the device; a selected device stays.
pub open spec fn spec_check_selected(
    selected: DeviceType,
    usb: Option<u64>,
    probe: Option<u64>,
) -> DeviceType {
    match selected {
        DeviceType::Nothing => match usb {
            Some(u) => DeviceType::Usb(u),
            None => match probe {
                Some(p) => DeviceType::DebugProbe(p),
                None => DeviceType::Nothing,
            },
        },
        _ => selected,
    }
}

/// The state after a probe list arrives: the list is kept, the probe
/// selection follows `spec_reselect`, a probe device whose probe left with
/// none to replace it is dropped, and an empty selection is filled.
pub open spec fn spec_probes_detected(d: DeviceView, probes: Seq<u64>) -> DeviceView {
    let p = spec_reselect(probes, d.selected_probe);
    let dropped = d.selected_probe is Some && p is None && d.selected is DebugProbe;
    DeviceView {
        selected: spec_check_selected(
            if dropped {
                DeviceType::Nothing
            } else {
                d.selected
            },
            d.selected_usb_device,
            p,
        ),
        selected_probe: p,
        probes,
        ..d
    }
}

/// The state after a USB device list arrives, as for probes.
pub open spec fn spec_usb_devices_detected(d: DeviceView, devices: Seq<u64>) -> DeviceView {
    let u = spec_reselect(devices, d.selected_usb_device);
    let dropped = d.selected_usb_device is Some && u is None && d.selected is Usb;
    DeviceView {
        selected: spec_check_selected(
            if dropped {
                DeviceType::Nothing
            } else {
                d.selected
            },
            u,
            d.selected_probe,
        ),
        selected_usb_device: u,
        usb_devices: devices,
        ..d
    }
}

/// One step of the device handler: from its state and an event, its next
/// state and the action to take.  Detection only starts while idle;
/// flashing and reading mark the handler busy for their client; outcomes
/// free it and go back to the client that asked; device lists and picks
/// update the selection.
pub open spec fn spec_device_step(d: DeviceView, event: DeviceEvent) -> (DeviceView, DeviceAction) {
    match event {
        DeviceEvent::DetectProbes => if d.operating is None {
            (d, DeviceAction::ListProbes)
        } else {
            (d, DeviceAction::Nothing)
        },
        DeviceEvent::ProbesDetected(v) => (spec_probes_detected(d, v@), DeviceAction::Nothing),
        DeviceEvent::SelectDevice(t) => (DeviceView { selected: t, ..d }, DeviceAction::Nothing),
        DeviceEvent::SelectProbe(p) => (
            DeviceView { selected_probe: Some(p), ..d },
            DeviceAction::Nothing,
        ),
        DeviceEvent::SelectUsbDevice(u) => (
            DeviceView { selected_usb_device: Some(u), ..d },
            DeviceAction::Nothing,
        ),
        DeviceEvent::DetectUsbDevices => if d.operating is None {
            (d, DeviceAction::ListUsbDevices)
        } else {
            (d, DeviceAction::Nothing)
        },
        DeviceEvent::UsbDevicesDetected(v) => (
            spec_usb_devices_detected(d, v@),
            DeviceAction::Nothing,
        ),
        DeviceEvent::FlashFirmware(c) => (
            DeviceView { operating: Some(c), ..d },
            DeviceAction::Flash(c),
        ),
        DeviceEvent::FlashFirmwareResult(c, ok) => (
            DeviceView { operating: None, ..d },
            DeviceAction::ReportFlash(c, ok),
        ),
        DeviceEvent::ReadDevice(c) => if c == Client::Analyse {
            (DeviceView { operating: Some(c), ..d }, DeviceAction::Read(c))
        } else {
            (d, DeviceAction::InternalError)
        },
        DeviceEvent::DeviceData(c) => (
            DeviceView { operating: None, ..d },
            DeviceAction::ReportData(c),
        ),
        DeviceEvent::ReadFailed(c) => (
            DeviceView { operating: None, ..d },
            DeviceAction::ReportReadFailed(c),
        ),
    }
}

/// The selection kept after `attached` arrives, as `spec_reselect` says.
fn reselect(attached: &Vec<u64>, selected: Option<u64>) -> (r: Option<u64>)
    ensures
        r == spec_reselect(attached@, selected),
{
    if let Some(x) = selected {
        let mut i: usize = 0;
        while i < attached.len()
            invariant
                i <= attached@.len(),
                selected == Some(x),
                forall|j: int| 0 <= j < i ==> attached@[j] != x,
            decreases attached@.len() - i,
        {
            if attached[i] == x {
                assert(attached@[i as int] == x);
                assert(attached@.contains(x));
                return Some(x);
            }
            i += 1;
        }
        assert(!attached@.contains(x));
    }
    if attached.len() > 0 {
        Some(attached[0])
    } else {
        None
    }
}

/// `spec_check_selected`.
fn check_selected(selected: DeviceType, usb: Option<u64>, probe: Option<u64>) -> (r: DeviceType)
    ensures
        r == spec_check_selected(selected, usb, probe),
{
    match selected {
        DeviceType::Nothing => match usb {
            Some(u) => DeviceType::Usb(u),
            None => match probe {
                Some(p) => DeviceType::DebugProbe(p),
                None => DeviceType::Nothing,
            },
        },
        _ => selected,
    }
}

impl Device {
    /// An idle handler with nothing selected and nothing seen attached.
    pub fn new() -> (r: Self)
        ensures
            r@ == (DeviceView {
                selected: DeviceType::Nothing,
                selected_probe: None,
                selected_usb_device: None,
                probes: Seq::empty(),
                usb_devices: Seq::empty(),
                operating: None,
            }),
    {
        Device {
            selected: DeviceType::Nothing,
            selected_probe: None,
            selected_usb_device: None,
            probes: Vec::new(),
            usb_devices: Vec::new(),
            operating: None,
        }
    }

    /// The device selected.
    pub fn selected(&self) -> (r: DeviceType)
        ensures
            r == self@.selected,
    {
        self.selected
    }

    /// Whether the handler is working for a client.
    pub fn is_busy(&self) -> (r: bool)
        ensures
            r == self@.operating is Some,
    {
        self.operating.is_some()
    }

    /// Whether the handler is free.
    pub fn is_idle(&self) -> (r: bool)
        ensures
            r == self@.operating is None,
    {
        self.operating.is_none()
    }

    fn probes_detected(&mut self, probes: Vec<u64>)
        ensures
            final(self)@ == spec_probes_detected(old(self)@, probes@),
    {
        let p = reselect(&probes, self.selected_probe);
        let dropped = self.selected_probe.is_some() && p.is_none();
        self.probes = probes;
        self.selected_probe = p;
        if dropped {
            if let DeviceType::DebugProbe(_) = self.selected {
                self.selected = DeviceType::Nothing;
            }
        }
        self.selected = check_selected(self.selected, self.selected_usb_device, self.selected_probe);
    }

    fn usb_devices_detected(&mut self, devices: Vec<u64>)
        ensures
            final(self)@ == spec_usb_devices_detected(old(self)@, devices@),
    {
        let u = reselect(&devices, self.selected_usb_device);
        let dropped = self.selected_usb_device.is_some() && u.is_none();
        self.usb_devices = devices;
        self.selected_usb_device = u;
        if dropped {
            if let DeviceType::Usb(_) = self.selected {
                self.selected = DeviceType::Nothing;
            }
        }
        self.selected = check_selected(self.selected, self.selected_usb_device, self.selected_probe);
    }

    /// Handles `event`: updates the state and returns the action to take,
    /// as `spec_device_step` says.
    pub fn update(&mut self, event: DeviceEvent) -> (r: DeviceAction)
        requires
            device_event_valid(event),
        ensures
            (final(self)@, r) == spec_device_step(old(self)@, event),
    {
        match event {
            DeviceEvent::DetectProbes => {
                if self.is_idle() {
                    DeviceAction::ListProbes
                } else {
                    DeviceAction::Nothing
                }
            },
            DeviceEvent::ProbesDetected(v) => {
                self.probes_detected(v);
                DeviceAction::Nothing
            },
            DeviceEvent::SelectDevice(t) => {
                self.selected = t;
                DeviceAction::Nothing
            },
            DeviceEvent::SelectProbe(p) => {
                self.selected_probe = Some(p);
                DeviceAction::Nothing
            },
            DeviceEvent::SelectUsbDevice(u) => {
                self.selected_usb_device = Some(u);
                DeviceAction::Nothing
            },
            DeviceEvent::DetectUsbDevices => {
                if self.is_idle() {
                    DeviceAction::ListUsbDevices
                } else {
                    DeviceAction::Nothing
                }
            },
            DeviceEvent::UsbDevicesDetected(v) => {
                self.usb_devices_detected(v);
                DeviceAction::Nothing
            },
            DeviceEvent::FlashFirmware(c) => {
                self.operating = Some(c);
                DeviceAction::Flash(c)
            },
            DeviceEvent::FlashFirmwareResult(c, ok) => {
                self.operating = None;
                DeviceAction::ReportFlash(c, ok)
            },
            DeviceEvent::ReadDevice(c) => {
                match c {
                    Client::Analyse => {
                        self.operating = Some(c);
                        DeviceAction::Read(c)
                    },
                    Client::Create => DeviceAction::InternalError,
                }
            },
            DeviceEvent::DeviceData(c) => {
                self.operating = None;
                DeviceAction::ReportData(c)
            },
            DeviceEvent::ReadFailed(c) => {
                self.operating = None;
                DeviceAction::ReportReadFailed(c)
            },
        }
    }
}

/// A busy handler starts no detection, and a flash or a read it started
/// frees it again once its outcome arrives, which goes back to the client
/// that asked; none of these touch the selection.
pub proof fn law_device_work_round_trip(d: DeviceView, c: Client, ok: bool)
    ensures
        d.operating is Some ==> spec_device_step(d, DeviceEvent::DetectProbes) == (
        d,
        DeviceAction::Nothing,
        ),
        d.operating is Some ==> spec_device_step(d, DeviceEvent::DetectUsbDevices) == (
        d,
        DeviceAction::Nothing,
        ),
        ({
            let (busy, act) = spec_device_step(d, DeviceEvent::FlashFirmware(c));
            let (done, report) = spec_device_step(busy, DeviceEvent::FlashFirmwareResult(c, ok));
            &&& busy.operating == Some(c)
            &&& act == DeviceAction::Flash(c)
            &&& report == DeviceAction::ReportFlash(c, ok)
            &&& done == DeviceView { operating: None, ..d }
        }),
        ({
            let (busy, act) = spec_device_step(d, DeviceEvent::ReadDevice(Client::Analyse));
            let (done, report) = spec_device_step(busy, DeviceEvent::DeviceData(Client::Analyse));
            let (failed, why) = spec_device_step(busy, DeviceEvent::ReadFailed(Client::Analyse));
            &&& busy.operating == Some(Client::Analyse)
            &&& act == DeviceAction::Read(Client::Analyse)
            &&& report == DeviceAction::ReportData(Client::Analyse)
            &&& done == DeviceView { operating: None, ..d }
            &&& why == DeviceAction::ReportReadFailed(Client::Analyse)
            &&& failed == DeviceView { operating: None, ..d }
        }),
{
}

/// After a list of attached devices arrives, the selected probe (or USB
/// device) is attached whenever any is: the old one if it is still there,
/// otherwise the first attached; and a device stays selected whenever a
/// USB device or probe is selected.
pub proof fn law_device_reselection(d: DeviceView, attached: Seq<u64>)
    ensures
        ({
            let n = spec_probes_detected(d, attached);
            &&& attached.len() > 0 ==> (n.selected_probe matches Some(p) && attached.contains(p))
            &&& (d.selected_probe matches Some(p) && attached.contains(p)) ==> n.selected_probe
                == d.selected_probe
            &&& attached.len() == 0 ==> n.selected_probe is None
            &&& (n.selected_probe is Some || n.selected_usb_device is Some) ==> !(n.selected is Nothing)
        }),
        ({
            let n = spec_usb_devices_detected(d, attached);
            &&& attached.len() > 0 ==> (n.selected_usb_device matches Some(u) && attached.contains(
                u,
            ))
            &&& (d.selected_usb_device matches Some(u) && attached.contains(u))
                ==> n.selected_usb_device == d.selected_usb_device
            &&& attached.len() == 0 ==> n.selected_usb_device is None
            &&& (n.selected_probe is Some || n.selected_usb_device is Some) ==> !(n.selected is Nothing)
        }),
{
    if attached.len() > 0 {
        assert(attached.contains(attached[0]));
    }
}

/// Links Studio offers.
#[derive(Debug, Clone, Copy, PartialEq, Eq, Structural)]
pub enum Link {
    OneRom,
    PiersRocks,
    Zadig,
    WinUsb,
    GitHubIssue,
    LinuxUdev,
}

impl Link {
    /// The link's URL.
    pub open spec fn spec_url(self) -> Seq<char> {
        match self {
            Link::OneRom => "https://onerom.org"@,
            Link::PiersRocks => "https://piers.rocks"@,
            Link::Zadig => "https://zadig.akeo.ie/"@,
            Link::WinUsb => "https://onerom.org/web/#windows"@,
            Link::GitHubIssue => "https://github.com/piersfinlayson/one-rom/issues"@,
            Link::LinuxUdev => "https://onerom.org/web/#linux"@,
        }
    }

    /// The link's URL.
    pub fn url(&self) -> (r: &str)
        ensures
            r@ == self.spec_url(),
    {
        match self {
            Link::OneRom => "https://onerom.org",
            Link::PiersRocks => "https://piers.rocks",
            Link::Zadig => "https://zadig.akeo.ie/",
            Link::WinUsb => "https://onerom.org/web/#windows",
            Link::GitHubIssue => "https://github.com/piersfinlayson/one-rom/issues",
            Link::LinuxUdev => "https://onerom.org/web/#linux",
        }
    }
}

/// Studio's style helpers.  The type carries no data: what it offers are
/// colours and widget builders of the GUI toolkit, which are not part of
/// this library, so the value has nothing that a contract could describe.
pub struct Style<'a> {
    _marker: std::marker::PhantomData<&'a ()>,
}

impl<'a> Style<'a> {
    /// The style helpers.
    pub fn new() -> (r: Self) {
        Style { _marker: std::marker::PhantomData }
    }
}

/// The full image is laid out as flashed: the padded firmware, then the
/// padded metadata, then the ROM images, which start at `roms_offset()`; the
/// firmware stands from offset 0, the metadata from `metadata_offset()`,
/// 0xFF fills the unused flash of the first two portions, and the image is
/// `full_image_len()` bytes long.
pub proof fn law_full_image_layout(img: Images)
    requires
        img.fits(),
    ensures
        img.spec_full_image() == padded(img.spec_firmware(), FIRMWARE_SIZE as nat) + padded(
            img.spec_metadata(),
            MAX_METADATA_LEN as nat,
        ) + img.spec_roms(),
        img.spec_full_image().len() == img.spec_full_image_len(),
        img.spec_full_image().subrange(
            Images::spec_roms_offset() as int,
            img.spec_full_image().len() as int,
        ) == img.spec_roms(),
        forall|i: int|
            0 <= i < img.spec_firmware().len() ==> #[trigger] img.spec_full_image()[i]
                == img.spec_firmware()[i],
        forall|i: int|
            img.spec_firmware().len() <= i < FIRMWARE_SIZE ==> #[trigger] img.spec_full_image()[i]
                == PAD_FLASH_BYTE,
        forall|i: int|
            0 <= i < img.spec_metadata().len() ==> #[trigger] img.spec_full_image()[FIRMWARE_SIZE + i]
                == img.spec_metadata()[i],
        forall|i: int|
            img.spec_metadata().len() <= i < MAX_METADATA_LEN ==> #[trigger] img.spec_full_image()[FIRMWARE_SIZE
                + i] == PAD_FLASH_BYTE,
        forall|i: int|
            0 <= i < img.spec_roms().len() ==> #[trigger] img.spec_full_image()[Images::spec_roms_offset()
                + i] == img.spec_roms()[i],
{
    let fw = padded(img.spec_firmware(), FIRMWARE_SIZE as nat);
    let md = padded(img.spec_metadata(), MAX_METADATA_LEN as nat);
    assert(fw.len() == FIRMWARE_SIZE);
    assert(md.len() == MAX_METADATA_LEN);
    let full = img.spec_full_image();
    assert(full == fw + md + img.spec_roms());
    assert forall|i: int| 0 <= i < img.spec_metadata().len() implies #[trigger] full[FIRMWARE_SIZE + i]
        == img.spec_metadata()[i] by {
        assert(full[FIRMWARE_SIZE + i] == md[i]);
    }
    assert forall|i: int| img.spec_metadata().len() <= i < MAX_METADATA_LEN implies #[trigger] full[FIRMWARE_SIZE
        + i] == PAD_FLASH_BYTE by {
        assert(full[FIRMWARE_SIZE + i] == md[i]);
    }
    assert(full.subrange(Images::spec_roms_offset() as int, full.len() as int) =~= img.spec_roms());
}

/// The size of the full image is the ROM images' offset plus their length:
/// 64KB more than the ROM images, whatever the firmware and metadata hold.
pub proof fn law_full_image_len(img: Images)
    ensures
        img.spec_full_image_len() == Images::spec_roms_offset() + img.spec_roms().len(),
        Images::spec_roms_offset() == 0x10000,
        Images::spec_roms_offset() == FIRMWARE_SIZE + MAX_METADATA_LEN,
{
}

/// Text shown when no firmware has been analysed.
pub const ANALYSIS_TEXT_DEFAULT: &'static str = "No firmware analysed";

/// How far the detection of an attached One ROM has got: the STM32F4
/// based "Ice" is tried first, then the RP2350 based "Fire"; a known device
/// may be read again.
#[derive(Debug, Clone, Copy, PartialEq, Eq, Structural)]
pub enum DetectState {
    Ice,
    Fire,
    Reread(McuVariant, FirmwareVersion),
    Done,
}

impl Default for DetectState {
    fn default() -> (r: Self)
        ensures
            r == DetectState::Ice,
    {
        DetectState::Ice
    }
}

impl DetectState {
    /// The state after a detection attempt fails: Ice, then Fire, then
    /// done; a re-read is done after one attempt.
    pub open spec fn spec_next(self) -> DetectState {
        match self {
            DetectState::Ice => DetectState::Fire,
            _ => DetectState::Done,
        }
    }

    /// The state after a detection attempt fails.
    pub fn next(&self) -> (r: Self)
        ensures
            r == self.spec_next(),
    {
        match self {
            DetectState::Ice => DetectState::Fire,
            DetectState::Fire => DetectState::Done,
            DetectState::Done => DetectState::Done,
            DetectState::Reread(_, _) => DetectState::Done,
        }
    }

    /// Whether detection has finished.
    pub fn is_done(&self) -> (r: bool)
        ensures
            r == (*self == DetectState::Done),
    {
        match self {
            DetectState::Done => true,
            _ => false,
        }
    }

    /// The MCU assumed while trying this state.
    pub open spec fn spec_sample_mcu(self) -> Option<McuVariant> {
        match self {
            DetectState::Ice => Some(McuVariant::F411RE),
            DetectState::Fire => Some(McuVariant::Rp2350),
            DetectState::Reread(mcu, _) => Some(mcu),
            DetectState::Done => None,
        }
    }

    /// The MCU assumed while trying this state (any STM32F4 reads the same
    /// common values, so the F411RE stands for them all).
    pub fn sample_mcu(&self) -> (r: Option<McuVariant>)
        ensures
            r == self.spec_sample_mcu(),
    {
        match self {
            DetectState::Ice => Some(McuVariant::F411RE),
            DetectState::Fire => Some(McuVariant::Rp2350),
            DetectState::Reread(mcu, _) => Some(*mcu),
            DetectState::Done => None,
        }
    }

    /// The chip id of the MCU assumed while trying this state.
    pub fn chip_id(&self) -> (r: Option<String>)
        ensures
            match self.spec_sample_mcu() {
                Some(m) => r matches Some(s) && s@ == m.spec_chip_id(),
                None => r is None,
            },
    {
        match self.sample_mcu() {
            Some(m) => Some(String::from_str(m.chip_id())),
            None => None,
        }
    }

    pub open spec fn spec_name(self) -> Seq<char> {
        match self {
            DetectState::Ice => "Ice"@,
            DetectState::Fire => "Fire"@,
            DetectState::Reread(_, _) => "Reread"@,
            DetectState::Done => "Done"@,
        }
    }

    /// The state's name.
    pub fn to_string(&self) -> (r: String)
        ensures
            r@ == self.spec_name(),
    {
        match self {
            DetectState::Ice => String::from_str("Ice"),
            DetectState::Fire => String::from_str("Fire"),
            DetectState::Reread(_, _) => String::from_str("Reread"),
            DetectState::Done => String::from_str("Done"),
        }
    }
}

/// Detection ends: two failed attempts from any state reach `Done`.
pub proof fn law_detection_terminates(s: DetectState)
    ensures
        s.spec_next().spec_next() == DetectState::Done,
        s != DetectState::Ice ==> s.spec_next() == DetectState::Done,
{
}

/// What the analysis tab is doing.
#[derive(Debug, Clone, Copy, PartialEq, Eq, Structural)]
pub enum AnalyseState {
    Idle,
    Loading,
    Detecting(DetectState),
    Flashing,
}

impl Default for AnalyseState {
    fn default() -> (r: Self)
        ensures
            r == AnalyseState::Idle,
    {
        AnalyseState::Idle
    }
}

impl AnalyseState {
    /// Whether the tab is doing something.
    pub fn is_busy(&self) -> (r: bool)
        ensures
            r == (*self != AnalyseState::Idle),
    {
        !self.is_idle()
    }

    /// Whether the tab is doing nothing.
    pub fn is_idle(&self) -> (r: bool)
        ensures
            r == (*self == AnalyseState::Idle),
    {
        match self {
            AnalyseState::Idle => true,
            _ => false,
        }
    }

    /// The text the analysis pane shows in this state.
    pub open spec fn spec_content(self) -> Seq<char> {
        match self {
            AnalyseState::Idle => ANALYSIS_TEXT_DEFAULT@,
            AnalyseState::Loading => "Loading firmware..."@,
            AnalyseState::Detecting(d) => "Trying to detect One ROM "@ + d.spec_name() + " ..."@,
            AnalyseState::Flashing => "Flashing firmware..."@,
        }
    }

    /// The text the analysis pane shows in this state.
    pub fn content(&self) -> (r: String)
        ensures
            r@ == self.spec_content(),
    {
        match self {
            AnalyseState::Idle => String::from_str(ANALYSIS_TEXT_DEFAULT),
            AnalyseState::Loading => String::from_str("Loading firmware..."),
            AnalyseState::Detecting(d) => {
                let mut s = String::from_str("Trying to detect One ROM ");
                let name = d.to_string();
                push_str(&mut s, name.as_str());
                push_str(&mut s, " ...");
                s
            },
            AnalyseState::Flashing => String::from_str("Flashing firmware..."),
        }
    }

    /// The state's name.
    pub fn to_string(&self) -> (r: String)
        ensures
            r@ == match self {
                AnalyseState::Idle => "Idle"@,
                AnalyseState::Loading => "Loading"@,
                AnalyseState::Detecting(d) => "Detecting ("@ + d.spec_name() + ")"@,
                AnalyseState::Flashing => "Flashing"@,
            },
    {
        match self {
            AnalyseState::Idle => String::from_str("Idle"),
            AnalyseState::Loading => String::from_str("Loading"),
            AnalyseState::Detecting(d) => {
                let mut s = String::from_str("Detecting (");
                let name = d.to_string();
                push_str(&mut s, name.as_str());
                push_str(&mut s, ")");
                s
            },
            AnalyseState::Flashing => String::from_str("Flashing"),
        }
    }
}

} // verus!
