//! Fixed-layout structures of the metadata written to flash after the
//! firmware: the header, and the per-set firmware overrides and serving
//! parameters.

use vstd::prelude::*;

use crate::builder::METADATA_VERSION;
use crate::net::FirmwareVersion;

verus! {

/// Byte that fills unused metadata.
pub const PAD_METADATA_BYTE: u8 = 0xFF;

/// Flash reserved for the metadata (16KB).
pub const MAX_METADATA_LEN: usize = 16384;

/// Length of the metadata header.
pub const METADATA_HEADER_LEN: usize = 256;

/// Offset in the header of the pointer to the first chip set.
pub const METADATA_CHIP_SET_OFFSET: usize = 24;

/// Length of a chip set's firmware overrides structure.
pub const CHIP_SET_FIRMWARE_OVERRIDES_METADATA_LEN: usize = 64;

/// Length of a chip set's serving parameters structure.
pub const CHIP_SET_SERVE_CONFIG_METADATA_LEN: usize = 64;

/// Why metadata could not be written.
#[derive(Debug, Clone, Copy)]
pub enum MetaError {
    /// The buffer is shorter than the structure written at `location`.
    BufferTooSmall { location: &'static str, expected: usize, actual: usize },
}

/// How the RP2350 ("Fire") serves the ROM.
#[derive(Debug, Clone, Copy, PartialEq, Eq, Structural)]
pub enum FireServeMode {
    Cpu,
    Pio,
}

/// Settings overridden for STM32F4 ("Ice") boards.
#[derive(Debug, Clone, Copy, PartialEq, Eq, Structural)]
pub struct IceConfig {
    /// Clock frequency in MHz.
    pub cpu_freq: Option<u16>,
    pub overclock: Option<bool>,
}

/// Settings overridden for RP2350 ("Fire") boards.
#[derive(Debug, Clone, Copy, PartialEq, Eq, Structural)]
pub struct FireConfig {
    /// Clock frequency in MHz.
    pub cpu_freq: Option<u16>,
    pub overclock: Option<bool>,
    /// Core voltage setting, as the firmware numbers it.
    pub vreg: Option<u8>,
    pub serve_mode: Option<FireServeMode>,
}

/// Status LED override.
#[derive(Debug, Clone, Copy, PartialEq, Eq, Structural)]
pub struct LedConfig {
    pub enabled: bool,
}

/// SWD override.
#[derive(Debug, Clone, Copy, PartialEq, Eq, Structural)]
pub struct SwdConfig {
    pub swd_enabled: bool,
}

/// Raw serving algorithm parameters.
#[derive(Debug, Clone)]
pub struct ServeAlgParams {
    pub params: Vec<u8>,
}

/// Firmware settings a chip set overrides.
#[derive(Debug, Clone)]
pub struct FirmwareConfig {
    pub ice: Option<IceConfig>,
    pub fire: Option<FireConfig>,
    pub led: Option<LedConfig>,
    pub swd: Option<SwdConfig>,
    pub serve_alg_params: Option<ServeAlgParams>,
}

/// `b`'s value when set, else 0.
pub open spec fn flag(b: bool, value: u8) -> u8 {
    if b {
        value
    } else {
        0
    }
}

/// Which overrides are present: bit 0 Ice frequency, 1 Ice overclock, 2 Fire
/// frequency, 3 Fire overclock, 4 Fire core voltage, 5 status LED, 6 SWD,
/// 7 Fire serve mode.
pub open spec fn spec_override_present(c: FirmwareConfig) -> u8 {
    (flag(c.ice matches Some(i) && i.cpu_freq is Some, 1) + flag(
        c.ice matches Some(i) && i.overclock is Some,
        2,
    ) + flag(c.fire matches Some(f) && f.cpu_freq is Some, 4) + flag(
        c.fire matches Some(f) && f.overclock is Some,
        8,
    ) + flag(c.fire matches Some(f) && f.vreg is Some, 16) + flag(c.led is Some, 32) + flag(
        c.swd is Some,
        64,
    ) + flag(c.fire matches Some(f) && f.serve_mode is Some, 128)) as u8
}

/// The overridden values: bit 0 Ice overclocks, 1 Fire overclocks, 2
/// status LED on, 3 SWD on, 4 Fire serves by PIO.
pub open spec fn spec_override_value(c: FirmwareConfig) -> u8 {
    (flag(c.ice matches Some(i) && i.overclock == Some(true), 1) + flag(
        c.fire matches Some(f) && f.overclock == Some(true),
        2,
    ) + flag(c.led matches Some(l) && l.enabled, 4) + flag(c.swd matches Some(s) && s.swd_enabled, 8)
        + flag(c.fire matches Some(f) && f.serve_mode == Some(FireServeMode::Pio), 16)) as u8
}

/// The two little-endian bytes of `x`.
pub open spec fn le16(x: u16) -> Seq<u8> {
    seq![(x % 256) as u8, (x / 256) as u8]
}

/// The four little-endian bytes of `x`.
pub open spec fn le32(x: u32) -> Seq<u8> {
    seq![(x % 256) as u8, ((x / 256) % 256) as u8, ((x / 65536) % 256) as u8, (x / 16777216) as u8]
}

/// `n` copies of `b`.
pub open spec fn fill(n: nat, b: u8) -> Seq<u8> {
    Seq::new(n, |i: int| b)
}

/// The Ice frequency written: the override, else 0xFFFF.
pub open spec fn spec_ice_freq(c: FirmwareConfig) -> u16 {
    match c.ice {
        Some(i) => match i.cpu_freq {
            Some(f) => f,
            None => 0xFFFF,
        },
        None => 0xFFFF,
    }
}

/// The Fire frequency written: the override, else 0xFFFF.
pub open spec fn spec_fire_freq(c: FirmwareConfig) -> u16 {
    match c.fire {
        Some(f) => match f.cpu_freq {
            Some(x) => x,
            None => 0xFFFF,
        },
        None => 0xFFFF,
    }
}

/// The Fire core voltage written: the override, else 0xFF.
pub open spec fn spec_fire_vreg(c: FirmwareConfig) -> u8 {
    match c.fire {
        Some(f) => match f.vreg {
            Some(v) => v,
            None => 0xFF,
        },
        None => 0xFF,
    }
}

/// The 64 bytes of a firmware overrides structure: presence bits (8 bytes,
/// the first used), Ice and Fire frequencies (little-endian `u16`), Fire
/// core voltage, 3 pad bytes, value bits (8 bytes, the first used) and 40
/// pad bytes.
pub open spec fn spec_firmware_overrides(c: FirmwareConfig) -> Seq<u8> {
    seq![spec_override_present(c)] + fill(7, 0) + le16(spec_ice_freq(c)) + le16(spec_fire_freq(c))
        + seq![spec_fire_vreg(c)] + fill(3, PAD_METADATA_BYTE) + seq![spec_override_value(c)]
        + fill(7, 0) + fill(40, PAD_METADATA_BYTE)
}

/// The 64 bytes of a serving parameters structure: the parameters, cut or
/// padded with 0xFF to 64 bytes.
pub open spec fn spec_serve_config(p: Seq<u8>) -> Seq<u8> {
    Seq::new(64, |i: int| if i < p.len() { p[i] } else { PAD_METADATA_BYTE })
}

/// The magic the metadata header starts with: `ONEROM_METADATA` and a 0.
pub open spec fn header_magic() -> Seq<u8> {
    seq![
        0x4Fu8, 0x4E, 0x45, 0x52, 0x4F, 0x4D, 0x5F, 0x4D, 0x45, 0x54, 0x41, 0x44, 0x41, 0x54, 0x41, 0x00,
    ]
}

/// The 256 bytes of the metadata header for `chip_set_count` sets: magic,
/// metadata version (little-endian `u32`), the count cut to a byte, 3 zero
/// bytes, the first set's pointer (0xFFFFFFFF until known), 228 bytes of
/// 0xFF.
pub open spec fn spec_header(chip_set_count: usize) -> Seq<u8> {
    header_magic() + le32(METADATA_VERSION) + seq![(chip_set_count % 256) as u8] + fill(3, 0)
        + le32(0xFFFF_FFFF) + fill(228, 0xFF)
}

/// `buf` with `bytes` written from `offset` on.
pub open spec fn written(buf: Seq<u8>, offset: int, bytes: Seq<u8>) -> Seq<u8> {
    buf.take(offset) + bytes + buf.skip(offset + bytes.len())
}

fn copy_into(buf: &mut [u8], offset: usize, bytes: &Vec<u8>)
    requires
        offset + bytes@.len() <= old(buf)@.len(),
    ensures
        final(buf)@ == written(old(buf)@, offset as int, bytes@),
{
    let ghost start = buf@;
    let n = buf.len();
    let mut i: usize = 0;
    while i < bytes.len()
        invariant
            i <= bytes@.len(),
            n == start.len(),
            offset + bytes@.len() <= start.len(),
            buf@.len() == start.len(),
            forall|k: int| 0 <= k < offset ==> buf@[k] == start[k],
            forall|k: int| 0 <= k < i ==> buf@[offset + k] == bytes@[k],
            forall|k: int| offset + i <= k < start.len() ==> buf@[k] == start[k],
        decreases bytes@.len() - i,
    {
        buf[offset + i] = bytes[i];
        i += 1;
    }
    assert(buf@ =~= written(start, offset as int, bytes@));
}

fn push_fill(v: &mut Vec<u8>, n: usize, b: u8)
    ensures
        final(v)@ == old(v)@ + fill(n as nat, b),
{
    let ghost start = v@;
    let mut i: usize = 0;
    while i < n
        invariant
            i <= n,
            v@ == start + fill(i as nat, b),
        decreases n - i,
    {
        v.push(b);
        assert(v@ =~= start + fill((i + 1) as nat, b));
        i += 1;
    }
}

fn push_le16(v: &mut Vec<u8>, x: u16)
    ensures
        final(v)@ == old(v)@ + le16(x),
{
    v.push((x % 256) as u8);
    v.push((x / 256) as u8);
    assert(v@ =~= old(v)@ + le16(x));
}

fn push_le32(v: &mut Vec<u8>, x: u32)
    ensures
        final(v)@ == old(v)@ + le32(x),
{
    v.push((x % 256) as u8);
    v.push(((x / 256) % 256) as u8);
    v.push(((x / 65536) % 256) as u8);
    v.push((x / 16777216) as u8);
    assert(v@ =~= old(v)@ + le32(x));
}

fn override_present(c: &FirmwareConfig) -> (r: u8)
    ensures
        r == spec_override_present(*c),
{
    let mut p: u8 = 0;
    if let Some(ice) = &c.ice {
        if ice.cpu_freq.is_some() {
            p = p + 1;
        }
        if ice.overclock.is_some() {
            p = p + 2;
        }
    }
    if let Some(fire) = &c.fire {
        if fire.cpu_freq.is_some() {
            p = p + 4;
        }
        if fire.overclock.is_some() {
            p = p + 8;
        }
        if fire.vreg.is_some() {
            p = p + 16;
        }
        if fire.serve_mode.is_some() {
            p = p + 128;
        }
    }
    if c.led.is_some() {
        p = p + 32;
    }
    if c.swd.is_some() {
        p = p + 64;
    }
    p
}

fn override_value(c: &FirmwareConfig) -> (r: u8)
    ensures
        r == spec_override_value(*c),
{
    let mut v: u8 = 0;
    if let Some(ice) = &c.ice {
        if ice.overclock == Some(true) {
            v = v + 1;
        }
    }
    if let Some(fire) = &c.fire {
        if fire.overclock == Some(true) {
            v = v + 2;
        }
        if fire.serve_mode == Some(FireServeMode::Pio) {
            v = v + 16;
        }
    }
    if let Some(led) = &c.led {
        if led.enabled {
            v = v + 4;
        }
    }
    if let Some(swd) = &c.swd {
        if swd.swd_enabled {
            v = v + 8;
        }
    }
    v
}

/// The bytes of the firmware overrides structure of `c`.
pub fn firmware_overrides_bytes(c: &FirmwareConfig) -> (r: Vec<u8>)
    ensures
        r@ == spec_firmware_overrides(*c),
{
    let mut v: Vec<u8> = Vec::new();
    v.push(override_present(c));
    push_fill(&mut v, 7, 0);
    let ice_freq: u16 = match &c.ice {
        Some(i) => match i.cpu_freq {
            Some(f) => f,
            None => 0xFFFF,
        },
        None => 0xFFFF,
    };
    push_le16(&mut v, ice_freq);
    let fire_freq: u16 = match &c.fire {
        Some(f) => match f.cpu_freq {
            Some(x) => x,
            None => 0xFFFF,
        },
        None => 0xFFFF,
    };
    push_le16(&mut v, fire_freq);
    let vreg: u8 = match &c.fire {
        Some(f) => match f.vreg {
            Some(x) => x,
            None => 0xFF,
        },
        None => 0xFF,
    };
    v.push(vreg);
    push_fill(&mut v, 3, PAD_METADATA_BYTE);
    v.push(override_value(c));
    push_fill(&mut v, 7, 0);
    push_fill(&mut v, 40, PAD_METADATA_BYTE);
    assert(v@ =~= spec_firmware_overrides(*c));
    v
}

/// Writes the firmware overrides structure of `config` at the start of
/// `buf`, returning its length; refused when `buf` is shorter.
pub fn serialize_firmware_overrides(config: &FirmwareConfig, buf: &mut [u8]) -> (r: Result<
    usize,
    MetaError,
>)
    ensures
        old(buf)@.len() < CHIP_SET_FIRMWARE_OVERRIDES_METADATA_LEN ==> (r matches Err(
            MetaError::BufferTooSmall { location: _, expected: 64, actual: a },
        ) && a == old(buf)@.len() && final(buf)@ == old(buf)@),
        old(buf)@.len() >= CHIP_SET_FIRMWARE_OVERRIDES_METADATA_LEN ==> r == Ok::<usize, MetaError>(
            CHIP_SET_FIRMWARE_OVERRIDES_METADATA_LEN,
        ) && final(buf)@ == written(old(buf)@, 0, spec_firmware_overrides(*config)),
{
    if buf.len() < CHIP_SET_FIRMWARE_OVERRIDES_METADATA_LEN {
        return Err(
            MetaError::BufferTooSmall {
                location: "serialize_firmware_overrides",
                expected: CHIP_SET_FIRMWARE_OVERRIDES_METADATA_LEN,
                actual: buf.len(),
            },
        );
    }
    let bytes = firmware_overrides_bytes(config);
    copy_into(buf, 0, &bytes);
    Ok(CHIP_SET_FIRMWARE_OVERRIDES_METADATA_LEN)
}

/// The bytes of the serving parameters structure for `params`.
pub fn serve_config_bytes(params: &ServeAlgParams) -> (r: Vec<u8>)
    ensures
        r@ == spec_serve_config(params.params@),
{
    let mut v: Vec<u8> = Vec::new();
    let mut i: usize = 0;
    while i < CHIP_SET_SERVE_CONFIG_METADATA_LEN
        invariant
            i <= 64,
            v@ == spec_serve_config(params.params@).take(i as int),
        decreases 64 - i,
    {
        let b = if i < params.params.len() {
            params.params[i]
        } else {
            PAD_METADATA_BYTE
        };
        v.push(b);
        assert(v@ =~= spec_serve_config(params.params@).take(i + 1));
        i += 1;
    }
    assert(v@ =~= spec_serve_config(params.params@));
    v
}

/// Writes the serving parameters structure of `params` at the start of
/// `buf`, returning its length; refused when `buf` is shorter.
pub fn serialize_serve_config(params: &ServeAlgParams, buf: &mut [u8]) -> (r: Result<
    usize,
    MetaError,
>)
    ensures
        old(buf)@.len() < CHIP_SET_SERVE_CONFIG_METADATA_LEN ==> (r matches Err(
            MetaError::BufferTooSmall { location: _, expected: 64, actual: a },
        ) && a == old(buf)@.len() && final(buf)@ == old(buf)@),
        old(buf)@.len() >= CHIP_SET_SERVE_CONFIG_METADATA_LEN ==> r == Ok::<usize, MetaError>(
            CHIP_SET_SERVE_CONFIG_METADATA_LEN,
        ) && final(buf)@ == written(old(buf)@, 0, spec_serve_config(params.params@)),
{
    if buf.len() < CHIP_SET_SERVE_CONFIG_METADATA_LEN {
        return Err(
            MetaError::BufferTooSmall {
                location: "serialize_serve_config",
                expected: CHIP_SET_SERVE_CONFIG_METADATA_LEN,
                actual: buf.len(),
            },
        );
    }
    let bytes = serve_config_bytes(params);
    copy_into(buf, 0, &bytes);
    Ok(CHIP_SET_SERVE_CONFIG_METADATA_LEN)
}

/// The bytes of the metadata header for `chip_set_count` sets.
pub fn header_bytes(chip_set_count: usize) -> (r: Vec<u8>)
    ensures
        r@ == spec_header(chip_set_count),
{
    let mut v: Vec<u8> = Vec::new();
    v.push(0x4F);
    v.push(0x4E);
    v.push(0x45);
    v.push(0x52);
    v.push(0x4F);
    v.push(0x4D);
    v.push(0x5F);
    v.push(0x4D);
    v.push(0x45);
    v.push(0x54);
    v.push(0x41);
    v.push(0x44);
    v.push(0x41);
    v.push(0x54);
    v.push(0x41);
    v.push(0x00);
    assert(v@ =~= header_magic());
    push_le32(&mut v, METADATA_VERSION);
    v.push((chip_set_count % 256) as u8);
    push_fill(&mut v, 3, 0);
    push_le32(&mut v, 0xFFFF_FFFF);
    push_fill(&mut v, 228, 0xFF);
    assert(v@ =~= spec_header(chip_set_count));
    v
}

/// Writes the metadata header for `chip_set_count` sets at the start of
/// `buf`, returning its length; refused when `buf` is shorter.
pub fn write_header(chip_set_count: usize, buf: &mut [u8]) -> (r: Result<usize, MetaError>)
    ensures
        old(buf)@.len() < METADATA_HEADER_LEN ==> (r matches Err(
            MetaError::BufferTooSmall { location: _, expected: 256, actual: a },
        ) && a == old(buf)@.len() && final(buf)@ == old(buf)@),
        old(buf)@.len() >= METADATA_HEADER_LEN ==> r == Ok::<usize, MetaError>(METADATA_HEADER_LEN)
            && final(buf)@ == written(old(buf)@, 0, spec_header(chip_set_count)),
{
    if buf.len() < METADATA_HEADER_LEN {
        return Err(
            MetaError::BufferTooSmall {
                location: "write_header",
                expected: METADATA_HEADER_LEN,
                actual: buf.len(),
            },
        );
    }
    let bytes = header_bytes(chip_set_count);
    copy_into(buf, 0, &bytes);
    Ok(METADATA_HEADER_LEN)
}

/// Writes the pointer to the first chip set into the header in `buf`;
/// refused when `buf` is too short to hold it.
pub fn update_chip_set_ptr(buf: &mut [u8], ptr: u32) -> (r: Result<(), MetaError>)
    ensures
        old(buf)@.len() < METADATA_CHIP_SET_OFFSET + 4 ==> (r matches Err(
            MetaError::BufferTooSmall { location: _, expected: 28, actual: a },
        ) && a == old(buf)@.len() && final(buf)@ == old(buf)@),
        old(buf)@.len() >= METADATA_CHIP_SET_OFFSET + 4 ==> r is Ok && final(buf)@ == written(
            old(buf)@,
            METADATA_CHIP_SET_OFFSET as int,
            le32(ptr),
        ),
{
    if buf.len() < METADATA_CHIP_SET_OFFSET + 4 {
        return Err(
            MetaError::BufferTooSmall {
                location: "update_chip_set_ptr",
                expected: METADATA_CHIP_SET_OFFSET + 4,
                actual: buf.len(),
            },
        );
    }
    let mut bytes: Vec<u8> = Vec::new();
    push_le32(&mut bytes, ptr);
    assert(bytes@ =~= Seq::<u8>::empty() + le32(ptr));
    copy_into(buf, METADATA_CHIP_SET_OFFSET, &bytes);
    Ok(())
}

/// Whether version `a` is older than `b`: by major, minor, patch, then
/// build number.
pub open spec fn version_lt(a: FirmwareVersion, b: FirmwareVersion) -> bool {
    ||| a.major < b.major
    ||| (a.major == b.major && a.minor < b.minor)
    ||| (a.major == b.major && a.minor == b.minor && a.patch < b.patch)
    ||| (a.major == b.major && a.minor == b.minor && a.patch == b.patch && a.build < b.build)
}

/// Whether version `a` is older than `b`.
pub fn version_older(a: &FirmwareVersion, b: &FirmwareVersion) -> (r: bool)
    ensures
        r == version_lt(*a, *b),
{
    if a.major != b.major {
        a.major < b.major
    } else if a.minor != b.minor {
        a.minor < b.minor
    } else if a.patch != b.patch {
        a.patch < b.patch
    } else {
        a.build < b.build
    }
}

/// The first firmware version whose metadata holds firmware overrides.
pub open spec fn min_overrides_version() -> FirmwareVersion {
    FirmwareVersion { major: 0, minor: 6, patch: 0, build: 0 }
}

/// The metadata the overrides of the chip sets take: none before version
/// 0.6.0, else 64 bytes for each set's overrides and 64 more where they
/// hold serving parameters.
pub open spec fn spec_firmware_overrides_len(
    version: FirmwareVersion,
    overrides: Seq<Option<FirmwareConfig>>,
) -> nat
    decreases overrides.len(),
{
    if version_lt(version, min_overrides_version()) || overrides.len() == 0 {
        0
    } else {
        spec_firmware_overrides_len(version, overrides.drop_last()) + match overrides.last() {
            Some(c) => if c.serve_alg_params is Some {
                128nat
            } else {
                64nat
            },
            None => 0nat,
        }
    }
}

/// The metadata the overrides of the chip sets take.
pub fn firmware_overrides_len(version: &FirmwareVersion, overrides: &[Option<FirmwareConfig>]) -> (r:
    usize)
    requires
        overrides@.len() * 128 <= usize::MAX,
    ensures
        r == spec_firmware_overrides_len(*version, overrides@),
{
    let min = FirmwareVersion::new(0, 6, 0, 0);
    if version_older(version, &min) {
        return 0;
    }
    let mut total: usize = 0;
    let mut i: usize = 0;
    while i < overrides.len()
        invariant
            i <= overrides@.len(),
            overrides@.len() * 128 <= usize::MAX,
            !version_lt(*version, min_overrides_version()),
            total == spec_firmware_overrides_len(*version, overrides@.take(i as int)),
            total <= i * 128,
        decreases overrides@.len() - i,
    {
        assert(overrides@.take(i + 1).drop_last() =~= overrides@.take(i as int));
        match &overrides[i] {
            Some(c) => {
                total = total + CHIP_SET_FIRMWARE_OVERRIDES_METADATA_LEN;
                if c.serve_alg_params.is_some() {
                    total = total + CHIP_SET_FIRMWARE_OVERRIDES_METADATA_LEN;
                }
            },
            None => {},
        }
        i += 1;
    }
    assert(overrides@.take(overrides@.len() as int) =~= overrides@);
    total
}

/// The little-endian `u32` in the four bytes from `offset`.
pub open spec fn read_le32(bytes: Seq<u8>, offset: int) -> int {
    bytes[offset] + 256 * bytes[offset + 1] + 65536 * bytes[offset + 2] + 16777216 * bytes[offset + 3]
}

/// The little-endian `u16` in the two bytes from `offset`.
pub open spec fn read_le16(bytes: Seq<u8>, offset: int) -> int {
    bytes[offset] + 256 * bytes[offset + 1]
}

/// Reading back the four bytes written for a `u32` gives it back.
pub proof fn law_le32_round_trip(x: u32)
    ensures
        read_le32(le32(x), 0) == x,
{
    let b0 = x % 256;
    let b1 = (x / 256) % 256;
    let b2 = (x / 65536) % 256;
    let b3 = x / 16777216;
    assert(b0 + 256 * b1 + 65536 * b2 + 16777216 * b3 == x) by (nonlinear_arith)
        requires
            b0 == x % 256,
            b1 == (x / 256) % 256,
            b2 == (x / 65536) % 256,
            b3 == x / 16777216,
    ;
}

/// Reading back the two bytes written for a `u16` gives it back.
pub proof fn law_le16_round_trip(x: u16)
    ensures
        read_le16(le16(x), 0) == x,
{
}

/// After `update_chip_set_ptr`, the header holds the pointer where the
/// firmware reads it, and every other byte is as it was.
pub proof fn law_chip_set_ptr_reads_back(buf: Seq<u8>, ptr: u32)
    requires
        buf.len() >= METADATA_CHIP_SET_OFFSET + 4,
    ensures
        read_le32(written(buf, METADATA_CHIP_SET_OFFSET as int, le32(ptr)), METADATA_CHIP_SET_OFFSET as int)
            == ptr,
        written(buf, METADATA_CHIP_SET_OFFSET as int, le32(ptr)).len() == buf.len(),
        forall|i: int|
            0 <= i < buf.len() && !(METADATA_CHIP_SET_OFFSET <= i < METADATA_CHIP_SET_OFFSET + 4)
                ==> #[trigger] written(buf, METADATA_CHIP_SET_OFFSET as int, le32(ptr))[i] == buf[i],
{
    let w = written(buf, METADATA_CHIP_SET_OFFSET as int, le32(ptr));
    law_le32_round_trip(ptr);
    assert(w[24] == le32(ptr)[0] && w[25] == le32(ptr)[1] && w[26] == le32(ptr)[2] && w[27] == le32(ptr)[3]);
}

/// The firmware overrides structure records the frequencies at bytes 8 and
/// 10, the core voltage at byte 12, and, in bytes 0 and 16, which
/// overrides are present and their values.
pub proof fn law_firmware_overrides_layout(c: FirmwareConfig)
    ensures
        spec_firmware_overrides(c).len() == CHIP_SET_FIRMWARE_OVERRIDES_METADATA_LEN,
        spec_firmware_overrides(c)[0] == spec_override_present(c),
        read_le16(spec_firmware_overrides(c), 8) == spec_ice_freq(c),
        read_le16(spec_firmware_overrides(c), 10) == spec_fire_freq(c),
        spec_firmware_overrides(c)[12] == spec_fire_vreg(c),
        spec_firmware_overrides(c)[16] == spec_override_value(c),
{
    let b = spec_firmware_overrides(c);
    law_le16_round_trip(spec_ice_freq(c));
    law_le16_round_trip(spec_fire_freq(c));
    assert(b[8] == le16(spec_ice_freq(c))[0] && b[9] == le16(spec_ice_freq(c))[1]);
    assert(b[10] == le16(spec_fire_freq(c))[0] && b[11] == le16(spec_fire_freq(c))[1]);
}

/// Whether bit `k` (0 for the least significant) of `b` is set.
pub open spec fn byte_bit(b: u8, k: nat) -> bool {
    (b as nat / vstd::arithmetic::power2::pow2(k)) % 2 == 1
}

proof fn lemma_flag_bits(x0: u8, x1: u8, x2: u8, x3: u8, x4: u8, x5: u8, x6: u8, x7: u8)
    by (bit_vector)
    requires
        x0 == 0 || x0 == 1,
        x1 == 0 || x1 == 2,
        x2 == 0 || x2 == 4,
        x3 == 0 || x3 == 8,
        x4 == 0 || x4 == 16,
        x5 == 0 || x5 == 32,
        x6 == 0 || x6 == 64,
        x7 == 0 || x7 == 128,
    ensures
        x0 + x1 + x2 + x3 + x4 + x5 + x6 + x7 < 256,
        ((x0 + x1 + x2 + x3 + x4 + x5 + x6 + x7) / 1) % 2 == 1 <==> x0 == 1,
        ((x0 + x1 + x2 + x3 + x4 + x5 + x6 + x7) / 2) % 2 == 1 <==> x1 == 2,
        ((x0 + x1 + x2 + x3 + x4 + x5 + x6 + x7) / 4) % 2 == 1 <==> x2 == 4,
        ((x0 + x1 + x2 + x3 + x4 + x5 + x6 + x7) / 8) % 2 == 1 <==> x3 == 8,
        ((x0 + x1 + x2 + x3 + x4 + x5 + x6 + x7) / 16) % 2 == 1 <==> x4 == 16,
        ((x0 + x1 + x2 + x3 + x4 + x5 + x6 + x7) / 32) % 2 == 1 <==> x5 == 32,
        ((x0 + x1 + x2 + x3 + x4 + x5 + x6 + x7) / 64) % 2 == 1 <==> x6 == 64,
        ((x0 + x1 + x2 + x3 + x4 + x5 + x6 + x7) / 128) % 2 == 1 <==> x7 == 128,
{
}

/// The firmware reads byte 0 of the overrides structure as the overrides
/// present: bit 0 Ice frequency, 1 Ice overclock, 2 Fire frequency, 3 Fire
/// overclock, 4 Fire core voltage, 5 status LED, 6 SWD, 7 Fire serve mode;
/// each bit is set exactly when that override is given.
pub proof fn law_override_present_bits(c: FirmwareConfig)
    ensures
        ({
            let p = spec_firmware_overrides(c)[0];
            &&& byte_bit(p, 0) <==> (c.ice matches Some(i) && i.cpu_freq is Some)
            &&& byte_bit(p, 1) <==> (c.ice matches Some(i) && i.overclock is Some)
            &&& byte_bit(p, 2) <==> (c.fire matches Some(f) && f.cpu_freq is Some)
            &&& byte_bit(p, 3) <==> (c.fire matches Some(f) && f.overclock is Some)
            &&& byte_bit(p, 4) <==> (c.fire matches Some(f) && f.vreg is Some)
            &&& byte_bit(p, 5) <==> c.led is Some
            &&& byte_bit(p, 6) <==> c.swd is Some
            &&& byte_bit(p, 7) <==> (c.fire matches Some(f) && f.serve_mode is Some)
        }),
{
    vstd::arithmetic::power2::lemma2_to64();
    law_firmware_overrides_layout(c);
    lemma_flag_bits(
        flag(c.ice matches Some(i) && i.cpu_freq is Some, 1),
        flag(c.ice matches Some(i) && i.overclock is Some, 2),
        flag(c.fire matches Some(f) && f.cpu_freq is Some, 4),
        flag(c.fire matches Some(f) && f.overclock is Some, 8),
        flag(c.fire matches Some(f) && f.vreg is Some, 16),
        flag(c.led is Some, 32),
        flag(c.swd is Some, 64),
        flag(c.fire matches Some(f) && f.serve_mode is Some, 128),
    );
}

/// The firmware reads byte 16 of the overrides structure as the values
/// overridden: bit 0 Ice overclocks, 1 Fire overclocks, 2 status LED on,
/// 3 SWD on, 4 Fire serves by PIO, the other bits clear; each bit is set
/// exactly when its setting says so.
pub proof fn law_override_value_bits(c: FirmwareConfig)
    ensures
        ({
            let v = spec_firmware_overrides(c)[16];
            &&& byte_bit(v, 0) <==> (c.ice matches Some(i) && i.overclock == Some(true))
            &&& byte_bit(v, 1) <==> (c.fire matches Some(f) && f.overclock == Some(true))
            &&& byte_bit(v, 2) <==> (c.led matches Some(l) && l.enabled)
            &&& byte_bit(v, 3) <==> (c.swd matches Some(s) && s.swd_enabled)
            &&& byte_bit(v, 4) <==> (c.fire matches Some(f) && f.serve_mode == Some(
                FireServeMode::Pio,
            ))
            &&& v < 32
        }),
{
    vstd::arithmetic::power2::lemma2_to64();
    law_firmware_overrides_layout(c);
    lemma_flag_bits(
        flag(c.ice matches Some(i) && i.overclock == Some(true), 1),
        flag(c.fire matches Some(f) && f.overclock == Some(true), 2),
        flag(c.led matches Some(l) && l.enabled, 4),
        flag(c.swd matches Some(s) && s.swd_enabled, 8),
        flag(c.fire matches Some(f) && f.serve_mode == Some(FireServeMode::Pio), 16),
        0,
        0,
        0,
    );
}

} // verus!
