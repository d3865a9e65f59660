//! Generator configuration: the ROMs to serve, how they are grouped into
//! sets, and its validation against the hardware and MCU.

use vstd::prelude::*;

use crate::hardware::{HwConfig, Port};
use crate::preprocessor::{RomImage, RomSet};
use crate::sdrr_types::{CsLogic, McuVariant, RomType, ServeAlg};
use crate::text::{dec, push_decimal, push_str};

verus! {

/// What to do with a ROM file smaller than its ROM type.
#[derive(Debug, Clone, Copy, PartialEq, Eq, Structural)]
pub enum SizeHandling {
    /// Use the file as it is; it must have the exact size.
    NoChange,
    /// Repeat the file to fill the ROM.
    Duplicate,
    /// Pad the file with 0xAA to fill the ROM.
    Pad,
}

/// Chip select senses of a ROM.
#[derive(Debug, Clone, Copy, PartialEq, Eq, Structural)]
pub struct CsConfig {
    pub cs1: CsLogic,
    pub cs2: Option<CsLogic>,
    pub cs3: Option<CsLogic>,
}

/// The message for a ROM type given the wrong number of CS lines.
pub open spec fn cs_lines_message(rom_type: RomType) -> Seq<char> {
    "ROM type "@ + rom_type.spec_name() + " requires "@ + dec(rom_type.spec_cs_lines_count() as nat)
        + " CS line(s)"@
}

/// The result a check returns for a message that may or may not be present.
pub open spec fn message_matches(r: Result<(), String>, m: Option<Seq<char>>) -> bool {
    match m {
        None => r is Ok,
        Some(t) => r matches Err(s) && s@ == t,
    }
}

fn cs_lines_error(rom_type: &RomType) -> (s: String)
    ensures
        s@ == cs_lines_message(*rom_type),
{
    let mut s = String::from_str("ROM type ");
    push_str(&mut s, rom_type.name());
    push_str(&mut s, " requires ");
    push_decimal(&mut s, rom_type.cs_lines_count() as u64);
    push_str(&mut s, " CS line(s)");
    s
}

impl CsConfig {
    /// A chip select configuration.
    pub fn new(cs1: CsLogic, cs2: Option<CsLogic>, cs3: Option<CsLogic>) -> (r: Self)
        ensures
            r == (CsConfig { cs1, cs2, cs3 }),
    {
        Self { cs1, cs2, cs3 }
    }

    /// The message `validate` refuses the configuration with, if any: CS1
    /// may not be ignored, and the ROM type must get exactly its CS lines.
    pub open spec fn spec_validate(self, rom_type: RomType) -> Option<Seq<char>> {
        if self.cs1 == CsLogic::Ignore {
            Some("CS1 cannot be set to 'ignore' - it must be active high or low"@)
        } else {
            match rom_type {
                RomType::Rom2364 => if self.cs2 is Some || self.cs3 is Some {
                    Some(cs_lines_message(rom_type))
                } else {
                    None
                },
                RomType::Rom2332 => if self.cs3 is Some {
                    Some("ROM type "@ + rom_type.spec_name() + " does not support CS3"@)
                } else if self.cs2 is None {
                    Some(cs_lines_message(rom_type))
                } else {
                    None
                },
                _ => if self.cs2 is None || self.cs3 is None {
                    Some(cs_lines_message(rom_type))
                } else {
                    None
                },
            }
        }
    }

    /// Checks the chip select lines given against what the ROM type has.
    /// (The 23128 is not yet supported, so it may only be given with CS1 ignored.)
    pub fn validate(&self, rom_type: &RomType) -> (r: Result<(), String>)
        requires
            self.cs1 == CsLogic::Ignore || *rom_type != RomType::Rom23128,
        ensures
            message_matches(r, self.spec_validate(*rom_type)),
    {
        if self.cs1 == CsLogic::Ignore {
            return Err(
                String::from_str("CS1 cannot be set to 'ignore' - it must be active high or low"),
            );
        }
        match rom_type {
            RomType::Rom2364 => {
                if self.cs2.is_some() || self.cs3.is_some() {
                    Err(cs_lines_error(rom_type))
                } else {
                    Ok(())
                }
            },
            RomType::Rom2332 => {
                if self.cs3.is_some() {
                    let mut s = String::from_str("ROM type ");
                    push_str(&mut s, rom_type.name());
                    push_str(&mut s, " does not support CS3");
                    return Err(s);
                }
                if self.cs2.is_none() {
                    Err(cs_lines_error(rom_type))
                } else {
                    Ok(())
                }
            },
            _ => {
                if self.cs2.is_none() || self.cs3.is_none() {
                    Err(cs_lines_error(rom_type))
                } else {
                    Ok(())
                }
            },
        }
    }
}

/// One ROM to be served.
#[derive(Debug)]
pub struct RomConfig {
    /// Path of the ROM file, as displayed.
    pub file: String,
    pub original_source: String,
    pub extract: Option<String>,
    pub licence: Option<String>,
    pub rom_type: RomType,
    pub cs_config: CsConfig,
    pub size_handling: SizeHandling,
    pub set: Option<usize>,
    pub bank: Option<usize>,
}

fn clone_opt_string(s: &Option<String>) -> (r: Option<String>)
    ensures
        r == *s,
{
    match s {
        Some(v) => Some(v.clone()),
        None => None,
    }
}

impl Clone for RomConfig {
    fn clone(&self) -> (r: Self)
        ensures
            r == *self,
    {
        RomConfig {
            file: self.file.clone(),
            original_source: self.original_source.clone(),
            extract: clone_opt_string(&self.extract),
            licence: clone_opt_string(&self.licence),
            rom_type: self.rom_type,
            cs_config: self.cs_config,
            size_handling: self.size_handling,
            set: self.set,
            bank: self.bank,
        }
    }
}

/// A ROM placed in a set, with its image and its index in the configuration.
#[derive(Debug, Clone)]
pub struct RomInSet {
    pub config: RomConfig,
    pub image: RomImage,
    pub original_index: usize,
}

/// Generator configuration.
#[derive(Debug)]
pub struct Config {
    pub roms: Vec<RomConfig>,
    pub mcu_variant: McuVariant,
    /// Output directory, as displayed.
    pub output_dir: String,
    pub swd: bool,
    pub count_rom_access: bool,
    pub mco: bool,
    pub mco2: bool,
    pub boot_logging: bool,
    pub main_loop_logging: bool,
    pub main_loop_one_shot: bool,
    pub debug_logging: bool,
    pub overwrite: bool,
    pub hse: bool,
    pub hw: HwConfig,
    pub freq: u32,
    pub status_led: bool,
    pub overclock: bool,
    pub bootloader: bool,
    pub preload_to_ram: bool,
    pub auto_yes: bool,
    pub serve_alg: ServeAlg,
}

/// The CS check of the first ROM from `i` on that fails it.
pub open spec fn cs_scan(roms: Seq<RomConfig>, i: int) -> Option<Seq<char>>
    decreases roms.len() - i,
{
    if i < 0 || i >= roms.len() {
        None
    } else if roms[i].cs_config.spec_validate(roms[i].rom_type) is Some {
        roms[i].cs_config.spec_validate(roms[i].rom_type)
    } else {
        cs_scan(roms, i + 1)
    }
}

/// The CS checks up to the first failing one can run: none of them is of a
/// 23128 with CS1 in use.
pub open spec fn cs_scan_ok(roms: Seq<RomConfig>, i: int) -> bool
    decreases roms.len() - i,
{
    if i < 0 || i >= roms.len() {
        true
    } else {
        &&& (roms[i].cs_config.cs1 == CsLogic::Ignore || roms[i].rom_type != RomType::Rom23128)
        &&& (roms[i].cs_config.spec_validate(roms[i].rom_type) is None ==> cs_scan_ok(roms, i + 1))
    }
}

/// The set numbers given, in ROM order.
pub open spec fn set_values(roms: Seq<RomConfig>) -> Seq<usize>
    decreases roms.len(),
{
    if roms.len() == 0 {
        Seq::empty()
    } else {
        let r = set_values(roms.drop_last());
        match roms.last().set {
            Some(v) => r.push(v),
            None => r,
        }
    }
}

/// The values in order of first appearance, without repeats.
pub open spec fn dedup(vals: Seq<usize>) -> Seq<usize>
    decreases vals.len(),
{
    if vals.len() == 0 {
        Seq::empty()
    } else {
        let r = dedup(vals.drop_last());
        if r.contains(vals.last()) {
            r
        } else {
            r.push(vals.last())
        }
    }
}

/// The smallest number from `m` up to (not including) `k` that is not among
/// the values.
pub open spec fn first_missing(vals: Seq<usize>, k: nat, m: nat) -> Option<nat>
    decreases k - m,
{
    if m >= k {
        None
    } else if !vals.contains(m as usize) {
        Some(m)
    } else {
        first_missing(vals, k, m + 1)
    }
}

/// The ROMs of set `id`, in order.
pub open spec fn roms_in_set(roms: Seq<RomConfig>, id: usize) -> Seq<RomConfig>
    decreases roms.len(),
{
    if roms.len() == 0 {
        Seq::empty()
    } else {
        let r = roms_in_set(roms.drop_last(), id);
        if roms.last().set == Some(id) {
            r.push(roms.last())
        } else {
            r
        }
    }
}

/// The bank numbers given by the ROMs, in order.
pub open spec fn bank_values(roms: Seq<RomConfig>) -> Seq<usize>
    decreases roms.len(),
{
    if roms.len() == 0 {
        Seq::empty()
    } else {
        let r = bank_values(roms.drop_last());
        match roms.last().bank {
            Some(v) => r.push(v),
            None => r,
        }
    }
}

/// The first ROM from `j` on whose type differs from the first ROM's.
pub open spec fn type_mismatch(rs: Seq<RomConfig>, j: int) -> Option<int>
    decreases rs.len() - j,
{
    if j < 1 || j >= rs.len() {
        None
    } else if rs[j].rom_type != rs[0].rom_type {
        Some(j)
    } else {
        type_mismatch(rs, j + 1)
    }
}

/// Whether some ROM from `j` on has CS settings other than the first ROM's.
pub open spec fn cs_mismatch(rs: Seq<RomConfig>, j: int) -> bool
    decreases rs.len() - j,
{
    if j < 1 || j >= rs.len() {
        false
    } else if rs[j].cs_config != rs[0].cs_config {
        true
    } else {
        cs_mismatch(rs, j + 1)
    }
}

/// `"Set <id>: "`.
pub open spec fn set_prefix(id: usize) -> Seq<char> {
    "Set "@ + dec(id as nat) + ": "@
}

impl Config {
    /// The first problem of set `id`: banked sets need hardware and MCU
    /// support, a bank on every ROM, at most 4 ROMs, banks numbered from 0
    /// with none missing, and one ROM type and CS setting; other (multi-ROM)
    /// sets need hardware support, MCU support when holding more than one
    /// ROM, and at most 3 ROMs.
    pub open spec fn spec_set_error(self, id: usize) -> Option<Seq<char>> {
        let rs = roms_in_set(self.roms@, id);
        let banks = bank_values(rs);
        let mv = self.mcu_variant;
        if banks.len() > 0 {
            if !self.hw.spec_supports_multi_rom_sets() {
                Some(
                    "Bank switched sets of ROMs are only supported on hardware revision F onwards"@,
                )
            } else if !mv.spec_supports_banked_roms() {
                Some(
                    set_prefix(id) + "banked ROMs are not supported on STM32 variant "@
                        + mv.spec_makefile_var() + " due to lack of RAM and/or flash"@,
                )
            } else if banks.len() != rs.len() {
                Some(
                    set_prefix(id)
                        + "when using banks, all ROMs in the set must specify a bank number"@,
                )
            } else if rs.len() > 4 {
                Some(
                    set_prefix(id) + "banked sets can contain maximum 4 ROMs, found "@ + dec(
                        rs.len(),
                    ),
                )
            } else if first_missing(banks, dedup(banks).len(), 0) is Some {
                Some(
                    set_prefix(id)
                        + "bank numbers must be sequential starting from 0. Missing bank "@ + dec(
                        first_missing(banks, dedup(banks).len(), 0).unwrap(),
                    ),
                )
            } else if type_mismatch(rs, 1) is Some {
                Some(
                    set_prefix(id) + "all ROMs in a banked set must have the same type. Found "@
                        + rs[0].rom_type.spec_name() + " and "@ + rs[type_mismatch(
                        rs,
                        1,
                    ).unwrap()].rom_type.spec_name(),
                )
            } else if cs_mismatch(rs, 1) {
                Some(
                    set_prefix(id)
                        + "all ROMs in a banked set must have the same CS configuration"@,
                )
            } else {
                None
            }
        } else {
            if !self.hw.spec_supports_multi_rom_sets() {
                Some("Multi-ROM sets of ROMs are only supported on hardware revision F onwards"@)
            } else if rs.len() > 1 && !mv.spec_supports_banked_roms() {
                Some(
                    set_prefix(id) + "multi-set ROMs are not supported on STM32 variant "@
                        + mv.spec_makefile_var() + " due to lack of RAM and/or flash"@,
                )
            } else if rs.len() > 3 {
                Some(
                    set_prefix(id) + "multi-ROM sets can contain maximum 3 ROMs, found "@ + dec(
                        rs.len(),
                    ),
                )
            } else {
                None
            }
        }
    }

    /// The first problem among sets `id`..`k`.
    pub open spec fn set_scan(self, id: nat, k: nat) -> Option<Seq<char>>
        decreases k - id,
    {
        if id >= k {
            None
        } else if self.spec_set_error(id as usize) is Some {
            self.spec_set_error(id as usize)
        } else {
            self.set_scan(id + 1, k)
        }
    }

    /// Checks made before the frequency: ROMs given, CS settings, output
    /// files, status LED, MCU family.
    pub open spec fn spec_validate_head(self, existing_output: Option<Seq<char>>) -> Option<
        Seq<char>,
    > {
        if self.roms@.len() == 0 {
            Some("At least one ROM image must be provided"@)
        } else if cs_scan(self.roms@, 0) is Some {
            cs_scan(self.roms@, 0)
        } else if !self.overwrite && existing_output is Some {
            Some(
                "Output file '"@ + existing_output.unwrap()
                    + "' already exists. Use --overwrite to overwrite."@,
            )
        } else if self.status_led && (self.hw.mcu.ports.status_port == Port::PortNone
            || self.hw.mcu.pins.status == 255) {
            Some("Status LED enabled but no status LED pin configured for selected hardware"@)
        } else if self.mcu_variant.spec_family() != self.hw.mcu.family {
            Some(
                "STM32 variant "@ + self.mcu_variant.spec_makefile_var()
                    + " does not match hardware family "@ + self.hw.mcu.family.spec_display(),
            )
        } else {
            None
        }
    }

    /// Whether the set checks are reached: sets are used, given for every
    /// ROM, and numbered from 0 with none missing.
    pub open spec fn sets_checked(self) -> bool {
        let vals = set_values(self.roms@);
        &&& vals.len() > 0
        &&& vals.len() == self.roms@.len()
        &&& first_missing(vals, dedup(vals).len(), 0) is None
    }

    /// The message `validate` refuses the configuration with, if any.
    pub open spec fn spec_validate(self, existing_output: Option<Seq<char>>) -> Option<Seq<char>> {
        let mv = self.mcu_variant;
        let vals = set_values(self.roms@);
        if self.spec_validate_head(existing_output) is Some {
            self.spec_validate_head(existing_output)
        } else if mv.spec_processor().spec_pll_hsi(self.freq, self.overclock) is None {
            Some(
                "Frequency "@ + dec(self.freq as nat) + "MHz is not valid for variant "@
                    + mv.spec_makefile_var() + ". Valid range: 16-"@ + dec(
                    mv.spec_processor().spec_max_sysclk_mhz() as nat,
                ) + "MHz"@,
            )
        } else if self.hw.spec_has_usb() && mv.spec_family() != crate::sdrr_types::McuFamily::Stm32F4 {
            Some(
                "Selected hardware "@ + self.hw.name@ + " has USB, but variant "@
                    + mv.spec_debug_name() + " does not support USB"@,
            )
        } else if vals.len() == 0 {
            None
        } else if vals.len() != self.roms@.len() {
            Some("When using sets, all ROMs must specify a set number"@)
        } else if first_missing(vals, dedup(vals).len(), 0) is Some {
            Some(
                "ROM sets must be numbered sequentially starting from 0. Missing set "@ + dec(
                    first_missing(vals, dedup(vals).len(), 0).unwrap(),
                ),
            )
        } else {
            self.set_scan(0, dedup(vals).len())
        }
    }

    /// Whether the frequency and USB checks that follow the first checks
    /// pass.
    pub open spec fn frequency_and_usb_pass(self) -> bool {
        &&& self.mcu_variant.spec_processor().spec_pll_hsi(self.freq, self.overclock) is Some
        &&& !(self.hw.spec_has_usb() && self.mcu_variant.spec_family()
            != crate::sdrr_types::McuFamily::Stm32F4)
    }

    /// The inputs `validate` runs on without a panic: no 23128 ROM with CS1
    /// in use among the CS checks made, a frequency search without overflow
    /// once reached, and X1/X2 within range once the set checks are reached.
    pub open spec fn validate_ok(self, existing_output: Option<Seq<char>>) -> bool {
        &&& cs_scan_ok(self.roms@, 0)
        &&& self.spec_validate_head(existing_output) is None
            ==> self.mcu_variant.spec_processor().pll_target_ok(self.freq, self.overclock)
        &&& self.spec_validate_head(existing_output) is None && self.frequency_and_usb_pass()
            && self.sets_checked() ==> self.hw.x_pins_in_range()
    }
}

/// `o` by the view of its string.
pub open spec fn opt_view(o: Option<String>) -> Option<Seq<char>> {
    match o {
        Some(s) => Some(s@),
        None => None,
    }
}

fn contains_value(v: &Vec<usize>, x: usize) -> (b: bool)
    ensures
        b == v@.contains(x),
{
    let mut i: usize = 0;
    while i < v.len()
        invariant
            i <= v.len(),
            forall|j: int| 0 <= j < i ==> v@[j] != x,
        decreases v.len() - i,
    {
        if v[i] == x {
            return true;
        }
        i += 1;
    }
    false
}

proof fn lemma_dedup_contains(vals: Seq<usize>, x: usize)
    ensures
        dedup(vals).contains(x) <==> vals.contains(x),
    decreases vals.len(),
{
    if vals.len() > 0 {
        let d = vals.drop_last();
        let y = vals.last();
        lemma_dedup_contains(d, x);
        let r = dedup(d);
        assert(vals =~= d.push(y));
        assert(vals.contains(x) <==> (d.contains(x) || x == y)) by {
            if vals.contains(x) && x != y {
                let j = choose|j: int| 0 <= j < vals.len() && vals[j] == x;
                assert(d[j] == x);
            }
            if d.contains(x) {
                let j = choose|j: int| 0 <= j < d.len() && d[j] == x;
                assert(vals[j] == x);
            }
            if x == y {
                assert(vals[vals.len() - 1] == x);
            }
        }
        assert(r.push(y).contains(x) <==> (r.contains(x) || x == y)) by {
            if r.push(y).contains(x) && x != y {
                let j = choose|j: int| 0 <= j < r.push(y).len() && r.push(y)[j] == x;
                assert(r[j] == x);
            }
            if r.contains(x) {
                let j = choose|j: int| 0 <= j < r.len() && r[j] == x;
                assert(r.push(y)[j] == x);
            }
            if x == y {
                assert(r.push(y)[r.len() as int] == x);
            }
        }
        if r.contains(y) {
            assert(dedup(vals) == r);
        } else {
            assert(dedup(vals) == r.push(y));
        }
    }
}

/// The distinct values of `v`, in order of first appearance.
fn dedup_values(v: &Vec<usize>) -> (r: Vec<usize>)
    ensures
        r@ == dedup(v@),
{
    let mut r: Vec<usize> = Vec::new();
    let mut i: usize = 0;
    while i < v.len()
        invariant
            i <= v.len(),
            r@ == dedup(v@.take(i as int)),
        decreases v.len() - i,
    {
        let x = v[i];
        proof {
            assert(v@.take(i + 1).drop_last() =~= v@.take(i as int));
        }
        if !contains_value(&r, x) {
            r.push(x);
        }
        i += 1;
    }
    proof {
        assert(v@.take(v.len() as int) =~= v@);
    }
    r
}

/// The smallest number below `k` missing from `v`.
fn first_missing_value(v: &Vec<usize>, k: usize) -> (r: Option<usize>)
    ensures
        r is Some <==> first_missing(v@, k as nat, 0) is Some,
        r matches Some(m) ==> first_missing(v@, k as nat, 0) == Some(m as nat),
{
    let mut m: usize = 0;
    while m < k
        invariant
            m <= k,
            first_missing(v@, k as nat, 0) == first_missing(v@, k as nat, m as nat),
        decreases k - m,
    {
        if !contains_value(v, m) {
            return Some(m);
        }
        m += 1;
    }
    None
}

/// The set numbers given by the ROMs, in order.
fn set_values_of(roms: &Vec<RomConfig>) -> (r: Vec<usize>)
    ensures
        r@ == set_values(roms@),
{
    let mut r: Vec<usize> = Vec::new();
    let mut i: usize = 0;
    while i < roms.len()
        invariant
            i <= roms.len(),
            r@ == set_values(roms@.take(i as int)),
        decreases roms.len() - i,
    {
        proof {
            assert(roms@.take(i + 1).drop_last() =~= roms@.take(i as int));
        }
        match roms[i].set {
            Some(v) => r.push(v),
            None => {},
        }
        i += 1;
    }
    proof {
        assert(roms@.take(roms.len() as int) =~= roms@);
    }
    r
}

/// The ROMs of set `id`, in order.
fn roms_of_set(roms: &Vec<RomConfig>, id: usize) -> (r: Vec<RomConfig>)
    ensures
        r@ == roms_in_set(roms@, id),
{
    let mut r: Vec<RomConfig> = Vec::new();
    let mut i: usize = 0;
    while i < roms.len()
        invariant
            i <= roms.len(),
            r@ == roms_in_set(roms@.take(i as int), id),
        decreases roms.len() - i,
    {
        proof {
            assert(roms@.take(i + 1).drop_last() =~= roms@.take(i as int));
        }
        if roms[i].set == Some(id) {
            r.push(roms[i].clone());
        }
        i += 1;
    }
    proof {
        assert(roms@.take(roms.len() as int) =~= roms@);
    }
    r
}

/// The bank numbers given by the ROMs, in order.
fn bank_values_of(roms: &Vec<RomConfig>) -> (r: Vec<usize>)
    ensures
        r@ == bank_values(roms@),
{
    let mut r: Vec<usize> = Vec::new();
    let mut i: usize = 0;
    while i < roms.len()
        invariant
            i <= roms.len(),
            r@ == bank_values(roms@.take(i as int)),
        decreases roms.len() - i,
    {
        proof {
            assert(roms@.take(i + 1).drop_last() =~= roms@.take(i as int));
        }
        match roms[i].bank {
            Some(v) => r.push(v),
            None => {},
        }
        i += 1;
    }
    proof {
        assert(roms@.take(roms.len() as int) =~= roms@);
    }
    r
}

fn set_prefix_string(id: usize) -> (s: String)
    ensures
        s@ == set_prefix(id),
{
    let mut s = String::from_str("Set ");
    push_decimal(&mut s, id as u64);
    push_str(&mut s, ": ");
    s
}

/// The first ROM of `rs` whose type differs from the first ROM's.
fn find_type_mismatch(rs: &Vec<RomConfig>) -> (r: Option<usize>)
    requires
        rs.len() > 0,
    ensures
        r is Some <==> type_mismatch(rs@, 1) is Some,
        r matches Some(j) ==> type_mismatch(rs@, 1) == Some(j as int) && 0 < j < rs.len(),
{
    let mut j: usize = 1;
    while j < rs.len()
        invariant
            1 <= j <= rs.len(),
            type_mismatch(rs@, 1) == type_mismatch(rs@, j as int),
        decreases rs.len() - j,
    {
        if rs[j].rom_type != rs[0].rom_type {
            return Some(j);
        }
        j += 1;
    }
    None
}

/// Whether some ROM of `rs` after the first has other CS settings.
fn find_cs_mismatch(rs: &Vec<RomConfig>) -> (r: bool)
    requires
        rs.len() > 0,
    ensures
        r == cs_mismatch(rs@, 1),
{
    let mut j: usize = 1;
    while j < rs.len()
        invariant
            1 <= j <= rs.len(),
            cs_mismatch(rs@, 1) == cs_mismatch(rs@, j as int),
        decreases rs.len() - j,
    {
        if rs[j].cs_config != rs[0].cs_config {
            return true;
        }
        j += 1;
    }
    false
}

impl Config {
    /// Checks one set of ROMs (see [`Config::spec_set_error`]).
    fn check_set(&self, id: usize) -> (r: Result<(), String>)
        requires
            self.hw.x_pins_in_range(),
        ensures
            message_matches(r, self.spec_set_error(id)),
    {
        let rs = roms_of_set(&self.roms, id);
        let banks = bank_values_of(&rs);
        let mv = self.mcu_variant;
        if banks.len() > 0 {
            if !self.hw.supports_banked_roms() {
                return Err(
                    String::from_str(
                        "Bank switched sets of ROMs are only supported on hardware revision F onwards",
                    ),
                );
            }
            if !mv.supports_banked_roms() {
                let mut s = set_prefix_string(id);
                push_str(&mut s, "banked ROMs are not supported on STM32 variant ");
                push_str(&mut s, mv.makefile_var());
                push_str(&mut s, " due to lack of RAM and/or flash");
                return Err(s);
            }
            if banks.len() != rs.len() {
                let mut s = set_prefix_string(id);
                push_str(&mut s, "when using banks, all ROMs in the set must specify a bank number");
                return Err(s);
            }
            if rs.len() > 4 {
                let mut s = set_prefix_string(id);
                push_str(&mut s, "banked sets can contain maximum 4 ROMs, found ");
                push_decimal(&mut s, rs.len() as u64);
                return Err(s);
            }
            let uniq = dedup_values(&banks);
            match first_missing_value(&banks, uniq.len()) {
                Some(m) => {
                    let mut s = set_prefix_string(id);
                    push_str(&mut s, "bank numbers must be sequential starting from 0. Missing bank ");
                    push_decimal(&mut s, m as u64);
                    return Err(s);
                },
                None => {},
            }
            match find_type_mismatch(&rs) {
                Some(j) => {
                    let mut s = set_prefix_string(id);
                    push_str(&mut s, "all ROMs in a banked set must have the same type. Found ");
                    push_str(&mut s, rs[0].rom_type.name());
                    push_str(&mut s, " and ");
                    push_str(&mut s, rs[j].rom_type.name());
                    return Err(s);
                },
                None => {},
            }
            if find_cs_mismatch(&rs) {
                let mut s = set_prefix_string(id);
                push_str(&mut s, "all ROMs in a banked set must have the same CS configuration");
                return Err(s);
            }
            Ok(())
        } else {
            if !self.hw.supports_multi_rom_sets() {
                return Err(
                    String::from_str(
                        "Multi-ROM sets of ROMs are only supported on hardware revision F onwards",
                    ),
                );
            }
            if rs.len() > 1 && !mv.supports_multi_rom_sets() {
                let mut s = set_prefix_string(id);
                push_str(&mut s, "multi-set ROMs are not supported on STM32 variant ");
                push_str(&mut s, mv.makefile_var());
                push_str(&mut s, " due to lack of RAM and/or flash");
                return Err(s);
            }
            if rs.len() > 3 {
                let mut s = set_prefix_string(id);
                push_str(&mut s, "multi-ROM sets can contain maximum 3 ROMs, found ");
                push_decimal(&mut s, rs.len() as u64);
                return Err(s);
            }
            Ok(())
        }
    }
}

impl Config {
    /// Runs the CS check of each ROM, stopping at the first failure.
    fn check_cs_configs(&self) -> (r: Result<(), String>)
        requires
            cs_scan_ok(self.roms@, 0),
        ensures
            message_matches(r, cs_scan(self.roms@, 0)),
    {
        let mut i: usize = 0;
        while i < self.roms.len()
            invariant
                i <= self.roms.len(),
                cs_scan(self.roms@, 0) == cs_scan(self.roms@, i as int),
                cs_scan_ok(self.roms@, i as int),
            decreases self.roms.len() - i,
        {
            let rom = &self.roms[i];
            match rom.cs_config.validate(&rom.rom_type) {
                Err(e) => {
                    return Err(e);
                },
                Ok(()) => {},
            }
            i += 1;
        }
        Ok(())
    }

    /// The checks made before the frequency: ROMs given, their chip
    /// selects, existing output, the status LED and the MCU family (see
    /// [`Config::spec_validate_head`]).
    pub fn check_head(&self, existing_output: &Option<String>) -> (r: Result<(), String>)
        requires
            cs_scan_ok(self.roms@, 0),
        ensures
            message_matches(r, self.spec_validate_head(opt_view(*existing_output))),
    {
        if self.roms.len() == 0 {
            return Err(String::from_str("At least one ROM image must be provided"));
        }
        match self.check_cs_configs() {
            Err(e) => {
                return Err(e);
            },
            Ok(()) => {},
        }
        if !self.overwrite {
            match existing_output {
                Some(path) => {
                    let mut s = String::from_str("Output file '");
                    push_str(&mut s, path.as_str());
                    push_str(&mut s, "' already exists. Use --overwrite to overwrite.");
                    return Err(s);
                },
                None => {},
            }
        }
        if self.status_led && (self.hw.mcu.ports.status_port == Port::PortNone
            || self.hw.mcu.pins.status == 255) {
            return Err(
                String::from_str(
                    "Status LED enabled but no status LED pin configured for selected hardware",
                ),
            );
        }
        if self.mcu_variant.family() != self.hw.mcu.family {
            let mut s = String::from_str("STM32 variant ");
            push_str(&mut s, self.mcu_variant.makefile_var());
            push_str(&mut s, " does not match hardware family ");
            let fam = self.hw.mcu.family.to_string();
            push_str(&mut s, fam.as_str());
            return Err(s);
        }
        Ok(())
    }

    /// Checks the configuration before anything is generated: the first
    /// problem found is returned as a message (see [`Config::spec_validate`]).
    /// `existing_output` is the first of the output files that already
    /// exists in the output directory, if any.
    pub fn validate(&mut self, existing_output: Option<String>) -> (r: Result<(), String>)
        requires
            old(self).validate_ok(opt_view(existing_output)),
        ensures
            *final(self) == *old(self),
            message_matches(r, old(self).spec_validate(opt_view(existing_output))),
    {
        match self.check_head(&existing_output) {
            Err(e) => {
                return Err(e);
            },
            Ok(()) => {},
        }
        let mv = self.mcu_variant;
        if !mv.is_frequency_valid(self.freq, self.overclock) {
            let mut s = String::from_str("Frequency ");
            push_decimal(&mut s, self.freq as u64);
            push_str(&mut s, "MHz is not valid for variant ");
            push_str(&mut s, mv.makefile_var());
            push_str(&mut s, ". Valid range: 16-");
            push_decimal(&mut s, mv.processor().max_sysclk_mhz() as u64);
            push_str(&mut s, "MHz");
            return Err(s);
        }
        if self.hw.has_usb() && !mv.supports_usb_dfu() {
            let mut s = String::from_str("Selected hardware ");
            push_str(&mut s, self.hw.name.as_str());
            push_str(&mut s, " has USB, but variant ");
            push_str(&mut s, mv.debug_name());
            push_str(&mut s, " does not support USB");
            return Err(s);
        }
        let vals = set_values_of(&self.roms);
        if vals.len() == 0 {
            return Ok(());
        }
        if vals.len() != self.roms.len() {
            return Err(String::from_str("When using sets, all ROMs must specify a set number"));
        }
        let uniq = dedup_values(&vals);
        match first_missing_value(&vals, uniq.len()) {
            Some(m) => {
                let mut s = String::from_str(
                    "ROM sets must be numbered sequentially starting from 0. Missing set ",
                );
                push_decimal(&mut s, m as u64);
                return Err(s);
            },
            None => {},
        }
        let k = uniq.len();
        let mut id: usize = 0;
        while id < k
            invariant
                id <= k,
                k == dedup(set_values(self.roms@)).len(),
                self.hw.x_pins_in_range(),
                self.spec_validate(opt_view(existing_output)) == self.set_scan(id as nat, k as nat),
            decreases k - id,
        {
            match self.check_set(id) {
                Err(e) => {
                    return Err(e);
                },
                Ok(()) => {},
            }
            id += 1;
        }
        Ok(())
    }
}

/// Whether `s` is strictly increasing.
pub open spec fn strictly_increasing(s: Seq<usize>) -> bool {
    forall|i: int, j: int| 0 <= i < j < s.len() ==> s[i] < s[j]
}

proof fn lemma_push_contains(s: Seq<usize>, y: usize, x: usize)
    ensures
        s.push(y).contains(x) <==> (s.contains(x) || x == y),
{
    if s.push(y).contains(x) && x != y {
        let j = choose|j: int| 0 <= j < s.push(y).len() && s.push(y)[j] == x;
        assert(s[j] == x);
    }
    if s.contains(x) {
        let j = choose|j: int| 0 <= j < s.len() && s[j] == x;
        assert(s.push(y)[j] == x);
    }
    if x == y {
        assert(s.push(y)[s.len() as int] == x);
    }
}

proof fn lemma_take_contains(s: Seq<usize>, t: int, x: usize)
    requires
        0 <= t < s.len(),
    ensures
        s.take(t + 1).contains(x) <==> (s.take(t).contains(x) || x == s[t]),
{
    assert(s.take(t + 1) =~= s.take(t).push(s[t]));
    lemma_push_contains(s.take(t), s[t], x);
}

/// The distinct values of `vals`, in increasing order.
fn sorted_distinct(vals: &Vec<usize>) -> (ids: Vec<usize>)
    ensures
        strictly_increasing(ids@),
        forall|x: usize| ids@.contains(x) <==> vals@.contains(x),
{
    let mut ids: Vec<usize> = Vec::new();
    let mut rest: Vec<usize> = vals.clone();
    assert(rest@ =~= vals@);
    while rest.len() > 0
        invariant
            strictly_increasing(ids@),
            forall|x: usize| vals@.contains(x) <==> (ids@.contains(x) || rest@.contains(x)),
            ids@.len() > 0 ==> forall|j: int| 0 <= j < rest@.len() ==> rest@[j] > ids@.last(),
        decreases rest.len(),
    {
        let mut mi: usize = 0;
        let mut j: usize = 1;
        while j < rest.len()
            invariant
                mi < rest.len(),
                1 <= j <= rest.len(),
                forall|t: int| 0 <= t < j ==> rest@[mi as int] <= rest@[t],
            decreases rest.len() - j,
        {
            if rest[j] < rest[mi] {
                mi = j;
            }
            j += 1;
        }
        let m = rest[mi];
        let mut rest2: Vec<usize> = Vec::new();
        let mut t: usize = 0;
        while t < rest.len()
            invariant
                t <= rest.len(),
                mi < rest.len(),
                m == rest@[mi as int],
                forall|q: int| 0 <= q < rest@.len() ==> m <= rest@[q],
                forall|x: usize| rest2@.contains(x) <==> (x != m && rest@.take(t as int).contains(x)),
                forall|q: int| 0 <= q < rest2@.len() ==> rest2@[q] > m,
                rest2@.len() <= t,
                t > mi ==> rest2@.len() < t,
            decreases rest.len() - t,
        {
            let v = rest[t];
            let ghost before = rest2@;
            if v != m {
                rest2.push(v);
            }
            proof {
                assert forall|x: usize| rest2@.contains(x) <==> (x != m && rest@.take(t + 1).contains(x)) by {
                    lemma_take_contains(rest@, t as int, x);
                    lemma_push_contains(before, v, x);
                }
            }
            t += 1;
        }
        proof {
            assert(rest@.take(rest@.len() as int) =~= rest@);
            assert(rest@[mi as int] == m);
            assert(rest@.contains(m));
        }
        let ghost ids0 = ids@;
        let ghost rest0 = rest@;
        ids.push(m);
        rest = rest2;
        proof {
            assert forall|x: usize| vals@.contains(x) <==> (ids@.contains(x) || rest@.contains(x)) by {
                lemma_push_contains(ids0, m, x);
                if x == m {
                    assert(rest0.contains(x));
                }
            }
        }
    }
    ids
}

/// How many ROMs have an image: the ROMs and the images are walked together.
pub open spec fn zipped_len(roms: Seq<RomConfig>, images: Seq<RomImage>) -> int {
    if roms.len() <= images.len() {
        roms.len() as int
    } else {
        images.len() as int
    }
}

/// `e` holds ROM `e.original_index` of the configuration, which has an image,
/// together with that image.
pub open spec fn entry_of(e: RomInSet, roms: Seq<RomConfig>, images: Seq<RomImage>) -> bool {
    &&& e.original_index < zipped_len(roms, images)
    &&& e.config == roms[e.original_index as int]
    &&& e.image.data@ == images[e.original_index as int].data@
}

/// Whether `a` comes before `b` in a set: in a banked set by bank number,
/// then by position in the configuration; otherwise by position.
pub open spec fn entry_before(a: RomInSet, b: RomInSet, banked: bool) -> bool {
    if banked {
        ||| a.config.bank.unwrap() < b.config.bank.unwrap()
        ||| (a.config.bank.unwrap() == b.config.bank.unwrap() && a.original_index
            < b.original_index)
    } else {
        a.original_index < b.original_index
    }
}

/// Whether some ROM with an image in set `id` gives a bank number.
pub open spec fn set_has_bank(roms: Seq<RomConfig>, images: Seq<RomImage>, id: usize) -> bool {
    exists|i: int|
        0 <= i < zipped_len(roms, images) && #[trigger] roms[i].set == Some(id) && roms[i].bank is Some
}

/// Set `s` holds exactly the ROMs with an image whose set is `s.id`, each
/// once and in order, and is banked when one of them gives a bank.
pub open spec fn set_built(s: RomSet, roms: Seq<RomConfig>, images: Seq<RomImage>) -> bool {
    &&& s.is_banked == set_has_bank(roms, images, s.id)
    &&& forall|k: int|
        0 <= k < s.roms@.len() ==> entry_of(#[trigger] s.roms@[k], roms, images)
            && s.roms@[k].config.set == Some(s.id)
    &&& forall|k1: int, k2: int|
        0 <= k1 < k2 < s.roms@.len() ==> entry_before(
            #[trigger] s.roms@[k1],
            #[trigger] s.roms@[k2],
            s.is_banked,
        )
    &&& forall|i: int|
        0 <= i < zipped_len(roms, images) && #[trigger] roms[i].set == Some(s.id) ==> exists|
            k: int,
        |
            0 <= k < s.roms@.len() && #[trigger] s.roms@[k].original_index == i
}

/// Set `s` holds ROM `i` alone, as set number `i`.
pub open spec fn lone_set(s: RomSet, roms: Seq<RomConfig>, images: Seq<RomImage>, i: int) -> bool {
    &&& s.id == i
    &&& !s.is_banked
    &&& s.roms@.len() == 1
    &&& s.roms@[0].original_index == i
    &&& entry_of(s.roms@[0], roms, images)
}

/// A set that gives banks gives one for each of its ROMs with an image.
pub open spec fn banks_unmixed(roms: Seq<RomConfig>, images: Seq<RomImage>) -> bool {
    forall|i: int, j: int|
        0 <= i < zipped_len(roms, images) && 0 <= j < zipped_len(roms, images)
            && roms[i].set is Some && #[trigger] roms[i].set == #[trigger] roms[j].set
            && roms[i].bank is Some ==> roms[j].bank is Some
}

/// `sets` are the sets the ROMs with an image make up: without set numbers
/// one set per ROM, numbered by position; otherwise one set per set number
/// given, in increasing order, each built from its ROMs.
pub open spec fn rom_sets_built(sets: Seq<RomSet>, roms: Seq<RomConfig>, images: Seq<RomImage>) -> bool {
    if set_values(roms).len() == 0 {
        &&& sets.len() == zipped_len(roms, images)
        &&& forall|i: int| 0 <= i < sets.len() ==> lone_set(#[trigger] sets[i], roms, images, i)
    } else {
        &&& strictly_increasing(set_ids(sets))
        &&& forall|x: usize| set_ids(sets).contains(x) <==> set_values(roms).contains(x)
        &&& forall|k: int| 0 <= k < sets.len() ==> set_built(#[trigger] sets[k], roms, images)
    }
}

/// The ids of the sets, in order.
pub open spec fn set_ids(sets: Seq<RomSet>) -> Seq<usize> {
    sets.map_values(|s: RomSet| s.id)
}

impl Config {
    /// The ROMs with an image of set `id`, in configuration order.
    fn collect_set(&self, rom_images: &[RomImage], id: usize) -> (r: (Vec<RomInSet>, bool))
        ensures
            r.1 == set_has_bank(self.roms@, rom_images@, id),
            forall|k: int|
                0 <= k < r.0@.len() ==> entry_of(#[trigger] r.0@[k], self.roms@, rom_images@)
                    && r.0@[k].config.set == Some(id),
            forall|k1: int, k2: int|
                0 <= k1 < k2 < r.0@.len() ==> entry_before(
                    #[trigger] r.0@[k1],
                    #[trigger] r.0@[k2],
                    false,
                ),
            forall|i: int|
                0 <= i < zipped_len(self.roms@, rom_images@) && #[trigger] self.roms@[i].set == Some(
                    id,
                ) ==> exists|k: int| 0 <= k < r.0@.len() && #[trigger] r.0@[k].original_index == i,
    {
        let n = if self.roms.len() <= rom_images.len() {
            self.roms.len()
        } else {
            rom_images.len()
        };
        let mut entries: Vec<RomInSet> = Vec::new();
        let mut banked = false;
        let mut i: usize = 0;
        while i < n
            invariant
                i <= n,
                n == zipped_len(self.roms@, rom_images@),
                banked == exists|i1: int|
                    0 <= i1 < i && #[trigger] self.roms@[i1].set == Some(id) && self.roms@[i1].bank is Some,
                forall|k: int|
                    0 <= k < entries@.len() ==> entry_of(#[trigger] entries@[k], self.roms@, rom_images@)
                        && entries@[k].config.set == Some(id) && entries@[k].original_index < i,
                forall|k1: int, k2: int|
                    0 <= k1 < k2 < entries@.len() ==> entry_before(
                        #[trigger] entries@[k1],
                        #[trigger] entries@[k2],
                        false,
                    ),
                forall|i1: int|
                    0 <= i1 < i && #[trigger] self.roms@[i1].set == Some(id) ==> exists|k: int|
                        0 <= k < entries@.len() && #[trigger] entries@[k].original_index == i1,
            decreases n - i,
        {
            if self.roms[i].set == Some(id) {
                if self.roms[i].bank.is_some() {
                    banked = true;
                }
                let e = RomInSet {
                    config: self.roms[i].clone(),
                    image: rom_images[i].clone(),
                    original_index: i,
                };
                let ghost before = entries@;
                entries.push(e);
                proof {
                    assert forall|i1: int|
                        0 <= i1 < i + 1 && #[trigger] self.roms@[i1].set == Some(id) implies exists|k: int|
                        0 <= k < entries@.len() && #[trigger] entries@[k].original_index == i1 by {
                        if i1 == i {
                            assert(entries@[before.len() as int].original_index == i1);
                        } else {
                            let k = choose|k: int|
                                0 <= k < before.len() && #[trigger] before[k].original_index == i1;
                            assert(entries@[k].original_index == i1);
                        }
                    }
                }
            }
            i += 1;
        }
        (entries, banked)
    }
}

/// Whether `a` comes before `b` in a banked set.
fn comes_before(a: &RomInSet, b: &RomInSet) -> (r: bool)
    requires
        a.config.bank is Some,
        b.config.bank is Some,
    ensures
        r == entry_before(*a, *b, true),
{
    let ba = a.config.bank.unwrap();
    let bb = b.config.bank.unwrap();
    ba < bb || (ba == bb && a.original_index < b.original_index)
}

/// Whether `s` is in banked-set order.
#[verifier::opaque]
pub open spec fn in_bank_order(s: Seq<RomInSet>) -> bool {
    forall|k1: int, k2: int| 0 <= k1 < k2 < s.len() ==> entry_before(#[trigger] s[k1], #[trigger] s[k2], true)
}

/// Every entry of `out` is one of the first `m` of `orig`.
#[verifier::opaque]
pub open spec fn drawn_from(out: Seq<RomInSet>, orig: Seq<RomInSet>, m: int) -> bool {
    forall|k: int| 0 <= k < out.len() ==> exists|j: int| 0 <= j < m && #[trigger] orig[j] == #[trigger] out[k]
}

/// Each of the first `m` entries of `orig` has its position in `out`.
#[verifier::opaque]
pub open spec fn covers(out: Seq<RomInSet>, orig: Seq<RomInSet>, m: int) -> bool {
    forall|j: int|
        0 <= j < m ==> exists|k: int|
            0 <= k < out.len() && (#[trigger] out[k]).original_index == (#[trigger] orig[j]).original_index
}

proof fn lemma_insert_in_order(out0: Seq<RomInSet>, e: RomInSet, p: int)
    requires
        0 <= p <= out0.len(),
        in_bank_order(out0),
        e.config.bank is Some,
        forall|k: int| 0 <= k < out0.len() ==> (#[trigger] out0[k]).config.bank is Some
            && out0[k].original_index < e.original_index,
        forall|k: int| 0 <= k < p ==> entry_before(#[trigger] out0[k], e, true),
        p < out0.len() ==> !entry_before(out0[p], e, true),
    ensures
        in_bank_order(out0.insert(p, e)),
{
    reveal(in_bank_order);
    let out = out0.insert(p, e);
    assert forall|k1: int, k2: int| 0 <= k1 < k2 < out.len() implies entry_before(
        #[trigger] out[k1],
        #[trigger] out[k2],
        true,
    ) by {
        if k2 < p {
            assert(out[k1] == out0[k1] && out[k2] == out0[k2]);
        } else if k2 == p {
            assert(out[k1] == out0[k1]);
        } else if k1 < p {
            assert(out[k1] == out0[k1] && out[k2] == out0[k2 - 1]);
        } else if k1 == p {
            assert(out[k2] == out0[k2 - 1]);
            if p < k2 - 1 {
                assert(entry_before(out0[p], out0[k2 - 1], true));
            }
        } else {
            assert(out[k1] == out0[k1 - 1] && out[k2] == out0[k2 - 1]);
        }
    }
}

proof fn lemma_insert_members(out0: Seq<RomInSet>, orig: Seq<RomInSet>, e: RomInSet, p: int, start: int)
    requires
        0 <= p <= out0.len(),
        0 <= start < orig.len(),
        e == orig[start],
        drawn_from(out0, orig, start),
        covers(out0, orig, start),
    ensures
        drawn_from(out0.insert(p, e), orig, start + 1),
        covers(out0.insert(p, e), orig, start + 1),
{
    reveal(drawn_from);
    reveal(covers);
    let out = out0.insert(p, e);
    assert forall|k: int| 0 <= k < out.len() implies exists|j: int|
        0 <= j < start + 1 && #[trigger] orig[j] == #[trigger] out[k] by {
        if k < p {
            assert(out[k] == out0[k]);
            let j = choose|j: int| 0 <= j < start && #[trigger] orig[j] == #[trigger] out0[k];
            assert(orig[j] == out[k]);
        } else if k == p {
            assert(orig[start] == out[k]);
        } else {
            assert(out[k] == out0[k - 1]);
            let j = choose|j: int| 0 <= j < start && #[trigger] orig[j] == #[trigger] out0[k - 1];
            assert(orig[j] == out[k]);
        }
    }
    assert forall|j: int| 0 <= j < start + 1 implies exists|k: int|
        0 <= k < out.len() && (#[trigger] out[k]).original_index == (#[trigger] orig[j]).original_index by {
        if j == start {
            assert(out[p].original_index == orig[j].original_index);
        } else {
            let k = choose|k: int|
                0 <= k < out0.len() && (#[trigger] out0[k]).original_index == (#[trigger] orig[j]).original_index;
            if k < p {
                assert(out[k] == out0[k]);
            } else {
                assert(out[k + 1] == out0[k]);
            }
        }
    }
}

proof fn lemma_drawn_facts(out: Seq<RomInSet>, orig: Seq<RomInSet>, start: int)
    requires
        0 <= start < orig.len(),
        drawn_from(out, orig, start),
        forall|q: int| 0 <= q < orig.len() ==> (#[trigger] orig[q]).config.bank is Some,
        forall|q1: int, q2: int|
            0 <= q1 < q2 < orig.len() ==> (#[trigger] orig[q1]).original_index
                < (#[trigger] orig[q2]).original_index,
    ensures
        forall|k: int| 0 <= k < out.len() ==> (#[trigger] out[k]).config.bank is Some
            && out[k].original_index < orig[start].original_index,
{
    reveal(drawn_from);
    assert forall|k: int| 0 <= k < out.len() implies (#[trigger] out[k]).config.bank is Some
        && out[k].original_index < orig[start].original_index by {
        let j = choose|j: int| 0 <= j < start && #[trigger] orig[j] == #[trigger] out[k];
        assert(orig[j] == out[k]);
    }
}

/// The entries of a banked set put in bank order; entries of one bank keep
/// their order (a stable sort by bank number).
fn sort_by_bank(entries: Vec<RomInSet>) -> (out: Vec<RomInSet>)
    requires
        forall|q: int| 0 <= q < entries@.len() ==> (#[trigger] entries@[q]).config.bank is Some,
        forall|q1: int, q2: int|
            0 <= q1 < q2 < entries@.len() ==> (#[trigger] entries@[q1]).original_index
                < (#[trigger] entries@[q2]).original_index,
    ensures
        out@.len() == entries@.len(),
        drawn_from(out@, entries@, entries@.len() as int),
        covers(out@, entries@, entries@.len() as int),
        in_bank_order(out@),
{
    let ghost orig = entries@;
    let mut rest = entries;
    let mut out: Vec<RomInSet> = Vec::new();
    proof {
        reveal(drawn_from);
        reveal(covers);
        reveal(in_bank_order);
    }
    while rest.len() > 0
        invariant
            out@.len() + rest@.len() == orig.len(),
            forall|q: int| 0 <= q < rest@.len() ==> #[trigger] rest@[q] == orig[out@.len() + q],
            forall|q: int| 0 <= q < orig.len() ==> (#[trigger] orig[q]).config.bank is Some,
            forall|q1: int, q2: int|
                0 <= q1 < q2 < orig.len() ==> (#[trigger] orig[q1]).original_index
                    < (#[trigger] orig[q2]).original_index,
            drawn_from(out@, orig, orig.len() - rest@.len()),
            covers(out@, orig, orig.len() - rest@.len()),
            in_bank_order(out@),
        decreases rest@.len(),
    {
        let ghost start = orig.len() - rest@.len();
        let ghost out0 = out@;
        let e = rest.remove(0);
        assert(e == orig[start]);
        proof {
            lemma_drawn_facts(out@, orig, start);
        }
        let mut p: usize = 0;
        while p < out.len()
            invariant
                p <= out@.len(),
                out@ == out0,
                e.config.bank is Some,
                forall|k: int| 0 <= k < out@.len() ==> (#[trigger] out@[k]).config.bank is Some
                    && out@[k].original_index < e.original_index,
                forall|k: int| 0 <= k < p ==> entry_before(#[trigger] out@[k], e, true),
            ensures
                p <= out@.len(),
                out@ == out0,
                forall|k: int| 0 <= k < p ==> entry_before(#[trigger] out@[k], e, true),
                p < out@.len() ==> !entry_before(out@[p as int], e, true),
            decreases out@.len() - p,
        {
            if !comes_before(&out[p], &e) {
                break;
            }
            p += 1;
        }
        proof {
            lemma_insert_in_order(out0, e, p as int);
            lemma_insert_members(out0, orig, e, p as int, start);
        }
        out.insert(p, e);
    }
    out
}

proof fn lemma_banked_entries(
    entries: Seq<RomInSet>,
    roms: Seq<RomConfig>,
    images: Seq<RomImage>,
    id: usize,
)
    requires
        banks_unmixed(roms, images),
        set_has_bank(roms, images, id),
        forall|k: int|
            0 <= k < entries.len() ==> entry_of(#[trigger] entries[k], roms, images)
                && entries[k].config.set == Some(id),
    ensures
        forall|q: int| 0 <= q < entries.len() ==> (#[trigger] entries[q]).config.bank is Some,
{
    let i0 = choose|i: int|
        0 <= i < zipped_len(roms, images) && #[trigger] roms[i].set == Some(id) && roms[i].bank is Some;
    assert forall|q: int| 0 <= q < entries.len() implies (#[trigger] entries[q]).config.bank is Some by {
        let oi = entries[q].original_index as int;
        assert(entry_of(entries[q], roms, images));
        assert(roms[oi].set == roms[i0].set);
    }
}

proof fn lemma_sorted_set(
    entries: Seq<RomInSet>,
    sorted: Seq<RomInSet>,
    roms: Seq<RomConfig>,
    images: Seq<RomImage>,
    id: usize,
)
    requires
        forall|k: int|
            0 <= k < entries.len() ==> entry_of(#[trigger] entries[k], roms, images)
                && entries[k].config.set == Some(id),
        forall|i: int|
            0 <= i < zipped_len(roms, images) && #[trigger] roms[i].set == Some(id) ==> exists|k: int|
                0 <= k < entries.len() && #[trigger] entries[k].original_index == i,
        drawn_from(sorted, entries, entries.len() as int),
        covers(sorted, entries, entries.len() as int),
    ensures
        forall|k: int|
            0 <= k < sorted.len() ==> entry_of(#[trigger] sorted[k], roms, images)
                && sorted[k].config.set == Some(id),
        forall|i: int|
            0 <= i < zipped_len(roms, images) && #[trigger] roms[i].set == Some(id) ==> exists|k: int|
                0 <= k < sorted.len() && #[trigger] sorted[k].original_index == i,
{
    reveal(drawn_from);
    reveal(covers);
    assert forall|k: int| 0 <= k < sorted.len() implies entry_of(#[trigger] sorted[k], roms, images)
        && sorted[k].config.set == Some(id) by {
        let j = choose|j: int| 0 <= j < entries.len() && #[trigger] entries[j] == #[trigger] sorted[k];
        assert(entries[j] == sorted[k]);
    }
    assert forall|i: int|
        0 <= i < zipped_len(roms, images) && #[trigger] roms[i].set == Some(id) implies exists|k: int|
        0 <= k < sorted.len() && #[trigger] sorted[k].original_index == i by {
        let j = choose|j: int| 0 <= j < entries.len() && #[trigger] entries[j].original_index == i;
        let k = choose|k: int|
            0 <= k < sorted.len() && (#[trigger] sorted[k]).original_index == (#[trigger] entries[j]).original_index;
        assert(sorted[k].original_index == i);
    }
}

impl Config {
    /// Set `id` built from the ROMs with an image.
    fn build_set(&self, rom_images: &[RomImage], id: usize) -> (s: RomSet)
        requires
            banks_unmixed(self.roms@, rom_images@),
        ensures
            s.id == id,
            set_built(s, self.roms@, rom_images@),
    {
        let (entries, banked) = self.collect_set(rom_images, id);
        if banked {
            proof {
                lemma_banked_entries(entries@, self.roms@, rom_images@, id);
            }
            let ghost e = entries@;
            let sorted = sort_by_bank(entries);
            proof {
                lemma_sorted_set(e, sorted@, self.roms@, rom_images@, id);
                reveal(in_bank_order);
            }
            RomSet { id, roms: sorted, is_banked: true }
        } else {
            RomSet { id, roms: entries, is_banked: false }
        }
    }

    /// Groups the ROMs, each with its image, into the sets to be served.
    /// Without set numbers each ROM is a set of its own, numbered by its
    /// position; otherwise there is one set per set number, in increasing
    /// order, holding that number's ROMs in configuration order, or in bank
    /// order (a stable sort) when one of them gives a bank.  ROMs and images
    /// are paired by position, as far as both go.
    pub fn create_rom_sets(&self, rom_images: &[RomImage]) -> (r: Result<Vec<RomSet>, String>)
        requires
            banks_unmixed(self.roms@, rom_images@),
        ensures
            r matches Ok(sets) && rom_sets_built(sets@, self.roms@, rom_images@),
    {
        let vals = set_values_of(&self.roms);
        let mut out: Vec<RomSet> = Vec::new();
        if vals.len() == 0 {
            let n = if self.roms.len() <= rom_images.len() {
                self.roms.len()
            } else {
                rom_images.len()
            };
            let mut i: usize = 0;
            while i < n
                invariant
                    i <= n,
                    n == zipped_len(self.roms@, rom_images@),
                    out@.len() == i,
                    forall|i1: int|
                        0 <= i1 < i ==> lone_set(#[trigger] out@[i1], self.roms@, rom_images@, i1),
                decreases n - i,
            {
                let mut entries: Vec<RomInSet> = Vec::new();
                entries.push(
                    RomInSet {
                        config: self.roms[i].clone(),
                        image: rom_images[i].clone(),
                        original_index: i,
                    },
                );
                out.push(RomSet { id: i, roms: entries, is_banked: false });
                i += 1;
            }
            return Ok(out);
        }
        let ids = sorted_distinct(&vals);
        let mut k: usize = 0;
        while k < ids.len()
            invariant
                k <= ids@.len(),
                out@.len() == k,
                banks_unmixed(self.roms@, rom_images@),
                set_ids(out@) == ids@.take(k as int),
                forall|k1: int| 0 <= k1 < out@.len() ==> set_built(#[trigger] out@[k1], self.roms@, rom_images@),
            decreases ids@.len() - k,
        {
            let set = self.build_set(rom_images, ids[k]);
            let ghost out0 = out@;
            out.push(set);
            proof {
                assert forall|q: int| 0 <= q < out@.len() implies set_ids(out@)[q] == ids@.take(k + 1)[q] by {
                    if q < k {
                        assert(out@[q] == out0[q]);
                        assert(set_ids(out0)[q] == ids@.take(k as int)[q]);
                    }
                }
                assert(set_ids(out@) =~= ids@.take(k + 1));
            }
            k += 1;
        }
        assert(ids@.take(ids@.len() as int) =~= ids@);
        Ok(out)
    }
}

/// The chip select settings a supported ROM type accepts give CS1 a sense
/// and exactly as many lines as the type has.
pub proof fn law_cs_config_line_count(cs: CsConfig, rom_type: RomType)
    requires
        rom_type != RomType::Rom23128,
        cs.spec_validate(rom_type) is None,
    ensures
        cs.cs1 != CsLogic::Ignore,
        1 + (if cs.cs2 is Some { 1int } else { 0 }) + (if cs.cs3 is Some { 1int } else { 0 })
            == rom_type.spec_cs_lines_count(),
{
}

proof fn lemma_set_values_contains(roms: Seq<RomConfig>, i: int)
    requires
        0 <= i < roms.len(),
        roms[i].set is Some,
    ensures
        set_values(roms).contains(roms[i].set.unwrap()),
    decreases roms.len(),
{
    let v = roms[i].set.unwrap();
    let d = roms.drop_last();
    if i == roms.len() - 1 {
        assert(set_values(roms) == set_values(d).push(v));
        assert(set_values(roms)[set_values(d).len() as int] == v);
    } else {
        lemma_set_values_contains(d, i);
        let j = choose|j: int| 0 <= j < set_values(d).len() && set_values(d)[j] == v;
        match roms.last().set {
            Some(w) => {
                assert(set_values(roms) == set_values(d).push(w));
                assert(set_values(roms)[j] == v);
            },
            None => {},
        }
    }
}

/// Each ROM that has an image, and gives a set number when any ROM does, is
/// in exactly one of the sets built, once: in the set of its own number, or
/// alone in set number `i` when no ROM gives a set number.
pub proof fn law_rom_sets_partition(
    sets: Seq<RomSet>,
    roms: Seq<RomConfig>,
    images: Seq<RomImage>,
    i: int,
)
    requires
        rom_sets_built(sets, roms, images),
        0 <= i < zipped_len(roms, images),
        set_values(roms).len() > 0 ==> roms[i].set is Some,
    ensures
        exists|k: int, j: int|
            0 <= k < sets.len() && 0 <= j < sets[k].roms@.len() && #[trigger] sets[k].roms@[j].original_index
                == i,
        forall|k1: int, j1: int, k2: int, j2: int|
            0 <= k1 < sets.len() && 0 <= j1 < sets[k1].roms@.len() && 0 <= k2 < sets.len() && 0 <= j2
                < sets[k2].roms@.len() && #[trigger] sets[k1].roms@[j1].original_index == i
                && #[trigger] sets[k2].roms@[j2].original_index == i ==> k1 == k2 && j1 == j2,
{
    if set_values(roms).len() == 0 {
        assert(lone_set(sets[i], roms, images, i));
        assert(sets[i].roms@[0].original_index == i);
        assert forall|k1: int, j1: int, k2: int, j2: int|
            0 <= k1 < sets.len() && 0 <= j1 < sets[k1].roms@.len() && 0 <= k2 < sets.len() && 0 <= j2
                < sets[k2].roms@.len() && #[trigger] sets[k1].roms@[j1].original_index == i
                && #[trigger] sets[k2].roms@[j2].original_index == i implies k1 == k2 && j1 == j2 by {
            assert(lone_set(sets[k1], roms, images, k1));
            assert(lone_set(sets[k2], roms, images, k2));
        }
    } else {
        let v = roms[i].set.unwrap();
        lemma_set_values_contains(roms, i);
        assert(set_ids(sets).contains(v));
        let k = choose|k: int| 0 <= k < set_ids(sets).len() && set_ids(sets)[k] == v;
        assert(sets[k].id == v);
        assert(set_built(sets[k], roms, images));
        assert(roms[i].set == Some(sets[k].id));
        let j = choose|j: int| 0 <= j < sets[k].roms@.len() && #[trigger] sets[k].roms@[j].original_index == i;
        assert(sets[k].roms@[j].original_index == i);
        assert forall|k1: int, j1: int, k2: int, j2: int|
            0 <= k1 < sets.len() && 0 <= j1 < sets[k1].roms@.len() && 0 <= k2 < sets.len() && 0 <= j2
                < sets[k2].roms@.len() && #[trigger] sets[k1].roms@[j1].original_index == i
                && #[trigger] sets[k2].roms@[j2].original_index == i implies k1 == k2 && j1 == j2 by {
            assert(set_built(sets[k1], roms, images));
            assert(set_built(sets[k2], roms, images));
            assert(sets[k1].roms@[j1].config == roms[i]);
            assert(sets[k2].roms@[j2].config == roms[i]);
            assert(set_ids(sets)[k1] == sets[k1].id);
            assert(set_ids(sets)[k2] == sets[k2].id);
            if k1 != k2 {
                if k1 < k2 {
                    assert(set_ids(sets)[k1] < set_ids(sets)[k2]);
                } else {
                    assert(set_ids(sets)[k2] < set_ids(sets)[k1]);
                }
            }
            if j1 < j2 {
                assert(entry_before(sets[k1].roms@[j1], sets[k1].roms@[j2], sets[k1].is_banked));
            } else if j2 < j1 {
                assert(entry_before(sets[k1].roms@[j2], sets[k1].roms@[j1], sets[k1].is_banked));
            }
        }
    }
}

proof fn lemma_first_missing_none(vals: Seq<usize>, k: nat, m: nat)
    requires
        first_missing(vals, k, m) is None,
    ensures
        forall|x: nat| m <= x < k ==> vals.contains(#[trigger] (x as usize)),
    decreases k - m,
{
    if m < k {
        lemma_first_missing_none(vals, k, m + 1);
    }
}

proof fn lemma_usize_range_len(n: nat)
    requires
        n <= usize::MAX + 1,
    ensures
        Set::new(|x: usize| (x as nat) < n).finite(),
        Set::new(|x: usize| (x as nat) < n).len() == n,
    decreases n,
{
    if n == 0 {
        assert(Set::new(|x: usize| (x as nat) < n) =~= Set::<usize>::empty());
    } else {
        lemma_usize_range_len((n - 1) as nat);
        let prev = Set::new(|x: usize| (x as nat) < (n - 1) as nat);
        assert(Set::new(|x: usize| (x as nat) < n) =~= prev.insert((n - 1) as usize));
        assert(!prev.contains((n - 1) as usize));
    }
}

/// Values that include every number below their count of distinct values
/// include no other.
proof fn lemma_values_below_distinct_count(vals: Seq<usize>, v: usize)
    requires
        forall|x: nat| x < dedup(vals).len() ==> vals.contains(#[trigger] (x as usize)),
        vals.contains(v),
    ensures
        v < dedup(vals).len(),
{
    let d = dedup(vals);
    let k = d.len();
    if v >= k {
        let s = d.to_set();
        let range = Set::new(|x: usize| (x as nat) < k);
        let t = range.insert(v);
        lemma_usize_range_len(k);
        assert(!range.contains(v));
        assert(t.len() == k + 1);
        assert forall|x: usize| t.contains(x) implies s.contains(x) by {
            if x != v {
                assert(vals.contains((x as nat) as usize));
            }
            lemma_dedup_contains(vals, x);
        }
        d.lemma_cardinality_of_set();
        vstd::seq_lib::seq_to_set_is_finite(d);
        vstd::set_lib::lemma_len_subset(t, s);
    }
}

proof fn lemma_roms_in_set_contains(roms: Seq<RomConfig>, v: usize, j: int)
    requires
        0 <= j < roms.len(),
        roms[j].set == Some(v),
    ensures
        roms_in_set(roms, v).contains(roms[j]),
    decreases roms.len(),
{
    let d = roms.drop_last();
    let r = roms_in_set(d, v);
    if j == roms.len() - 1 {
        assert(roms_in_set(roms, v) == r.push(roms[j]));
        assert(roms_in_set(roms, v)[r.len() as int] == roms[j]);
    } else {
        lemma_roms_in_set_contains(d, v, j);
        let q = choose|q: int| 0 <= q < r.len() && r[q] == d[j];
        if roms.last().set == Some(v) {
            assert(roms_in_set(roms, v)[q] == roms[j]);
        } else {
            assert(roms_in_set(roms, v) == r);
        }
    }
}

proof fn lemma_bank_values_len(rs: Seq<RomConfig>)
    ensures
        bank_values(rs).len() <= rs.len(),
        bank_values(rs).len() == rs.len() ==> forall|q: int| 0 <= q < rs.len() ==> (#[trigger] rs[q]).bank is Some,
        (exists|q: int| 0 <= q < rs.len() && (#[trigger] rs[q]).bank is Some) ==> bank_values(rs).len() > 0,
    decreases rs.len(),
{
    if rs.len() > 0 {
        let d = rs.drop_last();
        lemma_bank_values_len(d);
        assert forall|q: int| 0 <= q < d.len() implies d[q] == rs[q] by {}
        if exists|q: int| 0 <= q < rs.len() && (#[trigger] rs[q]).bank is Some {
            let q = choose|q: int| 0 <= q < rs.len() && (#[trigger] rs[q]).bank is Some;
            if q < rs.len() - 1 {
                assert(d[q].bank is Some);
            }
        }
    }
}

impl Config {
    proof fn lemma_set_scan_none(self, id: nat, k: nat, x: nat)
        requires
            self.set_scan(id, k) is None,
            id <= x < k,
        ensures
            self.spec_set_error(x as usize) is None,
        decreases k - id,
    {
        if id < x {
            self.lemma_set_scan_none(id + 1, k, x);
        }
    }
}

/// A configuration that passes `validate` can be grouped into sets with any
/// images: within each set either every ROM gives a bank or none does, so
/// `create_rom_sets` can run on it.
pub proof fn law_validated_config_groups(
    c: Config,
    existing_output: Option<Seq<char>>,
    images: Seq<RomImage>,
)
    requires
        c.spec_validate(existing_output) is None,
    ensures
        banks_unmixed(c.roms@, images),
{
    let roms = c.roms@;
    let vals = set_values(roms);
    assert forall|i: int, j: int|
        0 <= i < zipped_len(roms, images) && 0 <= j < zipped_len(roms, images) && roms[i].set is Some
            && #[trigger] roms[i].set == #[trigger] roms[j].set && roms[i].bank is Some implies roms[j].bank is Some by {
        let v = roms[i].set.unwrap();
        lemma_set_values_contains(roms, i);
        let k = dedup(vals).len();
        lemma_first_missing_none(vals, k, 0);
        lemma_values_below_distinct_count(vals, v);
        c.lemma_set_scan_none(0, k, v as nat);
        let rs = roms_in_set(roms, v);
        lemma_roms_in_set_contains(roms, v, i);
        lemma_roms_in_set_contains(roms, v, j);
        lemma_bank_values_len(rs);
        let qi = choose|q: int| 0 <= q < rs.len() && rs[q] == roms[i];
        let qj = choose|q: int| 0 <= q < rs.len() && rs[q] == roms[j];
        assert(rs[qi].bank is Some);
        assert(rs[qj].bank is Some);
    }
}

} // verus!
