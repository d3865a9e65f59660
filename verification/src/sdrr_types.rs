//! ROM types, MCU families, processors and variants, and the PLL settings
//! derived from them.

use vstd::prelude::*;

use crate::hardware::Port;
use crate::text::{
    ascii_lowercase, dec, is_ascii_chars, push_decimal, push_str, spec_to_lowercase, str_eq, str_to_lowercase, decimal_string,
};

verus! {

/// The ROM chips that can be emulated.
#[derive(Debug, Clone, Copy, PartialEq, Eq, Hash, Structural)]
pub enum RomType {
    Rom2316,
    Rom2332,
    Rom2364,
    Rom23128,
}

impl RomType {
    /// The ROM type named by an already lower-cased string.
    pub open spec fn spec_from_lowercase(s: Seq<char>) -> Option<RomType> {
        if s == "2316"@ {
            Some(RomType::Rom2316)
        } else if s == "2332"@ {
            Some(RomType::Rom2332)
        } else if s == "2364"@ {
            Some(RomType::Rom2364)
        } else if s == "23128"@ {
            Some(RomType::Rom23128)
        } else {
            None
        }
    }

    /// Recognises a lower-cased ROM type name.
    pub fn from_lowercase(s: &str) -> (r: Option<Self>)
        ensures
            r == Self::spec_from_lowercase(s@),
    {
        if str_eq(s, "2316") {
            Some(RomType::Rom2316)
        } else if str_eq(s, "2332") {
            Some(RomType::Rom2332)
        } else if str_eq(s, "2364") {
            Some(RomType::Rom2364)
        } else if str_eq(s, "23128") {
            Some(RomType::Rom23128)
        } else {
            None
        }
    }

    /// Recognises a ROM type name, ignoring case.
    pub fn try_from_str(s: &str) -> (r: Option<Self>)
        ensures
            r == Self::spec_from_lowercase(spec_to_lowercase(s@)),
            is_ascii_chars(s@) ==> r == Self::spec_from_lowercase(ascii_lowercase(s@)),
    {
        let lower = str_to_lowercase(s);
        Self::from_lowercase(lower.as_str())
    }

    pub open spec fn spec_num_addr_lines(self) -> usize {
        match self {
            RomType::Rom2316 => 11,
            RomType::Rom2332 => 12,
            RomType::Rom2364 => 13,
            RomType::Rom23128 => 14,
        }
    }

    /// Number of address lines of the chip.
    pub fn num_addr_lines(&self) -> (r: usize)
        ensures
            r == self.spec_num_addr_lines(),
    {
        match self {
            RomType::Rom2316 => 11,
            RomType::Rom2332 => 12,
            RomType::Rom2364 => 13,
            RomType::Rom23128 => 14,
        }
    }

    pub open spec fn spec_size_bytes(self) -> usize {
        match self {
            RomType::Rom2316 => 2048,
            RomType::Rom2332 => 4096,
            RomType::Rom2364 => 8192,
            RomType::Rom23128 => 16384,
        }
    }

    /// Size of the ROM image in bytes.
    pub fn size_bytes(&self) -> (r: usize)
        ensures
            r == self.spec_size_bytes(),
    {
        match self {
            RomType::Rom2316 => 2048,
            RomType::Rom2332 => 4096,
            RomType::Rom2364 => 8192,
            RomType::Rom23128 => 16384,
        }
    }

    pub open spec fn spec_cs_lines_count(self) -> usize {
        match self {
            RomType::Rom2316 => 3,
            RomType::Rom2332 => 2,
            RomType::Rom2364 => 1,
            RomType::Rom23128 => 2,
        }
    }

    /// Number of chip select lines of the chip.
    pub fn cs_lines_count(&self) -> (r: usize)
        ensures
            r == self.spec_cs_lines_count(),
    {
        match self {
            RomType::Rom2316 => 3,
            RomType::Rom2332 => 2,
            RomType::Rom2364 => 1,
            RomType::Rom23128 => 2,
        }
    }

    pub open spec fn spec_name(self) -> Seq<char> {
        match self {
            RomType::Rom2316 => "2316"@,
            RomType::Rom2332 => "2332"@,
            RomType::Rom2364 => "2364"@,
            RomType::Rom23128 => "23128"@,
        }
    }

    /// The chip's part number.
    pub fn name(&self) -> (r: &str)
        ensures
            r@ == self.spec_name(),
    {
        match self {
            RomType::Rom2316 => "2316",
            RomType::Rom2332 => "2332",
            RomType::Rom2364 => "2364",
            RomType::Rom23128 => "23128",
        }
    }

    pub open spec fn spec_c_enum(self) -> Seq<char> {
        match self {
            RomType::Rom2316 => "ROM_TYPE_2316"@,
            RomType::Rom2332 => "ROM_TYPE_2332"@,
            RomType::Rom2364 => "ROM_TYPE_2364"@,
            RomType::Rom23128 => "ROM_TYPE_23128"@,
        }
    }

    /// The firmware's C enumerator for the chip.
    pub fn c_enum(&self) -> (r: &str)
        ensures
            r@ == self.spec_c_enum(),
    {
        match self {
            RomType::Rom2316 => "ROM_TYPE_2316",
            RomType::Rom2332 => "ROM_TYPE_2332",
            RomType::Rom2364 => "ROM_TYPE_2364",
            RomType::Rom23128 => "ROM_TYPE_23128",
        }
    }

    /// The `{:?}` text of the value.
    pub open spec fn spec_debug_name(self) -> Seq<char> {
        match self {
            RomType::Rom2316 => "Rom2316"@,
            RomType::Rom2332 => "Rom2332"@,
            RomType::Rom2364 => "Rom2364"@,
            RomType::Rom23128 => "Rom23128"@,
        }
    }
}

/// Highest pin number of an STM32F4 port.
pub const MAX_STM_PIN_NUM: u8 = 15;
/// Highest STM32F4 pin usable for a data line.
pub const MAX_STM_DATA_PIN_NUM: u8 = 7;
/// Highest RP2350 GPIO.
pub const MAX_RP2350_PIN_NUM: u8 = 29;
/// Highest RP2350 GPIO usable for address and chip select lines (first half-word).
pub const MAX_RP2350_ADDR_CS_PIN_NUM: u8 = 15;
/// Highest RP2350 GPIO usable for data lines (third byte).
pub const MAX_RP2350_DATA_PIN_NUM: u8 = 23;

/// MCU families the hardware is built around.
#[derive(Debug, Clone, Copy, PartialEq, Eq, Structural)]
pub enum McuFamily {
    Stm32F4,
    Rp2350,
}

impl McuFamily {
    pub open spec fn spec_from_lowercase(s: Seq<char>) -> Option<McuFamily> {
        if s == "f4"@ {
            Some(McuFamily::Stm32F4)
        } else if s == "rp2350"@ {
            Some(McuFamily::Rp2350)
        } else {
            None
        }
    }

    /// Recognises a lower-cased family name.
    pub fn from_lowercase(s: &str) -> (r: Option<Self>)
        ensures
            r == Self::spec_from_lowercase(s@),
    {
        if str_eq(s, "f4") {
            Some(McuFamily::Stm32F4)
        } else if str_eq(s, "rp2350") {
            Some(McuFamily::Rp2350)
        } else {
            None
        }
    }

    /// Recognises a family name, ignoring case.
    pub fn try_from_str(s: &str) -> (r: Option<Self>)
        ensures
            r == Self::spec_from_lowercase(spec_to_lowercase(s@)),
            is_ascii_chars(s@) ==> r == Self::spec_from_lowercase(ascii_lowercase(s@)),
    {
        let lower = str_to_lowercase(s);
        Self::from_lowercase(lower.as_str())
    }

    pub open spec fn spec_valid_pin_num(self, pin: u8) -> bool {
        match self {
            McuFamily::Stm32F4 => pin <= MAX_STM_PIN_NUM,
            McuFamily::Rp2350 => pin <= MAX_RP2350_PIN_NUM,
        }
    }

    /// Whether `pin` exists on this family's ports.
    pub fn valid_pin_num(&self, pin: u8) -> (r: bool)
        ensures
            r == self.spec_valid_pin_num(pin),
    {
        match self {
            McuFamily::Stm32F4 => pin <= MAX_STM_PIN_NUM,
            McuFamily::Rp2350 => pin <= MAX_RP2350_PIN_NUM,
        }
    }

    pub open spec fn spec_max_valid_addr_pin(self) -> u8 {
        match self {
            McuFamily::Stm32F4 => (MAX_STM_PIN_NUM - 2) as u8,
            McuFamily::Rp2350 => MAX_RP2350_ADDR_CS_PIN_NUM,
        }
    }

    /// Highest pin usable for an address line (on the STM32F4 the top two are
    /// reserved for X1/X2).
    pub fn max_valid_addr_pin(&self) -> (r: u8)
        ensures
            r == self.spec_max_valid_addr_pin(),
    {
        match self {
            McuFamily::Stm32F4 => MAX_STM_PIN_NUM - 2,
            McuFamily::Rp2350 => MAX_RP2350_ADDR_CS_PIN_NUM,
        }
    }

    pub open spec fn spec_max_valid_addr_cs_pin(self) -> u8 {
        match self {
            McuFamily::Stm32F4 => MAX_STM_PIN_NUM,
            McuFamily::Rp2350 => MAX_RP2350_ADDR_CS_PIN_NUM,
        }
    }

    /// Highest pin usable for an address or chip select line.
    pub fn max_valid_addr_cs_pin(&self) -> (r: u8)
        ensures
            r == self.spec_max_valid_addr_cs_pin(),
    {
        match self {
            McuFamily::Stm32F4 => MAX_STM_PIN_NUM,
            McuFamily::Rp2350 => MAX_RP2350_ADDR_CS_PIN_NUM,
        }
    }

    pub open spec fn spec_max_valid_data_pin(self) -> u8 {
        match self {
            McuFamily::Stm32F4 => MAX_STM_DATA_PIN_NUM,
            McuFamily::Rp2350 => MAX_RP2350_DATA_PIN_NUM,
        }
    }

    /// Highest pin usable for a data line.
    pub fn max_valid_data_pin(&self) -> (r: u8)
        ensures
            r == self.spec_max_valid_data_pin(),
    {
        match self {
            McuFamily::Stm32F4 => MAX_STM_DATA_PIN_NUM,
            McuFamily::Rp2350 => MAX_RP2350_DATA_PIN_NUM,
        }
    }

    pub open spec fn spec_allowed_data_port(self) -> Port {
        match self {
            McuFamily::Stm32F4 => Port::A,
            McuFamily::Rp2350 => Port::Zero,
        }
    }

    /// The port that must carry the data lines.
    pub fn allowed_data_port(&self) -> (r: Port)
        ensures
            r == self.spec_allowed_data_port(),
    {
        match self {
            McuFamily::Stm32F4 => Port::A,
            McuFamily::Rp2350 => Port::Zero,
        }
    }

    pub open spec fn spec_allowed_addr_port(self) -> Port {
        match self {
            McuFamily::Stm32F4 => Port::C,
            McuFamily::Rp2350 => Port::Zero,
        }
    }

    /// The port that must carry the address lines.
    pub fn allowed_addr_port(&self) -> (r: Port)
        ensures
            r == self.spec_allowed_addr_port(),
    {
        match self {
            McuFamily::Stm32F4 => Port::C,
            McuFamily::Rp2350 => Port::Zero,
        }
    }

    pub open spec fn spec_allowed_cs_port(self) -> Port {
        match self {
            McuFamily::Stm32F4 => Port::C,
            McuFamily::Rp2350 => Port::Zero,
        }
    }

    /// The port that must carry the chip select lines.
    pub fn allowed_cs_port(&self) -> (r: Port)
        ensures
            r == self.spec_allowed_cs_port(),
    {
        match self {
            McuFamily::Stm32F4 => Port::C,
            McuFamily::Rp2350 => Port::Zero,
        }
    }

    pub open spec fn spec_allowed_sel_port(self) -> Port {
        match self {
            McuFamily::Stm32F4 => Port::B,
            McuFamily::Rp2350 => Port::Zero,
        }
    }

    /// The port that must carry the image select lines.
    pub fn allowed_sel_port(&self) -> (r: Port)
        ensures
            r == self.spec_allowed_sel_port(),
    {
        match self {
            McuFamily::Stm32F4 => Port::B,
            McuFamily::Rp2350 => Port::Zero,
        }
    }

    /// The pins X1 (and X2) may use: pin 14 (15) on the STM32F4, any of
    /// 0..=15 on the RP2350.
    pub open spec fn spec_valid_x_pins(self, x2: bool) -> Seq<u8> {
        match self {
            McuFamily::Stm32F4 => if x2 { seq![15u8] } else { seq![14u8] },
            McuFamily::Rp2350 => Seq::new(16, |i: int| i as u8),
        }
    }

    fn all_low_pins() -> (v: Vec<u8>)
        ensures
            v@ == Seq::new(16, |i: int| i as u8),
    {
        let mut v: Vec<u8> = Vec::new();
        for i in 0..16u8
            invariant
                v@ == Seq::new(i as nat, |k: int| k as u8),
        {
            v.push(i);
            assert(v@ =~= Seq::new((i + 1) as nat, |k: int| k as u8));
        }
        v
    }

    /// Pins that X1 may be assigned to.
    pub fn valid_x1_pins(&self) -> (r: Vec<u8>)
        ensures
            r@ == self.spec_valid_x_pins(false),
    {
        match self {
            McuFamily::Stm32F4 => {
                let v = vec![14u8];
                assert(v@ =~= seq![14u8]);
                v
            },
            McuFamily::Rp2350 => Self::all_low_pins(),
        }
    }

    /// Pins that X2 may be assigned to.
    pub fn valid_x2_pins(&self) -> (r: Vec<u8>)
        ensures
            r@ == self.spec_valid_x_pins(true),
    {
        match self {
            McuFamily::Stm32F4 => {
                let v = vec![15u8];
                assert(v@ =~= seq![15u8]);
                v
            },
            McuFamily::Rp2350 => Self::all_low_pins(),
        }
    }

    /// The text the family is displayed as.
    pub open spec fn spec_display(self) -> Seq<char> {
        match self {
            McuFamily::Stm32F4 => "F4"@,
            McuFamily::Rp2350 => "RP2350"@,
        }
    }

    /// The family as displayed to users.
    pub fn to_string(&self) -> (r: String)
        ensures
            r@ == self.spec_display(),
    {
        match self {
            McuFamily::Stm32F4 => String::from_str("F4"),
            McuFamily::Rp2350 => String::from_str("RP2350"),
        }
    }
}

/// PLL settings as `(M or REFDIV, N or FBDIV, P or POSTDIV1, Q or POSTDIV2)`.
pub type PllSettings = (u8, u16, u8, u8);

/// Processor lines, which decide clock limits.
#[derive(Debug, Clone, Copy, PartialEq, Eq, Structural)]
pub enum McuProcessor {
    F401BC,
    F401DE,
    F405,
    F411,
    F446,
    Rp2350,
}

/// HSI oscillator frequency of the STM32F4.
pub const STM32_HSI_MHZ: u32 = 16;
/// Fixed PLL input divider used on the STM32F4 (2 MHz VCO input).
pub const STM32_PLLM: u8 = 8;
/// Crystal frequency on RP2350 boards.
pub const RP2350_XOSC_MHZ: u32 = 12;
/// Fixed RP2350 reference divider.
pub const RP2350_REFDIV: u8 = 1;

/// The USB divider Q for a given STM32 VCO frequency: the VCO frequency over
/// 48 MHz, rounded to nearest (halves away from zero), then clamped to 2..=15.
pub open spec fn stm32_pllq(vco: int) -> int {
    let raw = (vco + 24) / 48;
    if raw < 2 {
        2
    } else if raw > 15 {
        15
    } else {
        raw
    }
}

impl McuProcessor {
    pub open spec fn spec_vco_min_mhz(self) -> u32 {
        match self {
            McuProcessor::F401BC => 192,
            McuProcessor::F401DE => 192,
            McuProcessor::F405 => 100,
            McuProcessor::F411 => 100,
            McuProcessor::F446 => 100,
            McuProcessor::Rp2350 => 750,
        }
    }

    /// Minimum PLL VCO frequency in MHz.
    pub fn vco_min_mhz(&self) -> (r: u32)
        ensures
            r == self.spec_vco_min_mhz(),
    {
        match self {
            McuProcessor::F401BC => 192,
            McuProcessor::F401DE => 192,
            McuProcessor::F405 => 100,
            McuProcessor::F411 => 100,
            McuProcessor::F446 => 100,
            McuProcessor::Rp2350 => 750,
        }
    }

    pub open spec fn spec_vco_max_mhz(self, overclock: bool) -> u32 {
        match self {
            McuProcessor::Rp2350 => 1600,
            _ => if overclock { 1000 } else { 432 },
        }
    }

    /// Maximum PLL VCO frequency in MHz, raised for the STM32F4 when
    /// overclocking.
    pub fn vco_max_mhz(&self, overclock: bool) -> (r: u32)
        ensures
            r == self.spec_vco_max_mhz(overclock),
    {
        if !overclock {
            match self {
                McuProcessor::Rp2350 => 1600,
                McuProcessor::F401BC
                | McuProcessor::F401DE
                | McuProcessor::F405
                | McuProcessor::F411
                | McuProcessor::F446 => 432,
            }
        } else {
            match self {
                McuProcessor::Rp2350 => 1600,
                McuProcessor::F401BC
                | McuProcessor::F401DE
                | McuProcessor::F405
                | McuProcessor::F411
                | McuProcessor::F446 => 1000,
            }
        }
    }

    pub open spec fn spec_max_sysclk_mhz(self) -> u32 {
        match self {
            McuProcessor::F401BC => 84,
            McuProcessor::F401DE => 84,
            McuProcessor::F405 => 168,
            McuProcessor::F411 => 100,
            McuProcessor::F446 => 180,
            McuProcessor::Rp2350 => 150,
        }
    }

    /// Maximum rated system clock in MHz.
    pub fn max_sysclk_mhz(&self) -> (r: u32)
        ensures
            r == self.spec_max_sysclk_mhz(),
    {
        match self {
            McuProcessor::F401BC => 84,
            McuProcessor::F401DE => 84,
            McuProcessor::F405 => 168,
            McuProcessor::F411 => 100,
            McuProcessor::F446 => 180,
            McuProcessor::Rp2350 => 150,
        }
    }

    /// Target frequencies on which the PLL search runs without arithmetic
    /// overflow: when overclocking, the largest multiple tried (8 for the
    /// STM32F4, 49 for the RP2350) of the target must fit in a `u32`.
    pub open spec fn pll_target_ok(self, target_freq_mhz: u32, overclock: bool) -> bool {
        overclock ==> match self {
            McuProcessor::Rp2350 => target_freq_mhz <= 87652393,
            _ => target_freq_mhz <= 536870911,
        }
    }

    /// The STM32 PLL settings that use divider `pllp`, when the VCO and
    /// multiplier are within range.
    pub open spec fn stm32_candidate(self, target_freq_mhz: u32, overclock: bool, pllp: u8) -> Option<
        PllSettings,
    > {
        let vco = target_freq_mhz * pllp;
        let plln = vco / 2;
        if self.spec_vco_min_mhz() <= vco <= self.spec_vco_max_mhz(overclock) && 50 <= plln
            <= 432 {
            Some((STM32_PLLM, plln as u16, pllp, stm32_pllq(vco) as u8))
        } else {
            None
        }
    }

    /// The STM32 PLL settings for a target: refused above the rated clock
    /// unless overclocking, otherwise the first divider P of 2, 4, 6, 8 that
    /// works.
    pub open spec fn spec_stm32_pll_hsi(self, target_freq_mhz: u32, overclock: bool) -> Option<
        PllSettings,
    > {
        if target_freq_mhz > self.spec_max_sysclk_mhz() && !overclock {
            None
        } else if self.stm32_candidate(target_freq_mhz, overclock, 2) is Some {
            self.stm32_candidate(target_freq_mhz, overclock, 2)
        } else if self.stm32_candidate(target_freq_mhz, overclock, 4) is Some {
            self.stm32_candidate(target_freq_mhz, overclock, 4)
        } else if self.stm32_candidate(target_freq_mhz, overclock, 6) is Some {
            self.stm32_candidate(target_freq_mhz, overclock, 6)
        } else {
            self.stm32_candidate(target_freq_mhz, overclock, 8)
        }
    }

    fn stm32_try_pllp(&self, target_freq_mhz: u32, overclock: bool, pllp: u8) -> (r: Option<
        PllSettings,
    >)
        requires
            pllp == 2 || pllp == 4 || pllp == 6 || pllp == 8,
            target_freq_mhz * 8 <= u32::MAX,
        ensures
            r == self.stm32_candidate(target_freq_mhz, overclock, pllp),
    {
        let vco_in_mhz: u32 = STM32_HSI_MHZ / (STM32_PLLM as u32);
        assert(vco_in_mhz == 2) by (nonlinear_arith)
            requires
                vco_in_mhz == STM32_HSI_MHZ / (STM32_PLLM as u32),
                STM32_HSI_MHZ == 16,
                STM32_PLLM == 8,
        ;
        let vco_mhz = target_freq_mhz * (pllp as u32);
        if vco_mhz >= self.vco_min_mhz() && vco_mhz <= self.vco_max_mhz(overclock) {
            let plln = vco_mhz / vco_in_mhz;
            if 50 <= plln && plln <= 432 {
                let pllq_raw = (vco_mhz + 24) / 48;
                let pllq = if pllq_raw < 2 {
                    2
                } else if pllq_raw > 15 {
                    15
                } else {
                    pllq_raw
                };
                return Some((STM32_PLLM, plln as u16, pllp, pllq as u8));
            }
        }
        None
    }

    /// PLL values (PLLM, PLLN, PLLP, PLLQ) for the target frequency from the
    /// 16 MHz HSI, or `None` where the frequency cannot be reached.
    pub fn calculate_stm32_pll_hsi(&self, target_freq_mhz: u32, overclock: bool) -> (r: Option<
        PllSettings,
    >)
        requires
            self.pll_target_ok(target_freq_mhz, overclock),
        ensures
            r == self.spec_stm32_pll_hsi(target_freq_mhz, overclock),
    {
        if target_freq_mhz > self.max_sysclk_mhz() && !overclock {
            return None;
        }
        if !overclock {
            assert(target_freq_mhz <= 180);
        }
        let r2 = self.stm32_try_pllp(target_freq_mhz, overclock, 2);
        if r2.is_some() {
            return r2;
        }
        let r4 = self.stm32_try_pllp(target_freq_mhz, overclock, 4);
        if r4.is_some() {
            return r4;
        }
        let r6 = self.stm32_try_pllp(target_freq_mhz, overclock, 6);
        if r6.is_some() {
            return r6;
        }
        self.stm32_try_pllp(target_freq_mhz, overclock, 8)
    }

    /// The RP2350 settings tried at step `k` (0..49): POSTDIV2 is `k / 7 + 1`
    /// and POSTDIV1 is `k % 7 + 1`, so every POSTDIV1 is tried for each
    /// POSTDIV2 before the next.
    pub open spec fn rp2350_candidate(self, target_freq_mhz: u32, overclock: bool, k: int) -> Option<
        PllSettings,
    > {
        let pd2 = k / 7 + 1;
        let pd1 = k % 7 + 1;
        let vco = target_freq_mhz * pd1 * pd2;
        let fbdiv = vco / 12;
        if self.spec_vco_min_mhz() <= vco <= self.spec_vco_max_mhz(overclock) && 16 <= fbdiv <= 320
            && vco % 12 == 0 {
            Some((RP2350_REFDIV, fbdiv as u16, pd1 as u8, pd2 as u8))
        } else {
            None
        }
    }

    /// The first RP2350 candidate from step `k` on.
    pub open spec fn rp2350_search(self, target_freq_mhz: u32, overclock: bool, k: int) -> Option<
        PllSettings,
    >
        decreases 49 - k,
    {
        if k >= 49 || k < 0 {
            None
        } else if self.rp2350_candidate(target_freq_mhz, overclock, k) is Some {
            self.rp2350_candidate(target_freq_mhz, overclock, k)
        } else {
            self.rp2350_search(target_freq_mhz, overclock, k + 1)
        }
    }

    /// The RP2350 PLL settings for a target: refused above the rated clock
    /// unless overclocking, otherwise the first candidate found.
    pub open spec fn spec_rp2350_pll_12mhz(self, target_freq_mhz: u32, overclock: bool) -> Option<
        PllSettings,
    > {
        if target_freq_mhz > self.spec_max_sysclk_mhz() && !overclock {
            None
        } else {
            self.rp2350_search(target_freq_mhz, overclock, 0)
        }
    }

    /// PLL values (REFDIV, FBDIV, POSTDIV1, POSTDIV2) for the target
    /// frequency from a 12 MHz crystal, or `None` where it cannot be reached.
    pub fn calculate_rp2350_pll_12mhz(&self, target_freq_mhz: u32, overclock: bool) -> (r: Option<
        PllSettings,
    >)
        requires
            overclock ==> target_freq_mhz <= 87652393,
        ensures
            r == self.spec_rp2350_pll_12mhz(target_freq_mhz, overclock),
    {
        if target_freq_mhz > self.max_sysclk_mhz() && !overclock {
            return None;
        }
        assert(target_freq_mhz <= 87652393);
        let mut pd2: u8 = 1;
        while pd2 <= 7
            invariant
                1 <= pd2 <= 8,
                target_freq_mhz <= 87652393,
                !(target_freq_mhz > self.spec_max_sysclk_mhz() && !overclock),
                self.rp2350_search(target_freq_mhz, overclock, 0) == self.rp2350_search(
                    target_freq_mhz,
                    overclock,
                    (pd2 - 1) * 7,
                ),
            decreases 8 - pd2,
        {
            let mut pd1: u8 = 1;
            while pd1 <= 7
                invariant
                    1 <= pd2 <= 7,
                    1 <= pd1 <= 8,
                    target_freq_mhz <= 87652393,
                    !(target_freq_mhz > self.spec_max_sysclk_mhz() && !overclock),
                    self.rp2350_search(target_freq_mhz, overclock, 0) == self.rp2350_search(
                        target_freq_mhz,
                        overclock,
                        (pd2 - 1) * 7 + (pd1 - 1),
                    ),
                decreases 8 - pd1,
            {
                let ghost k: int = (pd2 - 1) * 7 + (pd1 - 1);
                assert(k / 7 + 1 == pd2 && k % 7 + 1 == pd1);
                assert(target_freq_mhz * pd1 * pd2 <= 87652393 * 49) by (nonlinear_arith)
                    requires
                        target_freq_mhz <= 87652393,
                        pd1 <= 7,
                        pd2 <= 7,
                ;
                assert(target_freq_mhz * pd1 <= 87652393 * 7) by (nonlinear_arith)
                    requires
                        target_freq_mhz <= 87652393,
                        pd1 <= 7,
                ;
                let vco_mhz = target_freq_mhz * (pd1 as u32) * (pd2 as u32);
                if vco_mhz >= self.vco_min_mhz() && vco_mhz <= self.vco_max_mhz(overclock) {
                    let fbdiv = vco_mhz / RP2350_XOSC_MHZ;
                    if 16 <= fbdiv && fbdiv <= 320 && vco_mhz % RP2350_XOSC_MHZ == 0 {
                        return Some((RP2350_REFDIV, fbdiv as u16, pd1, pd2));
                    }
                }
                pd1 = pd1 + 1;
            }
            pd2 = pd2 + 1;
        }
        None
    }

    /// The text `generate_pll_defines` produces for STM32 settings.
    pub open spec fn stm32_pll_text(s: PllSettings) -> Seq<char> {
        let (m, n, p, q) = s;
        let vco_input = STM32_HSI_MHZ / (m as u32);
        let fvco = vco_input * n;
        let sysclk = fvco / (p as int);
        let usb = fvco / (q as int);
        let p_reg = if p == 2 {
            "0b00"@
        } else if p == 4 {
            "0b01"@
        } else if p == 6 {
            "0b10"@
        } else {
            "0b11"@
        };
        "//   HSI="@ + dec(STM32_HSI_MHZ as nat) + "MHz\n//   VCO_input="@ + dec(vco_input as nat)
            + "MHz\n//   fVCO="@ + dec(fvco as nat) + "MHz\n//   SYSCLK="@ + dec(sysclk as nat)
            + "MHz\n//   USB="@ + dec(usb as nat) + "MHz\n#define PLL_M    "@ + dec(m as nat)
            + "\n#define PLL_N    "@ + dec(n as nat) + "\n#define PLL_P    "@ + p_reg
            + "  // div "@ + dec(p as nat) + "\n#define PLL_Q    "@ + dec(q as nat)
    }

    /// The text `generate_pll_defines` produces for RP2350 settings.
    pub open spec fn rp2350_pll_text(s: PllSettings) -> Seq<char> {
        let (refdiv, fbdiv, pd1, pd2) = s;
        let vco_input = RP2350_XOSC_MHZ / (refdiv as u32);
        let fvco = vco_input * fbdiv;
        let sysclk = fvco / (pd1 * pd2);
        "//   CLK_REF="@ + dec(RP2350_XOSC_MHZ as nat) + "MHz\n//   VCO_input="@ + dec(
            vco_input as nat,
        ) + "MHz\n//   fVCO="@ + dec(fvco as nat) + "MHz\n//   SYSCLK="@ + dec(sysclk as nat)
            + "MHz\n#define PLL_SYS_REFDIV    "@ + dec(refdiv as nat)
            + "\n#define PLL_SYS_FBDIV     "@ + dec(fbdiv as nat) + "\n#define PLL_SYS_POSTDIV1  "@
            + dec(pd1 as nat) + "\n#define PLL_SYS_POSTDIV2  "@ + dec(pd2 as nat)
    }

    /// `#define`s for the STM32 PLL settings reaching the target, if any.
    pub fn generate_stm32_pll_defines(&self, target_freq_mhz: u32, overclock: bool) -> (r: Option<
        String,
    >)
        requires
            self.pll_target_ok(target_freq_mhz, overclock),
        ensures
            r is Some <==> self.spec_stm32_pll_hsi(target_freq_mhz, overclock) is Some,
            r matches Some(t) ==> t@ == Self::stm32_pll_text(
                self.spec_stm32_pll_hsi(target_freq_mhz, overclock).unwrap(),
            ),
    {
        if let Some((m, n, p, q)) = self.calculate_stm32_pll_hsi(target_freq_mhz, overclock) {
            assert(m == 8 && 50 <= n <= 432 && (p == 2 || p == 4 || p == 6 || p == 8) && 2 <= q
                <= 15);
            let hsi_mhz: u32 = STM32_HSI_MHZ;
            let vco_input_mhz = hsi_mhz / (m as u32);
            assert(vco_input_mhz == 2) by (nonlinear_arith)
                requires
                    hsi_mhz == 16,
                    m == 8,
                    vco_input_mhz == hsi_mhz / (m as u32),
            ;
            let fvco_mhz = vco_input_mhz * (n as u32);
            let sysclk_mhz = fvco_mhz / (p as u32);
            let usb_mhz = fvco_mhz / (q as u32);
            let pll_p_reg = if p == 2 {
                "0b00"
            } else if p == 4 {
                "0b01"
            } else if p == 6 {
                "0b10"
            } else {
                "0b11"
            };
            let mut s = String::from_str("//   HSI=");
            push_decimal(&mut s, hsi_mhz as u64);
            push_str(&mut s, "MHz\n//   VCO_input=");
            push_decimal(&mut s, vco_input_mhz as u64);
            push_str(&mut s, "MHz\n//   fVCO=");
            push_decimal(&mut s, fvco_mhz as u64);
            push_str(&mut s, "MHz\n//   SYSCLK=");
            push_decimal(&mut s, sysclk_mhz as u64);
            push_str(&mut s, "MHz\n//   USB=");
            push_decimal(&mut s, usb_mhz as u64);
            push_str(&mut s, "MHz\n#define PLL_M    ");
            push_decimal(&mut s, m as u64);
            push_str(&mut s, "\n#define PLL_N    ");
            push_decimal(&mut s, n as u64);
            push_str(&mut s, "\n#define PLL_P    ");
            push_str(&mut s, pll_p_reg);
            push_str(&mut s, "  // div ");
            push_decimal(&mut s, p as u64);
            push_str(&mut s, "\n#define PLL_Q    ");
            push_decimal(&mut s, q as u64);
            Some(s)
        } else {
            None
        }
    }

    /// `#define`s for the RP2350 PLL settings reaching the target, if any.
    pub fn generate_rp2350_pll_defines(&self, target_freq_mhz: u32, overclock: bool) -> (r: Option<
        String,
    >)
        requires
            overclock ==> target_freq_mhz <= 87652393,
        ensures
            r is Some <==> self.spec_rp2350_pll_12mhz(target_freq_mhz, overclock) is Some,
            r matches Some(t) ==> t@ == Self::rp2350_pll_text(
                self.spec_rp2350_pll_12mhz(target_freq_mhz, overclock).unwrap(),
            ),
    {
        if let Some((refdiv, fbdiv, postdiv1, postdiv2)) = self.calculate_rp2350_pll_12mhz(
            target_freq_mhz,
            overclock,
        ) {
            assert(refdiv == 1 && 16 <= fbdiv <= 320 && 1 <= postdiv1 <= 7 && 1 <= postdiv2 <= 7)
                by {
                self.lemma_rp2350_search_bounds(target_freq_mhz, overclock, 0);
            }
            let clk_ref_mhz: u32 = RP2350_XOSC_MHZ;
            let vco_input_mhz = clk_ref_mhz / (refdiv as u32);
            assert(vco_input_mhz == 12) by (nonlinear_arith)
                requires
                    clk_ref_mhz == 12,
                    refdiv == 1,
                    vco_input_mhz == clk_ref_mhz / (refdiv as u32),
            ;
            assert(1 <= postdiv1 * postdiv2 <= 49) by (nonlinear_arith)
                requires
                    1 <= postdiv1 <= 7,
                    1 <= postdiv2 <= 7,
            ;
            let fvco_mhz = vco_input_mhz * (fbdiv as u32);
            let sysclk_mhz = fvco_mhz / ((postdiv1 as u32) * (postdiv2 as u32));
            let mut s = String::from_str("//   CLK_REF=");
            push_decimal(&mut s, clk_ref_mhz as u64);
            push_str(&mut s, "MHz\n//   VCO_input=");
            push_decimal(&mut s, vco_input_mhz as u64);
            push_str(&mut s, "MHz\n//   fVCO=");
            push_decimal(&mut s, fvco_mhz as u64);
            push_str(&mut s, "MHz\n//   SYSCLK=");
            push_decimal(&mut s, sysclk_mhz as u64);
            push_str(&mut s, "MHz\n#define PLL_SYS_REFDIV    ");
            push_decimal(&mut s, refdiv as u64);
            push_str(&mut s, "\n#define PLL_SYS_FBDIV     ");
            push_decimal(&mut s, fbdiv as u64);
            push_str(&mut s, "\n#define PLL_SYS_POSTDIV1  ");
            push_decimal(&mut s, postdiv1 as u64);
            push_str(&mut s, "\n#define PLL_SYS_POSTDIV2  ");
            push_decimal(&mut s, postdiv2 as u64);
            Some(s)
        } else {
            None
        }
    }

    proof fn lemma_rp2350_search_bounds(self, target_freq_mhz: u32, overclock: bool, k: int)
        ensures
            self.rp2350_search(target_freq_mhz, overclock, k) matches Some(s) ==> s.0 == 1 && 16
                <= s.1 <= 320 && 1 <= s.2 <= 7 && 1 <= s.3 <= 7,
        decreases 49 - k,
    {
        if 0 <= k < 49 {
            self.lemma_rp2350_search_bounds(target_freq_mhz, overclock, k + 1);
        }
    }

    /// The PLL settings this processor uses for the target frequency.
    pub open spec fn spec_pll_hsi(self, target_freq_mhz: u32, overclock: bool) -> Option<
        PllSettings,
    > {
        match self {
            McuProcessor::Rp2350 => self.spec_rp2350_pll_12mhz(target_freq_mhz, overclock),
            _ => self.spec_stm32_pll_hsi(target_freq_mhz, overclock),
        }
    }

    /// The `#define` text for the processor's PLL settings.
    pub open spec fn spec_pll_text(self, s: PllSettings) -> Seq<char> {
        match self {
            McuProcessor::Rp2350 => Self::rp2350_pll_text(s),
            _ => Self::stm32_pll_text(s),
        }
    }

    /// PLL `#define`s for the target frequency, for this processor.
    pub fn generate_pll_defines(&self, target_freq_mhz: u32, overclock: bool) -> (r: Option<String>)
        requires
            self.pll_target_ok(target_freq_mhz, overclock),
        ensures
            r is Some <==> self.spec_pll_hsi(target_freq_mhz, overclock) is Some,
            r matches Some(t) ==> t@ == self.spec_pll_text(
                self.spec_pll_hsi(target_freq_mhz, overclock).unwrap(),
            ),
    {
        match self {
            McuProcessor::Rp2350 => self.generate_rp2350_pll_defines(target_freq_mhz, overclock),
            _ => self.generate_stm32_pll_defines(target_freq_mhz, overclock),
        }
    }

    /// PLL settings for the target frequency, for this processor.
    pub fn calculate_pll_hsi(&self, target_freq_mhz: u32, overclock: bool) -> (r: Option<
        PllSettings,
    >)
        requires
            self.pll_target_ok(target_freq_mhz, overclock),
        ensures
            r == self.spec_pll_hsi(target_freq_mhz, overclock),
    {
        match self {
            McuProcessor::Rp2350 => self.calculate_rp2350_pll_12mhz(target_freq_mhz, overclock),
            _ => self.calculate_stm32_pll_hsi(target_freq_mhz, overclock),
        }
    }

    /// Whether the PLL can reach the target frequency.
    pub fn is_frequency_valid(&self, target_freq_mhz: u32, overclock: bool) -> (r: bool)
        requires
            self.pll_target_ok(target_freq_mhz, overclock),
        ensures
            r == self.spec_pll_hsi(target_freq_mhz, overclock) is Some,
    {
        self.calculate_pll_hsi(target_freq_mhz, overclock).is_some()
    }
}

/// The MCU part fitted to the board.
#[derive(Debug, Clone, Copy, PartialEq, Eq, Structural)]
pub enum McuVariant {
    /// STM32F446RC: 128KB SRAM, 256KB flash.
    F446RC,
    /// STM32F446RE: 128KB SRAM, 512KB flash.
    F446RE,
    /// STM32F411RC: 128KB SRAM, 256KB flash.
    F411RC,
    /// STM32F411RE: 128KB SRAM, 512KB flash.
    F411RE,
    /// STM32F405RG: 128KB SRAM (+64KB CCM), 1024KB flash.
    F405RG,
    /// STM32F401RE: 96KB SRAM, 512KB flash.
    F401RE,
    /// STM32F401RB: 64KB SRAM, 128KB flash.
    F401RB,
    /// STM32F401RC: 64KB SRAM, 256KB flash.
    F401RC,
    /// RP2350A: 520KB SRAM, 2MB flash.
    Rp2350,
}

impl McuVariant {
    pub open spec fn spec_from_lowercase(s: Seq<char>) -> Option<McuVariant> {
        if s == "f446rc"@ {
            Some(McuVariant::F446RC)
        } else if s == "f446re"@ {
            Some(McuVariant::F446RE)
        } else if s == "f411rc"@ {
            Some(McuVariant::F411RC)
        } else if s == "f411re"@ {
            Some(McuVariant::F411RE)
        } else if s == "f405rg"@ {
            Some(McuVariant::F405RG)
        } else if s == "f401re"@ {
            Some(McuVariant::F401RE)
        } else if s == "f401rb"@ {
            Some(McuVariant::F401RB)
        } else if s == "f401rc"@ {
            Some(McuVariant::F401RC)
        } else if s == "rp2350"@ {
            Some(McuVariant::Rp2350)
        } else {
            None
        }
    }

    /// Recognises a lower-cased variant name.
    pub fn from_lowercase(s: &str) -> (r: Option<Self>)
        ensures
            r == Self::spec_from_lowercase(s@),
    {
        if str_eq(s, "f446rc") {
            Some(McuVariant::F446RC)
        } else if str_eq(s, "f446re") {
            Some(McuVariant::F446RE)
        } else if str_eq(s, "f411rc") {
            Some(McuVariant::F411RC)
        } else if str_eq(s, "f411re") {
            Some(McuVariant::F411RE)
        } else if str_eq(s, "f405rg") {
            Some(McuVariant::F405RG)
        } else if str_eq(s, "f401re") {
            Some(McuVariant::F401RE)
        } else if str_eq(s, "f401rb") {
            Some(McuVariant::F401RB)
        } else if str_eq(s, "f401rc") {
            Some(McuVariant::F401RC)
        } else if str_eq(s, "rp2350") {
            Some(McuVariant::Rp2350)
        } else {
            None
        }
    }

    /// Recognises a variant name, ignoring case.
    pub fn try_from_str(s: &str) -> (r: Option<Self>)
        ensures
            r == Self::spec_from_lowercase(spec_to_lowercase(s@)),
            is_ascii_chars(s@) ==> r == Self::spec_from_lowercase(ascii_lowercase(s@)),
    {
        let lower = str_to_lowercase(s);
        Self::from_lowercase(lower.as_str())
    }

    pub open spec fn spec_line_enum(self) -> Seq<char> {
        match self {
            McuVariant::F446RC | McuVariant::F446RE => "F446"@,
            McuVariant::F411RC | McuVariant::F411RE => "F411"@,
            McuVariant::F405RG => "F405"@,
            McuVariant::F401RE => "F401DE"@,
            McuVariant::F401RB | McuVariant::F401RC => "F401BC"@,
            McuVariant::Rp2350 => "RP2350_LINE"@,
        }
    }

    /// The firmware's enumerator for the processor line.
    pub fn line_enum(&self) -> (r: &str)
        ensures
            r@ == self.spec_line_enum(),
    {
        match self {
            McuVariant::F446RC | McuVariant::F446RE => "F446",
            McuVariant::F411RC | McuVariant::F411RE => "F411",
            McuVariant::F405RG => "F405",
            McuVariant::F401RE => "F401DE",
            McuVariant::F401RB | McuVariant::F401RC => "F401BC",
            McuVariant::Rp2350 => "RP2350_LINE",
        }
    }

    pub open spec fn spec_storage_enum(self) -> Seq<char> {
        match self {
            McuVariant::F446RC => "STORAGE_C"@,
            McuVariant::F446RE => "STORAGE_E"@,
            McuVariant::F411RC => "STORAGE_C"@,
            McuVariant::F411RE => "STORAGE_E"@,
            McuVariant::F405RG => "STORAGE_G"@,
            McuVariant::F401RE => "STORAGE_E"@,
            McuVariant::F401RB => "STORAGE_B"@,
            McuVariant::F401RC => "STORAGE_C"@,
            McuVariant::Rp2350 => "STORAGE_2MB"@,
        }
    }

    /// The firmware's enumerator for the flash size code.
    pub fn storage_enum(&self) -> (r: &str)
        ensures
            r@ == self.spec_storage_enum(),
    {
        match self {
            McuVariant::F446RC => "STORAGE_C",
            McuVariant::F446RE => "STORAGE_E",
            McuVariant::F411RC => "STORAGE_C",
            McuVariant::F411RE => "STORAGE_E",
            McuVariant::F405RG => "STORAGE_G",
            McuVariant::F401RE => "STORAGE_E",
            McuVariant::F401RB => "STORAGE_B",
            McuVariant::F401RC => "STORAGE_C",
            McuVariant::Rp2350 => "STORAGE_2MB",
        }
    }

    pub open spec fn spec_flash_storage_kb(self) -> usize {
        match self {
            McuVariant::F446RC => 256,
            McuVariant::F446RE => 512,
            McuVariant::F411RC => 256,
            McuVariant::F411RE => 512,
            McuVariant::F405RG => 1024,
            McuVariant::F401RB => 128,
            McuVariant::F401RC => 256,
            McuVariant::F401RE => 512,
            McuVariant::Rp2350 => 2048,
        }
    }

    /// Flash size in bytes.
    pub fn flash_storage_bytes(&self) -> (r: usize)
        ensures
            r == self.spec_flash_storage_kb() * 1024,
    {
        self.flash_storage_kb() * 1024
    }

    /// Flash size in KB.
    pub fn flash_storage_kb(&self) -> (r: usize)
        ensures
            r == self.spec_flash_storage_kb(),
    {
        match self {
            McuVariant::F446RC => 256,
            McuVariant::F446RE => 512,
            McuVariant::F411RC => 256,
            McuVariant::F411RE => 512,
            McuVariant::F405RG => 1024,
            McuVariant::F401RB => 128,
            McuVariant::F401RC => 256,
            McuVariant::F401RE => 512,
            McuVariant::Rp2350 => 2048,
        }
    }

    pub open spec fn spec_ram_kb(self) -> usize {
        match self {
            McuVariant::F446RC | McuVariant::F446RE => 128,
            McuVariant::F411RC | McuVariant::F411RE => 128,
            McuVariant::F405RG => 128,
            McuVariant::F401RB | McuVariant::F401RC => 64,
            McuVariant::F401RE => 96,
            McuVariant::Rp2350 => 520,
        }
    }

    /// Main SRAM size in KB (not counting CCM RAM).
    pub fn ram_kb(&self) -> (r: usize)
        ensures
            r == self.spec_ram_kb(),
    {
        match self {
            McuVariant::F446RC | McuVariant::F446RE => 128,
            McuVariant::F411RC | McuVariant::F411RE => 128,
            McuVariant::F405RG => 128,
            McuVariant::F401RB | McuVariant::F401RC => 64,
            McuVariant::F401RE => 96,
            McuVariant::Rp2350 => 520,
        }
    }

    /// Whether the part has the STM32 USB DFU bootloader.
    pub fn supports_usb_dfu(&self) -> (r: bool)
        ensures
            r == (self.spec_family() == McuFamily::Stm32F4),
    {
        match self.family() {
            McuFamily::Stm32F4 => true,
            McuFamily::Rp2350 => false,
        }
    }

    pub open spec fn spec_supports_banked_roms(self) -> bool {
        self.spec_ram_kb() > 72 && self.spec_flash_storage_kb() >= 96
    }

    /// Whether the part has the RAM (over 72KB) and flash (at least 96KB)
    /// that bank-switched ROM sets need.
    pub fn supports_banked_roms(&self) -> (r: bool)
        ensures
            r == self.spec_supports_banked_roms(),
    {
        self.ram_kb() > 72 && self.flash_storage_kb() >= 96
    }

    /// Whether the part can serve multi-ROM sets (same needs as banked sets).
    pub fn supports_multi_rom_sets(&self) -> (r: bool)
        ensures
            r == self.spec_supports_banked_roms(),
    {
        self.supports_banked_roms()
    }

    /// Size of CCM RAM in KB, for the parts that have it.
    pub fn ccm_ram_kb(&self) -> (r: Option<usize>)
        ensures
            r == (if *self == McuVariant::F405RG { Some(64usize) } else { None }),
    {
        match self {
            McuVariant::F405RG => Some(64),
            _ => None,
        }
    }

    /// `#define MCU_FLASH_SIZE <bytes>`.
    pub fn define_flash_size_bytes(&self) -> (r: String)
        ensures
            r@ == "#define MCU_FLASH_SIZE "@ + dec((self.spec_flash_storage_kb() * 1024) as nat),
    {
        let mut s = String::from_str("#define MCU_FLASH_SIZE ");
        push_decimal(&mut s, self.flash_storage_bytes() as u64);
        s
    }

    /// `#define MCU_FLASH_SIZE_KB <KB>`.
    pub fn define_flash_size_kb(&self) -> (r: String)
        ensures
            r@ == "#define MCU_FLASH_SIZE_KB "@ + dec(self.spec_flash_storage_kb() as nat),
    {
        let mut s = String::from_str("#define MCU_FLASH_SIZE_KB ");
        push_decimal(&mut s, self.flash_storage_kb() as u64);
        s
    }

    /// `#define MCU_RAM_SIZE <bytes>`.
    pub fn define_ram_size_bytes(&self) -> (r: String)
        ensures
            r@ == "#define MCU_RAM_SIZE "@ + dec((self.spec_ram_kb() * 1024) as nat),
    {
        let mut s = String::from_str("#define MCU_RAM_SIZE ");
        push_decimal(&mut s, (self.ram_kb() * 1024) as u64);
        s
    }

    /// `#define MCU_RAM_SIZE_KB <KB>`.
    pub fn define_ram_size_kb(&self) -> (r: String)
        ensures
            r@ == "#define MCU_RAM_SIZE_KB "@ + dec(self.spec_ram_kb() as nat),
    {
        let mut s = String::from_str("#define MCU_RAM_SIZE_KB ");
        push_decimal(&mut s, self.ram_kb() as u64);
        s
    }

    pub open spec fn spec_define_var_sub_fam(self) -> Seq<char> {
        match self {
            McuVariant::F446RC | McuVariant::F446RE => "#define STM32F446      1"@,
            McuVariant::F411RC | McuVariant::F411RE => "#define STM32F411      1"@,
            McuVariant::F405RG => "#define STM32F405      1"@,
            McuVariant::F401RE => "#define STM32F401DE    1"@,
            McuVariant::F401RB | McuVariant::F401RC => "#define STM32F401BC    1"@,
            McuVariant::Rp2350 => "#define RP2350A        1"@,
        }
    }

    /// The `#define` naming the processor line.
    pub fn define_var_sub_fam(&self) -> (r: &str)
        ensures
            r@ == self.spec_define_var_sub_fam(),
    {
        match self {
            McuVariant::F446RC | McuVariant::F446RE => "#define STM32F446      1",
            McuVariant::F411RC | McuVariant::F411RE => "#define STM32F411      1",
            McuVariant::F405RG => "#define STM32F405      1",
            McuVariant::F401RE => "#define STM32F401DE    1",
            McuVariant::F401RB | McuVariant::F401RC => "#define STM32F401BC    1",
            McuVariant::Rp2350 => "#define RP2350A        1",
        }
    }

    pub open spec fn spec_family(self) -> McuFamily {
        match self {
            McuVariant::Rp2350 => McuFamily::Rp2350,
            _ => McuFamily::Stm32F4,
        }
    }

    /// The family of the part.
    pub fn family(&self) -> (r: McuFamily)
        ensures
            r == self.spec_family(),
    {
        match self {
            McuVariant::F446RC
            | McuVariant::F446RE
            | McuVariant::F411RC
            | McuVariant::F411RE
            | McuVariant::F405RG
            | McuVariant::F401RE
            | McuVariant::F401RB
            | McuVariant::F401RC => McuFamily::Stm32F4,
            McuVariant::Rp2350 => McuFamily::Rp2350,
        }
    }

    pub open spec fn spec_processor(self) -> McuProcessor {
        match self {
            McuVariant::F446RC | McuVariant::F446RE => McuProcessor::F446,
            McuVariant::F411RC | McuVariant::F411RE => McuProcessor::F411,
            McuVariant::F405RG => McuProcessor::F405,
            McuVariant::F401RE => McuProcessor::F401DE,
            McuVariant::F401RB | McuVariant::F401RC => McuProcessor::F401BC,
            McuVariant::Rp2350 => McuProcessor::Rp2350,
        }
    }

    /// The processor line of the part.
    pub fn processor(&self) -> (r: McuProcessor)
        ensures
            r == self.spec_processor(),
    {
        match self {
            McuVariant::F446RC | McuVariant::F446RE => McuProcessor::F446,
            McuVariant::F411RC | McuVariant::F411RE => McuProcessor::F411,
            McuVariant::F405RG => McuProcessor::F405,
            McuVariant::F401RE => McuProcessor::F401DE,
            McuVariant::F401RB | McuVariant::F401RC => McuProcessor::F401BC,
            McuVariant::Rp2350 => McuProcessor::Rp2350,
        }
    }

    /// The `#define` naming the family.
    pub fn define_var_fam(&self) -> (r: &str)
        ensures
            r@ == (if self.spec_family() == McuFamily::Stm32F4 {
                "#define STM32F4        1"@
            } else {
                "#define RP235X         1"@
            }),
    {
        match self.family() {
            McuFamily::Stm32F4 => "#define STM32F4        1",
            McuFamily::Rp2350 => "#define RP235X         1",
        }
    }

    pub open spec fn spec_define_var_str(self) -> Seq<char> {
        match self {
            McuVariant::F446RC => "#define MCU_VARIANT    \"F446RC\""@,
            McuVariant::F446RE => "#define MCU_VARIANT    \"F446RE\""@,
            McuVariant::F411RC => "#define MCU_VARIANT    \"F411RC\""@,
            McuVariant::F411RE => "#define MCU_VARIANT    \"F411RE\""@,
            McuVariant::F405RG => "#define MCU_VARIANT    \"F405RG\""@,
            McuVariant::F401RE => "#define MCU_VARIANT    \"F401RE\""@,
            McuVariant::F401RB => "#define MCU_VARIANT    \"F401RB\""@,
            McuVariant::F401RC => "#define MCU_VARIANT    \"F401RC\""@,
            McuVariant::Rp2350 => "#define MCU_VARIANT    \"RP2350\""@,
        }
    }

    /// The `#define` naming the variant as a string.
    pub fn define_var_str(&self) -> (r: &str)
        ensures
            r@ == self.spec_define_var_str(),
    {
        match self {
            McuVariant::F446RC => "#define MCU_VARIANT    \"F446RC\"",
            McuVariant::F446RE => "#define MCU_VARIANT    \"F446RE\"",
            McuVariant::F411RC => "#define MCU_VARIANT    \"F411RC\"",
            McuVariant::F411RE => "#define MCU_VARIANT    \"F411RE\"",
            McuVariant::F405RG => "#define MCU_VARIANT    \"F405RG\"",
            McuVariant::F401RE => "#define MCU_VARIANT    \"F401RE\"",
            McuVariant::F401RB => "#define MCU_VARIANT    \"F401RB\"",
            McuVariant::F401RC => "#define MCU_VARIANT    \"F401RC\"",
            McuVariant::Rp2350 => "#define MCU_VARIANT    \"RP2350\"",
        }
    }

    /// PLL `#define`s for the target frequency on this part's processor.
    pub fn generate_pll_defines(&self, target_freq_mhz: u32, overclock: bool) -> (r: Option<String>)
        requires
            self.spec_processor().pll_target_ok(target_freq_mhz, overclock),
        ensures
            r is Some <==> self.spec_processor().spec_pll_hsi(target_freq_mhz, overclock) is Some,
            r matches Some(t) ==> t@ == self.spec_processor().spec_pll_text(
                self.spec_processor().spec_pll_hsi(target_freq_mhz, overclock).unwrap(),
            ),
    {
        self.processor().generate_pll_defines(target_freq_mhz, overclock)
    }

    pub open spec fn spec_makefile_var(self) -> Seq<char> {
        match self {
            McuVariant::F446RC => "stm32f446rc"@,
            McuVariant::F446RE => "stm32f446re"@,
            McuVariant::F411RC => "stm32f411rc"@,
            McuVariant::F411RE => "stm32f411re"@,
            McuVariant::F405RG => "stm32f405rg"@,
            McuVariant::F401RE => "stm32f401re"@,
            McuVariant::F401RB => "stm32f401rb"@,
            McuVariant::F401RC => "stm32f401rc"@,
            McuVariant::Rp2350 => "rp2350"@,
        }
    }

    /// The variant name the firmware Makefile takes as VARIANT.
    pub fn makefile_var(&self) -> (r: &str)
        ensures
            r@ == self.spec_makefile_var(),
    {
        match self {
            McuVariant::F446RC => "stm32f446rc",
            McuVariant::F446RE => "stm32f446re",
            McuVariant::F411RC => "stm32f411rc",
            McuVariant::F411RE => "stm32f411re",
            McuVariant::F405RG => "stm32f405rg",
            McuVariant::F401RE => "stm32f401re",
            McuVariant::F401RB => "stm32f401rb",
            McuVariant::F401RC => "stm32f401rc",
            McuVariant::Rp2350 => "rp2350",
        }
    }

    pub open spec fn spec_chip_id(self) -> Seq<char> {
        match self {
            McuVariant::F446RC => "STM32F446RCTx"@,
            McuVariant::F446RE => "STM32F446RETx"@,
            McuVariant::F411RC => "STM32F411RCTx"@,
            McuVariant::F411RE => "STM32F411RETx"@,
            McuVariant::F405RG => "STM32F405RGTx"@,
            McuVariant::F401RE => "STM32F401RETx"@,
            McuVariant::F401RB => "STM32F401RBTx"@,
            McuVariant::F401RC => "STM32F401RCTx"@,
            McuVariant::Rp2350 => "RP235X"@,
        }
    }

    /// The chip name a debug probe is given.
    pub fn chip_id(&self) -> (r: &str)
        ensures
            r@ == self.spec_chip_id(),
    {
        match self {
            McuVariant::F446RC => "STM32F446RCTx",
            McuVariant::F446RE => "STM32F446RETx",
            McuVariant::F411RC => "STM32F411RCTx",
            McuVariant::F411RE => "STM32F411RETx",
            McuVariant::F405RG => "STM32F405RGTx",
            McuVariant::F401RE => "STM32F401RETx",
            McuVariant::F401RB => "STM32F401RBTx",
            McuVariant::F401RC => "STM32F401RCTx",
            McuVariant::Rp2350 => "RP235X",
        }
    }

    /// Whether this part's PLL can reach the target frequency.
    pub fn is_frequency_valid(&self, target_freq_mhz: u32, overclock: bool) -> (r: bool)
        requires
            self.spec_processor().pll_target_ok(target_freq_mhz, overclock),
        ensures
            r == self.spec_processor().spec_pll_hsi(target_freq_mhz, overclock) is Some,
    {
        self.processor().is_frequency_valid(target_freq_mhz, overclock)
    }

    /// The `{:?}` text of the value.
    pub open spec fn spec_debug_name(self) -> Seq<char> {
        match self {
            McuVariant::F446RC => "F446RC"@,
            McuVariant::F446RE => "F446RE"@,
            McuVariant::F411RC => "F411RC"@,
            McuVariant::F411RE => "F411RE"@,
            McuVariant::F405RG => "F405RG"@,
            McuVariant::F401RE => "F401RE"@,
            McuVariant::F401RB => "F401RB"@,
            McuVariant::F401RC => "F401RC"@,
            McuVariant::Rp2350 => "Rp2350"@,
        }
    }

    /// The variant's `{:?}` text.
    pub fn debug_name(&self) -> (r: &str)
        ensures
            r@ == self.spec_debug_name(),
    {
        match self {
            McuVariant::F446RC => "F446RC",
            McuVariant::F446RE => "F446RE",
            McuVariant::F411RC => "F411RC",
            McuVariant::F411RE => "F411RE",
            McuVariant::F405RG => "F405RG",
            McuVariant::F401RE => "F401RE",
            McuVariant::F401RB => "F401RB",
            McuVariant::F401RC => "F401RC",
            McuVariant::Rp2350 => "Rp2350",
        }
    }
}

/// How the firmware serves bytes for a ROM set.
#[derive(Debug, Clone, Copy, PartialEq, Eq, Structural)]
pub enum ServeAlg {
    /// default
    Default,
    /// a
    TwoCsOneAddr,
    /// b
    AddrOnCs,
}

impl ServeAlg {
    pub open spec fn spec_from_lowercase(s: Seq<char>) -> Option<ServeAlg> {
        if s == "default"@ {
            Some(ServeAlg::Default)
        } else if s == "a"@ || s == "two_cs_one_addr"@ {
            Some(ServeAlg::TwoCsOneAddr)
        } else if s == "b"@ {
            Some(ServeAlg::AddrOnCs)
        } else {
            None
        }
    }

    /// Recognises a lower-cased algorithm name.
    pub fn from_lowercase(s: &str) -> (r: Option<Self>)
        ensures
            r == Self::spec_from_lowercase(s@),
    {
        if str_eq(s, "default") {
            Some(ServeAlg::Default)
        } else if str_eq(s, "a") || str_eq(s, "two_cs_one_addr") {
            Some(ServeAlg::TwoCsOneAddr)
        } else if str_eq(s, "b") {
            Some(ServeAlg::AddrOnCs)
        } else {
            None
        }
    }

    /// Recognises an algorithm name, ignoring case.
    pub fn try_from_str(s: &str) -> (r: Option<Self>)
        ensures
            r == Self::spec_from_lowercase(spec_to_lowercase(s@)),
            is_ascii_chars(s@) ==> r == Self::spec_from_lowercase(ascii_lowercase(s@)),
    {
        let lower = str_to_lowercase(s);
        Self::from_lowercase(lower.as_str())
    }

    pub open spec fn spec_c_value(self) -> Seq<char> {
        match self {
            ServeAlg::Default => "SERVE_ADDR_ON_CS"@,
            ServeAlg::TwoCsOneAddr => "SERVE_TWO_CS_ONE_ADDR"@,
            ServeAlg::AddrOnCs => "SERVE_ADDR_ON_CS"@,
        }
    }

    /// The firmware's C value for the algorithm.
    pub fn c_value(&self) -> (r: &str)
        ensures
            r@ == self.spec_c_value(),
    {
        match self {
            ServeAlg::Default => "SERVE_ADDR_ON_CS",
            ServeAlg::TwoCsOneAddr => "SERVE_TWO_CS_ONE_ADDR",
            ServeAlg::AddrOnCs => "SERVE_ADDR_ON_CS",
        }
    }

    /// The firmware's C value used for multi-ROM sets, whatever the algorithm.
    pub fn c_value_multi_rom_set(&self) -> (r: &str)
        ensures
            r@ == "SERVE_ADDR_ON_ANY_CS"@,
    {
        "SERVE_ADDR_ON_ANY_CS"
    }
}

/// Sense of a chip select line.
#[derive(Debug, Clone, Copy, PartialEq, Eq, Structural)]
pub enum CsLogic {
    ActiveLow,
    ActiveHigh,
    /// Used for 2332/2316 ROMs, when a CS line isn't used because it's always
    /// tied active.
    Ignore,
}

impl CsLogic {
    pub open spec fn spec_from_lowercase(s: Seq<char>) -> Option<CsLogic> {
        if s == "0"@ {
            Some(CsLogic::ActiveLow)
        } else if s == "1"@ {
            Some(CsLogic::ActiveHigh)
        } else if s == "ignore"@ {
            Some(CsLogic::Ignore)
        } else {
            None
        }
    }

    /// Recognises a lower-cased chip select sense.
    pub fn from_lowercase(s: &str) -> (r: Option<Self>)
        ensures
            r == Self::spec_from_lowercase(s@),
    {
        if str_eq(s, "0") {
            Some(CsLogic::ActiveLow)
        } else if str_eq(s, "1") {
            Some(CsLogic::ActiveHigh)
        } else if str_eq(s, "ignore") {
            Some(CsLogic::Ignore)
        } else {
            None
        }
    }

    /// Recognises a chip select sense (`0`, `1` or `ignore`), ignoring case.
    pub fn try_from_str(s: &str) -> (r: Option<Self>)
        ensures
            r == Self::spec_from_lowercase(spec_to_lowercase(s@)),
            is_ascii_chars(s@) ==> r == Self::spec_from_lowercase(ascii_lowercase(s@)),
    {
        let lower = str_to_lowercase(s);
        Self::from_lowercase(lower.as_str())
    }
}

impl McuProcessor {
    /// The VCO frequency, in MHz, that PLL settings give: the 16 MHz HSI
    /// divided by PLLM times PLLN on an STM32F4; the 12 MHz crystal divided
    /// by REFDIV times FBDIV on the RP2350.
    pub open spec fn spec_pll_vco(self, s: PllSettings) -> int {
        match self {
            McuProcessor::Rp2350 => (RP2350_XOSC_MHZ / (s.0 as u32)) * s.1,
            _ => (STM32_HSI_MHZ / (s.0 as u32)) * s.1,
        }
    }

    /// By how much the VCO frequency is divided down to the system clock:
    /// PLLP on an STM32F4, POSTDIV1 times POSTDIV2 on the RP2350.
    pub open spec fn spec_pll_divider(self, s: PllSettings) -> int {
        match self {
            McuProcessor::Rp2350 => s.2 * s.3,
            _ => s.2 as int,
        }
    }

    proof fn lemma_rp2350_search_candidate(self, target_freq_mhz: u32, overclock: bool, k: int)
        requires
            self.rp2350_search(target_freq_mhz, overclock, k) is Some,
        ensures
            exists|j: int|
                k <= j < 49 && 0 <= j && #[trigger] self.rp2350_candidate(target_freq_mhz, overclock, j)
                    == self.rp2350_search(target_freq_mhz, overclock, k),
        decreases 49 - k,
    {
        if self.rp2350_candidate(target_freq_mhz, overclock, k) is Some {
            assert(self.rp2350_candidate(target_freq_mhz, overclock, k) == self.rp2350_search(
                target_freq_mhz,
                overclock,
                k,
            ));
        } else {
            self.lemma_rp2350_search_candidate(target_freq_mhz, overclock, k + 1);
        }
    }

    /// The PLL settings found for a frequency give exactly that frequency:
    /// the VCO runs at the target times the divider, within the VCO's
    /// range, and an STM32 divider P is 2, 4, 6 or 8; and no frequency above
    /// the rated system clock is accepted without overclocking.
    pub proof fn law_pll_reaches_target(self, target_freq_mhz: u32, overclock: bool)
        requires
            self.spec_pll_hsi(target_freq_mhz, overclock) is Some,
        ensures
            overclock || target_freq_mhz <= self.spec_max_sysclk_mhz(),
            ({
                let s = self.spec_pll_hsi(target_freq_mhz, overclock).unwrap();
                &&& self.spec_pll_vco(s) == target_freq_mhz * self.spec_pll_divider(s)
                &&& self.spec_vco_min_mhz() <= self.spec_pll_vco(s) <= self.spec_vco_max_mhz(
                    overclock,
                )
                &&& self != McuProcessor::Rp2350 ==> (s.2 == 2 || s.2 == 4 || s.2 == 6 || s.2 == 8)
            }),
    {
        let t = target_freq_mhz;
        let s = self.spec_pll_hsi(t, overclock).unwrap();
        match self {
            McuProcessor::Rp2350 => {
                self.lemma_rp2350_search_candidate(t, overclock, 0);
                let j = choose|j: int|
                    0 <= j < 49 && #[trigger] self.rp2350_candidate(t, overclock, j)
                        == self.rp2350_search(t, overclock, 0);
                let pd2 = j / 7 + 1;
                let pd1 = j % 7 + 1;
                let vco = t * pd1 * pd2;
                assert(1 <= pd1 <= 7 && 1 <= pd2 <= 7);
                assert(vco == t * (pd1 * pd2)) by (nonlinear_arith)
                    requires
                        vco == t * pd1 * pd2,
                ;
                assert(0 <= vco) by (nonlinear_arith)
                    requires
                        vco == t * pd1 * pd2,
                        pd1 >= 1,
                        pd2 >= 1,
                        t >= 0,
                ;
                assert(s.1 == vco / 12 && vco % 12 == 0 && s.2 == pd1 && s.3 == pd2 && s.0 == 1);
                assert(12 * (vco / 12) == vco);
            },
            _ => {
                assert(s.0 == 8);
                if self.stm32_candidate(t, overclock, 2) is Some {
                    assert(s.1 == (t * 2) / 2 && s.2 == 2);
                } else if self.stm32_candidate(t, overclock, 4) is Some {
                    assert(s.1 == (t * 4) / 2 && s.2 == 4);
                } else if self.stm32_candidate(t, overclock, 6) is Some {
                    assert(s.1 == (t * 6) / 2 && s.2 == 6);
                } else {
                    assert(s.1 == (t * 8) / 2 && s.2 == 8);
                }
            },
        }
    }
}

/// Whether `needle` stands somewhere in `hay`.
pub open spec fn holds_text(hay: Seq<char>, needle: Seq<char>) -> bool {
    exists|k: int|
        0 <= k && k + needle.len() <= hay.len() && #[trigger] hay.subrange(k, k + needle.len())
            == needle
}

/// The binary digit for `b`.
pub open spec fn binary_digit(b: bool) -> char {
    if b {
        '1'
    } else {
        '0'
    }
}

/// The STM32 `PLL_P` register field written for a divider `p` of 2, 4, 6 or
/// 8 is `p / 2 - 1` in two binary digits (2 -> 0b00, 4 -> 0b01, 6 -> 0b10,
/// 8 -> 0b11), followed by the divider itself as a comment.
pub proof fn law_stm32_pll_p_field(s: PllSettings)
    requires
        s.2 == 2 || s.2 == 4 || s.2 == 6 || s.2 == 8,
    ensures
        ({
            let field = s.2 / 2 - 1;
            holds_text(
                McuProcessor::stm32_pll_text(s),
                "\n#define PLL_P    0b"@ + seq![
                    binary_digit(field / 2 == 1),
                    binary_digit(field % 2 == 1),
                ] + "  // div "@ + dec(s.2 as nat) + "\n"@,
            )
        }),
{
    let (m, n, p, q) = s;
    let field = p / 2 - 1;
    let vco_input = STM32_HSI_MHZ / (m as u32);
    let fvco = vco_input * n;
    let sysclk = fvco / (p as int);
    let usb = fvco / (q as int);
    let p_reg = if p == 2 {
        "0b00"@
    } else if p == 4 {
        "0b01"@
    } else if p == 6 {
        "0b10"@
    } else {
        "0b11"@
    };
    reveal_strlit("\n#define PLL_P    ");
    reveal_strlit("\n#define PLL_P    0b");
    reveal_strlit("0b00");
    reveal_strlit("0b01");
    reveal_strlit("0b10");
    reveal_strlit("0b11");
    let digits = seq![binary_digit(field / 2 == 1), binary_digit(field % 2 == 1)];
    assert("\n#define PLL_P    "@ + p_reg =~= "\n#define PLL_P    0b"@ + digits);
    let pre = "//   HSI="@ + dec(STM32_HSI_MHZ as nat) + "MHz\n//   VCO_input="@ + dec(
        vco_input as nat,
    ) + "MHz\n//   fVCO="@ + dec(fvco as nat) + "MHz\n//   SYSCLK="@ + dec(sysclk as nat)
        + "MHz\n//   USB="@ + dec(usb as nat) + "MHz\n#define PLL_M    "@ + dec(m as nat)
        + "\n#define PLL_N    "@ + dec(n as nat);
    let needle = "\n#define PLL_P    0b"@ + digits + "  // div "@ + dec(p as nat) + "\n"@;
    let text = McuProcessor::stm32_pll_text(s);
    reveal_strlit("\n");
    reveal_strlit("\n#define PLL_Q    ");
    assert(text =~= pre + needle + ("#define PLL_Q    "@ + dec(q as nat))) by {
        reveal_strlit("#define PLL_Q    ");
    }
    let k = pre.len() as int;
    assert(text.subrange(k, k + needle.len()) =~= needle);
}

/// Reading a ROM type's name gives the type back.
pub proof fn law_rom_type_name_round_trip(t: RomType)
    ensures
        RomType::spec_from_lowercase(t.spec_name()) == Some(t),
{
    reveal_strlit("2316");
    reveal_strlit("2332");
    reveal_strlit("2364");
    reveal_strlit("23128");
    assert("2332"@[2] != "2316"@[2]);
    assert("2364"@[2] != "2316"@[2] && "2364"@[2] != "2332"@[2]);
    assert("23128"@.len() != "2316"@.len() && "23128"@.len() != "2332"@.len() && "23128"@.len()
        != "2364"@.len());
}

/// A ROM type has one byte for each combination of its address lines.
pub proof fn law_rom_size_matches_address_lines(t: RomType)
    ensures
        t.spec_size_bytes() == vstd::arithmetic::power2::pow2(t.spec_num_addr_lines() as nat),
{
    vstd::arithmetic::power2::lemma2_to64();
}

/// Every STM32F4 system clock from 50 MHz up to the part's rated maximum
/// can be reached without overclocking, and, when overclocking, every one
/// up to 432 MHz.
pub proof fn law_stm32_clock_range(p: McuProcessor, target_freq_mhz: u32, overclock: bool)
    requires
        p != McuProcessor::Rp2350,
        50 <= target_freq_mhz,
        if overclock {
            target_freq_mhz <= 432
        } else {
            target_freq_mhz <= p.spec_max_sysclk_mhz()
        },
    ensures
        p.spec_pll_hsi(target_freq_mhz, overclock) is Some,
{
    let t = target_freq_mhz;
    if t * 2 < p.spec_vco_min_mhz() {
        assert(p.stm32_candidate(t, overclock, 4) is Some);
    } else {
        assert(p.stm32_candidate(t, overclock, 2) is Some);
    }
}

} // verus!
