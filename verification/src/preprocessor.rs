//! ROM images, and the bytes the firmware serves from them once address and
//! data lines are rearranged to match the board's wiring.

use vstd::prelude::*;

use crate::config::{RomInSet, SizeHandling};
use crate::hardware::{pin_or_unset, HwConfig};
use crate::sdrr_types::{CsLogic, McuFamily, RomType};

verus! {

/// Byte used to fill padded images and to answer when no ROM is selected.
pub const PAD_BYTE: u8 = 0xAA;

/// A ROM image that has been sized for its ROM type.
#[derive(Debug)]
pub struct RomImage {
    pub data: Vec<u8>,
}

impl Clone for RomImage {
    fn clone(&self) -> (r: Self)
        ensures
            r.data@ == self.data@,
    {
        RomImage { data: self.data.clone() }
    }
}

/// Why a ROM file could not be sized for its ROM type.
#[derive(Debug, Clone, Copy, PartialEq, Eq, Structural)]
pub enum RomSizeError {
    /// The file already has the ROM's size, yet duplication or padding was asked for.
    AlreadyCorrectSize { expected: usize },
    /// The file is smaller than the ROM and no size handling was asked for.
    TooSmall { expected: usize, actual: usize },
    /// Duplication was asked for but the file size does not divide the ROM size.
    NotExactDivisor { actual: usize, expected: usize },
    /// The file is larger than the ROM.
    TooLarge { expected: usize, actual: usize },
}

/// The image a ROM file of `data` becomes for a ROM of `expected` bytes.
pub open spec fn spec_sized_image(data: Seq<u8>, expected: usize, size_handling: SizeHandling) -> Result<
    Seq<u8>,
    RomSizeError,
> {
    if data.len() == expected {
        match size_handling {
            SizeHandling::NoChange => Ok(data),
            _ => Err(RomSizeError::AlreadyCorrectSize { expected }),
        }
    } else if data.len() < expected {
        match size_handling {
            SizeHandling::NoChange => Err(
                RomSizeError::TooSmall { expected, actual: data.len() as usize },
            ),
            SizeHandling::Duplicate => if (expected as int) % (data.len() as int) != 0 {
                Err(RomSizeError::NotExactDivisor { actual: data.len() as usize, expected })
            } else {
                Ok(Seq::new(expected as nat, |i: int| data[i % (data.len() as int)]))
            },
            SizeHandling::Pad => Ok(data + Seq::new((expected - data.len()) as nat, |i: int| PAD_BYTE)),
        }
    } else {
        Err(RomSizeError::TooLarge { expected, actual: data.len() as usize })
    }
}

/// Whether bit `i` of `x` is set.
pub open spec fn bit_set(x: usize, i: usize) -> bool {
    x & (1usize << i) != 0
}

/// The logical address for physical `address`, taking the first `n` pins of
/// `map`: each set physical bit `p` with `map[p] == Some(b)` sets bit `b`.
pub open spec fn spec_transform_address(address: usize, map: Seq<Option<usize>>, n: int) -> usize
    decreases n,
{
    if n <= 0 {
        0
    } else {
        let prev = spec_transform_address(address, map, n - 1);
        match map[n - 1] {
            Some(b) => if bit_set(address, (n - 1) as usize) {
                prev | (1usize << b)
            } else {
                prev
            },
            None => prev,
        }
    }
}

/// The byte for `byte` once its bits are moved, taking the first `n` bits:
/// each set bit `i` sets bit `map[i]`.
pub open spec fn spec_transform_byte(byte: u8, map: Seq<usize>, n: int) -> u8
    decreases n,
{
    if n <= 0 {
        0
    } else {
        let prev = spec_transform_byte(byte, map, n - 1);
        if byte & (1u8 << (n - 1) as u8) != 0 {
            prev | (1u8 << map[n - 1] as u8)
        } else {
            prev
        }
    }
}

/// An address map whose pins and lines all fit in a `usize` shift.
pub open spec fn addr_map_fits(map: Seq<Option<usize>>) -> bool {
    &&& map.len() <= usize::BITS
    &&& forall|i: int| 0 <= i < map.len() ==> (#[trigger] map[i] matches Some(b) ==> b < usize::BITS)
}

/// A data map with an entry below 8 for each of the 8 bits.
pub open spec fn data_map_fits(map: Seq<usize>) -> bool {
    &&& map.len() >= 8
    &&& forall|i: int| 0 <= i < 8 ==> #[trigger] map[i] < 8
}

impl RomImage {
    /// Sizes the contents of a ROM file for its ROM type: kept as is when
    /// exact, repeated or padded with 0xAA when smaller if asked, refused
    /// otherwise.
    pub fn from_data(data: Vec<u8>, rom_type: &RomType, size_handling: &SizeHandling) -> (r: Result<
        Self,
        RomSizeError,
    >)
        requires
            !(data@.len() == 0 && *size_handling == SizeHandling::Duplicate),
        ensures
            match spec_sized_image(data@, rom_type.spec_size_bytes(), *size_handling) {
                Ok(d) => r matches Ok(img) && img.data@ == d,
                Err(e) => r == Err::<RomImage, RomSizeError>(e),
            },
    {
        let expected_size = rom_type.size_bytes();
        let len = data.len();
        if len == expected_size {
            match size_handling {
                SizeHandling::NoChange => Ok(RomImage { data }),
                _ => Err(RomSizeError::AlreadyCorrectSize { expected: expected_size }),
            }
        } else if len < expected_size {
            match size_handling {
                SizeHandling::NoChange => Err(
                    RomSizeError::TooSmall { expected: expected_size, actual: len },
                ),
                SizeHandling::Duplicate => {
                    if expected_size % len != 0 {
                        return Err(
                            RomSizeError::NotExactDivisor { actual: len, expected: expected_size },
                        );
                    }
                    let mut out: Vec<u8> = Vec::new();
                    for i in 0..expected_size
                        invariant
                            len == data@.len(),
                            len > 0,
                            out@ == Seq::new(i as nat, |k: int| data@[k % (len as int)]),
                    {
                        out.push(data[i % len]);
                        assert(out@ =~= Seq::new((i + 1) as nat, |k: int| data@[k % (len as int)]));
                    }
                    Ok(RomImage { data: out })
                },
                SizeHandling::Pad => {
                    let mut out = data;
                    let ghost orig = out@;
                    for i in len..expected_size
                        invariant
                            orig.len() == len,
                            out@ == orig + Seq::new((i - len) as nat, |k: int| PAD_BYTE),
                    {
                        out.push(PAD_BYTE);
                        assert(out@ =~= orig + Seq::new((i + 1 - len) as nat, |k: int| PAD_BYTE));
                    }
                    Ok(RomImage { data: out })
                },
            }
        } else {
            Err(RomSizeError::TooLarge { expected: expected_size, actual: len })
        }
    }

    /// Physical address to logical ROM address: every set bit of `address`
    /// whose pin is wired to address line `b` sets bit `b`.
    pub fn transform_address(&self, address: usize, phys_pin_to_addr_map: &[Option<usize>]) -> (r:
        usize)
        requires
            addr_map_fits(phys_pin_to_addr_map@),
        ensures
            r == spec_transform_address(
                address,
                phys_pin_to_addr_map@,
                phys_pin_to_addr_map@.len() as int,
            ),
    {
        let mut result: usize = 0;
        for pin in 0..phys_pin_to_addr_map.len()
            invariant
                addr_map_fits(phys_pin_to_addr_map@),
                result == spec_transform_address(address, phys_pin_to_addr_map@, pin as int),
        {
            if let Some(addr_bit) = phys_pin_to_addr_map[pin] {
                if (address & (1usize << pin)) != 0 {
                    result = result | (1usize << addr_bit);
                }
            }
        }
        result
    }

    /// Moves each set bit `i` of `byte` to bit `phys_pin_to_data_map[i]`, so
    /// the byte reads correctly through the board's data lines.
    pub fn transform_byte(byte: u8, phys_pin_to_data_map: &[usize]) -> (r: u8)
        requires
            data_map_fits(phys_pin_to_data_map@),
        ensures
            r == spec_transform_byte(byte, phys_pin_to_data_map@, 8),
    {
        let mut result: u8 = 0;
        for bit_pos in 0..8usize
            invariant
                data_map_fits(phys_pin_to_data_map@),
                result == spec_transform_byte(byte, phys_pin_to_data_map@, bit_pos as int),
        {
            if (byte & (1u8 << (bit_pos as u8))) != 0 {
                let new_pos = phys_pin_to_data_map[bit_pos];
                result = result | (1u8 << (new_pos as u8));
            }
        }
        result
    }

    /// The byte the board serves at physical `address`: the image byte at
    /// the transformed address, with its bits moved to the data pins.
    pub open spec fn spec_get_byte(
        self,
        address: usize,
        addr_map: Seq<Option<usize>>,
        data_map: Seq<usize>,
    ) -> u8 {
        spec_transform_byte(
            self.data@[spec_transform_address(address, addr_map, addr_map.len() as int) as int],
            data_map,
            8,
        )
    }

    /// The byte at physical `address`, with address and data lines arranged
    /// as the board wires them.
    pub fn get_byte(
        &self,
        address: usize,
        phys_pin_to_addr_map: &[Option<usize>],
        phys_pin_to_data_map: &[usize],
    ) -> (r: u8)
        requires
            addr_map_fits(phys_pin_to_addr_map@),
            data_map_fits(phys_pin_to_data_map@),
            spec_transform_address(
                address,
                phys_pin_to_addr_map@,
                phys_pin_to_addr_map@.len() as int,
            ) < self.data@.len(),
        ensures
            r == self.spec_get_byte(address, phys_pin_to_addr_map@, phys_pin_to_data_map@),
    {
        let transformed_address = self.transform_address(address, phys_pin_to_addr_map);
        let byte = self.data[transformed_address];
        Self::transform_byte(byte, phys_pin_to_data_map)
    }
}

/// A set of ROMs served together: one ROM, bank-switched ROMs selected by
/// X1/X2, or several ROMs each selected by its own chip select line.
#[derive(Debug, Clone)]
pub struct RomSet {
    pub id: usize,
    pub roms: Vec<RomInSet>,
    pub is_banked: bool,
}

/// Whether `pin` of `address` is in its active state.
pub open spec fn pin_active(active_high: bool, address: usize, pin: u8) -> bool {
    if active_high {
        bit_set(address, pin as usize)
    } else {
        !bit_set(address, pin as usize)
    }
}

/// Whether `pin` of `address` is in its active state.
pub fn is_pin_active(active_high: bool, address: usize, pin: u8) -> (r: bool)
    requires
        pin < usize::BITS,
    ensures
        r == pin_active(active_high, address, pin),
{
    if active_high {
        (address & (1usize << pin)) != 0
    } else {
        (address & (1usize << pin)) == 0
    }
}

/// Exactly one of three conditions holds.
pub open spec fn exactly_one(a: bool, b: bool, c: bool) -> bool {
    (a && !b && !c) || (!a && b && !c) || (!a && !b && c)
}

/// An optional CS2/CS3 requirement: the line's address bit must be clear
/// unless the line is ignored (for active-low and active-high alike).
pub open spec fn cs_line_ok(logic: Option<CsLogic>, address: usize, pin: u8) -> bool {
    match logic {
        Some(CsLogic::ActiveLow) | Some(CsLogic::ActiveHigh) => !bit_set(address, pin as usize),
        _ => true,
    }
}

/// Whether the pins that an optional CS2/CS3 requirement reads fit a shift.
pub open spec fn cs_line_fits(logic: Option<CsLogic>, pin: u8) -> bool {
    match logic {
        Some(CsLogic::ActiveLow) | Some(CsLogic::ActiveHigh) => pin < usize::BITS,
        _ => true,
    }
}

/// Whether the bank in use can be read from X1 and X2: both set, below the
/// word width.
pub open spec fn x_pins_fit(hw: HwConfig) -> bool {
    &&& crate::hardware::pin_or_unset(hw.mcu.pins.x1) < usize::BITS
    &&& crate::hardware::pin_or_unset(hw.mcu.pins.x2) < usize::BITS
}

impl RomSet {
    /// Whether one ROM is served on the whole address space (a single ROM,
    /// or a banked set).
    pub open spec fn single_mode(self) -> bool {
        self.roms@.len() == 1 || self.is_banked
    }

    /// The bank X1 (bit 0) and X2 (bit 1) select; inverted when the jumpers
    /// pull to ground.
    pub open spec fn spec_bank(address: usize, hw: HwConfig) -> usize {
        let x1 = crate::hardware::pin_or_unset(hw.mcu.pins.x1);
        let x2 = crate::hardware::pin_or_unset(hw.mcu.pins.x2);
        if hw.mcu.pins.x_jumper_pull == 1 {
            ((address >> x1) & 1) | (((address >> x2) & 1) << 1usize)
        } else {
            (!(address >> x1) & 1) | ((!((address >> x2) & 1)) << 1usize)
        }
    }

    /// `address` with the X1 and X2 bits cleared.
    pub open spec fn spec_banked_address(address: usize, hw: HwConfig) -> usize {
        let x1 = crate::hardware::pin_or_unset(hw.mcu.pins.x1);
        let x2 = crate::hardware::pin_or_unset(hw.mcu.pins.x2);
        address & (!(1usize << x1) & !(1usize << x2))
    }

    /// In single mode, the ROM served and the address it sees.
    pub open spec fn spec_single_target(self, address: usize, hw: HwConfig) -> (int, usize) {
        if !self.is_banked {
            (0, address)
        } else {
            (
                (Self::spec_bank(address, hw) % self.roms@.len() as usize) as int,
                Self::spec_banked_address(address, hw),
            )
        }
    }

    /// The byte ROM `i` answers at `address`.
    pub open spec fn rom_byte(self, i: int, address: usize, hw: HwConfig) -> u8 {
        let rom = self.roms@[i];
        rom.image.spec_get_byte(
            address,
            hw.spec_addr_map_for(rom.config.rom_type.spec_num_addr_lines()),
            hw.pin_maps.data_view(),
        )
    }

    /// Whether ROM `i`'s image holds the byte at `address`.
    pub open spec fn rom_in_bounds(self, i: int, address: usize, hw: HwConfig) -> bool {
        let rom = self.roms@[i];
        let map = hw.spec_addr_map_for(rom.config.rom_type.spec_num_addr_lines());
        spec_transform_address(address, map, map.len() as int) < rom.image.data@.len()
    }

    /// CS2 and CS3 of ROM `rom` allow it to answer at `address`.
    pub open spec fn spec_cs_requirements(rom: RomInSet, address: usize, hw: HwConfig) -> bool {
        let t = rom.config.rom_type;
        &&& cs_line_ok(
            rom.config.cs_config.cs2,
            address,
            crate::hardware::pin_or_unset(hw.mcu.pins.cs2.spec_get(t)),
        )
        &&& cs_line_ok(
            rom.config.cs_config.cs3,
            address,
            crate::hardware::pin_or_unset(hw.mcu.pins.cs3.spec_get(t)),
        )
    }

    /// Whether ROM `i` of a multi-ROM set answers at `address`: its own
    /// select pin is active, exactly one of CS1, X1 and X2 is active (all in
    /// the sense of its CS1), and its CS2/CS3 requirements hold.
    pub open spec fn rom_answers(self, i: int, address: usize, hw: HwConfig) -> bool {
        let rom = self.roms@[i];
        let t = rom.config.rom_type;
        let high = rom.config.cs_config.cs1 == CsLogic::ActiveHigh;
        let cs_pin = hw.spec_cs_pin_for_rom_in_set(t, i as usize);
        &&& pin_active(high, address, cs_pin)
        &&& exactly_one(
            pin_active(high, address, crate::hardware::pin_or_unset(hw.mcu.pins.cs1.spec_get(t))),
            pin_active(high, address, crate::hardware::pin_or_unset(hw.mcu.pins.x1)),
            pin_active(high, address, crate::hardware::pin_or_unset(hw.mcu.pins.x2)),
        )
        &&& Self::spec_cs_requirements(rom, address, hw)
    }

    /// The first ROM from `i` on that answers at `address`.
    pub open spec fn first_answering(self, address: usize, hw: HwConfig, i: int) -> Option<int>
        decreases self.roms@.len() - i,
    {
        if i < 0 || i >= self.roms@.len() {
            None
        } else if self.rom_answers(i, address, hw) {
            Some(i)
        } else {
            self.first_answering(address, hw, i + 1)
        }
    }

    /// The byte served at `address`: in single mode the selected ROM's byte;
    /// otherwise the byte of the first ROM that answers, or 0xAA (through the
    /// data lines) when none does.
    pub open spec fn spec_get_byte(self, address: usize, hw: HwConfig) -> u8 {
        if self.single_mode() {
            let (i, a) = self.spec_single_target(address, hw);
            self.rom_byte(i, a, hw)
        } else {
            match self.first_answering(address, hw, 0) {
                Some(i) => self.rom_byte(i, address, hw),
                None => spec_transform_byte(PAD_BYTE, hw.pin_maps.data_view(), 8),
            }
        }
    }

    /// The pins ROM `i` of a multi-ROM set reads fit a shift; its select pin
    /// is at most 15.
    pub open spec fn multi_step_fits(self, i: int, address: usize, hw: HwConfig) -> bool {
        let rom = self.roms@[i];
        let t = rom.config.rom_type;
        let high = rom.config.cs_config.cs1 == CsLogic::ActiveHigh;
        let cs_pin = hw.spec_cs_pin_for_rom_in_set(t, i as usize);
        &&& cs_pin <= 15
        &&& pin_active(high, address, cs_pin) ==> {
            &&& crate::hardware::pin_or_unset(hw.mcu.pins.cs1.spec_get(t)) < usize::BITS
            &&& x_pins_fit(hw)
            &&& cs_line_fits(
                rom.config.cs_config.cs2,
                crate::hardware::pin_or_unset(hw.mcu.pins.cs2.spec_get(t)),
            )
            &&& cs_line_fits(
                rom.config.cs_config.cs3,
                crate::hardware::pin_or_unset(hw.mcu.pins.cs3.spec_get(t)),
            )
        }
    }

    /// The multi-ROM scan from ROM `i` on reads only pins that fit, and the
    /// ROM that answers holds the byte.
    pub open spec fn multi_fits(self, address: usize, hw: HwConfig, i: int) -> bool
        decreases self.roms@.len() - i,
    {
        if i < 0 || i >= self.roms@.len() {
            true
        } else {
            &&& self.multi_step_fits(i, address, hw)
            &&& if self.rom_answers(i, address, hw) {
                self.rom_in_bounds(i, address, hw)
            } else {
                self.multi_fits(address, hw, i + 1)
            }
        }
    }

    /// The inputs on which `get_byte` serves a byte: the address is within
    /// the set's space (below 16KB for a single STM32F4 ROM, below 64KB
    /// otherwise), the pins read fit a shift, and the ROM read holds the byte.
    pub open spec fn get_byte_ok(self, address: usize, hw: HwConfig) -> bool {
        &&& data_map_fits(hw.pin_maps.data_view())
        &&& addr_map_fits(hw.pin_maps.addr_view())
        &&& if self.single_mode() {
            &&& if !self.is_banked {
                address < (if hw.mcu.family == McuFamily::Rp2350 { 65536usize } else { 16384usize })
            } else {
                address < 65536 && x_pins_fit(hw) && self.roms@.len() > 0
            }
            &&& self.rom_in_bounds(
                self.spec_single_target(address, hw).0,
                self.spec_single_target(address, hw).1,
                hw,
            )
        } else {
            address < 65536 && self.multi_fits(address, hw, 0)
        }
    }

    /// CS2 and CS3 of `rom_in_set` allow it to answer at `address`.
    pub fn check_rom_cs_requirements(&self, rom_in_set: &RomInSet, address: usize, hw: &HwConfig) -> (r:
        bool)
        requires
            cs_line_fits(
                rom_in_set.config.cs_config.cs2,
                crate::hardware::pin_or_unset(hw.mcu.pins.cs2.spec_get(rom_in_set.config.rom_type)),
            ),
            cs_line_fits(
                rom_in_set.config.cs_config.cs3,
                crate::hardware::pin_or_unset(hw.mcu.pins.cs3.spec_get(rom_in_set.config.rom_type)),
            ),
        ensures
            r == Self::spec_cs_requirements(*rom_in_set, address, *hw),
    {
        let cs_config = &rom_in_set.config.cs_config;
        let rom_type = &rom_in_set.config.rom_type;
        if let Some(cs2_logic) = cs_config.cs2 {
            match cs2_logic {
                CsLogic::Ignore => {},
                CsLogic::ActiveLow => {
                    let cs2_pin = hw.pin_cs2(rom_type);
                    let cs2_active = (address & (1usize << cs2_pin)) == 0;
                    if !cs2_active {
                        return false;
                    }
                },
                CsLogic::ActiveHigh => {
                    let cs2_pin = hw.pin_cs2(rom_type);
                    let cs2_active = (address & (1usize << cs2_pin)) != 0;
                    if cs2_active {
                        return false;
                    }
                },
            }
        }
        if let Some(cs3_logic) = cs_config.cs3 {
            match cs3_logic {
                CsLogic::Ignore => {},
                CsLogic::ActiveLow => {
                    let cs3_pin = hw.pin_cs3(rom_type);
                    let cs3_active = (address & (1usize << cs3_pin)) == 0;
                    if !cs3_active {
                        return false;
                    }
                },
                CsLogic::ActiveHigh => {
                    let cs3_pin = hw.pin_cs3(rom_type);
                    let cs3_active = (address & (1usize << cs3_pin)) != 0;
                    if cs3_active {
                        return false;
                    }
                },
            }
        }
        true
    }

    /// The byte the board serves at physical `address` for this set.
    pub fn get_byte(&self, address: usize, hw: &HwConfig) -> (r: u8)
        requires
            self.get_byte_ok(address, *hw),
        ensures
            r == self.spec_get_byte(address, *hw),
    {
        let phys_pin_to_data_map = hw.get_phys_pin_to_data_map();
        if self.roms.len() == 1 || self.is_banked {
            let (rom_index, masked_address) = if !self.is_banked {
                (0, address)
            } else {
                let x1_pin = hw.pin_x1();
                let x2_pin = hw.pin_x2();
                let bank = if hw.x_jumper_pull() == 1 {
                    ((address >> x1_pin) & 1) | (((address >> x2_pin) & 1) << 1usize)
                } else {
                    (!(address >> x1_pin) & 1) | ((!((address >> x2_pin) & 1)) << 1usize)
                };
                let mask = !(1usize << x1_pin) & !(1usize << x2_pin);
                let masked_address = address & mask;
                let rom_index = bank % self.roms.len();
                (rom_index, masked_address)
            };
            let rom = &self.roms[rom_index];
            let num_addr_lines = rom.config.rom_type.num_addr_lines();
            let phys_pin_to_addr_map = hw.get_phys_pin_to_addr_map(num_addr_lines);
            proof {
                lemma_addr_map_for_fits(*hw, num_addr_lines);
            }
            return rom.image.get_byte(
                masked_address,
                phys_pin_to_addr_map.as_slice(),
                &phys_pin_to_data_map,
            );
        }
        let mut index: usize = 0;
        while index < self.roms.len()
            invariant
                !self.single_mode(),
                data_map_fits(hw.pin_maps.data_view()),
                addr_map_fits(hw.pin_maps.addr_view()),
                phys_pin_to_data_map@ == hw.pin_maps.data_view(),
                self.multi_fits(address, *hw, index as int),
                self.first_answering(address, *hw, 0) == self.first_answering(
                    address,
                    *hw,
                    index as int,
                ),
            decreases self.roms.len() - index,
        {
            let rom_in_set = &self.roms[index];
            let num_addr_lines = rom_in_set.config.rom_type.num_addr_lines();
            let phys_pin_to_addr_map = hw.get_phys_pin_to_addr_map(num_addr_lines);
            proof {
                lemma_addr_map_for_fits(*hw, num_addr_lines);
            }
            let pins_active_high = rom_in_set.config.cs_config.cs1 == CsLogic::ActiveHigh;
            let cs_pin = hw.cs_pin_for_rom_in_set(&rom_in_set.config.rom_type, index);
            let cs_active = is_pin_active(pins_active_high, address, cs_pin);
            if cs_active {
                let cs1_pin = hw.pin_cs1(&rom_in_set.config.rom_type);
                let x1_pin = hw.pin_x1();
                let x2_pin = hw.pin_x2();
                let cs1_is_active = is_pin_active(pins_active_high, address, cs1_pin);
                let x1_is_active = is_pin_active(pins_active_high, address, x1_pin);
                let x2_is_active = is_pin_active(pins_active_high, address, x2_pin);
                let mut active_count: usize = 0;
                if cs1_is_active {
                    active_count = active_count + 1;
                }
                if x1_is_active {
                    active_count = active_count + 1;
                }
                if x2_is_active {
                    active_count = active_count + 1;
                }
                if active_count == 1 && self.check_rom_cs_requirements(rom_in_set, address, hw) {
                    return rom_in_set.image.get_byte(
                        address,
                        phys_pin_to_addr_map.as_slice(),
                        &phys_pin_to_data_map,
                    );
                }
            }
            index = index + 1;
        }
        Self::transform_byte_pad(&phys_pin_to_data_map)
    }

    fn transform_byte_pad(phys_pin_to_data_map: &[usize; 8]) -> (r: u8)
        requires
            data_map_fits(phys_pin_to_data_map@),
        ensures
            r == spec_transform_byte(PAD_BYTE, phys_pin_to_data_map@, 8),
    {
        RomImage::transform_byte(PAD_BYTE, phys_pin_to_data_map)
    }
}

proof fn lemma_addr_map_for_fits(hw: HwConfig, n: usize)
    requires
        addr_map_fits(hw.pin_maps.addr_view()),
    ensures
        addr_map_fits(hw.spec_addr_map_for(n)),
{
    let m = hw.spec_addr_map_for(n);
    assert forall|i: int| 0 <= i < m.len() implies (#[trigger] m[i] matches Some(b) ==> b
        < usize::BITS) by {
        assert(hw.pin_maps.addr_view()[i] matches Some(b) ==> b < usize::BITS);
    }
}

/// `a` with bit `pin` cleared.
pub open spec fn clear_bit(a: usize, pin: u8) -> usize {
    a & !(1usize << pin)
}

fn clear_pin(a: usize, pin: u8) -> (r: usize)
    requires
        pin < usize::BITS,
    ensures
        r == clear_bit(a, pin),
{
    a & !(1usize << pin)
}

impl RomSet {
    /// The pins whose bits `mask_cs_selection_bits` clears can be shifted
    /// to: CS1, X1 and X2 when the board has them (both below 15), and CS2
    /// and CS3 where the ROM type has them.
    pub open spec fn mask_ok(rom_type: RomType, hw: HwConfig) -> bool {
        let pins = hw.mcu.pins;
        &&& pin_or_unset(pins.cs1.spec_get(rom_type)) < usize::BITS
        &&& hw.spec_supports_multi_rom_sets() ==> pin_or_unset(pins.x1) < 15 && pin_or_unset(
            pins.x2,
        ) < 15
        &&& (rom_type == RomType::Rom2332 || rom_type == RomType::Rom2316) ==> pin_or_unset(
            pins.cs2.spec_get(rom_type),
        ) < usize::BITS
        &&& rom_type == RomType::Rom2316 ==> pin_or_unset(pins.cs3.spec_get(rom_type))
            < usize::BITS
    }

    /// `address` with its chip select bits cleared (CS1; X1 and X2 on boards
    /// with both; CS2 on the 2332 and 2316; CS3 on the 2316), then cut to
    /// its low 13 bits.
    pub open spec fn spec_mask_cs_selection_bits(
        address: usize,
        rom_type: RomType,
        hw: HwConfig,
    ) -> usize {
        let pins = hw.mcu.pins;
        let a1 = clear_bit(address, pin_or_unset(pins.cs1.spec_get(rom_type)));
        let a2 = if hw.spec_supports_multi_rom_sets() {
            clear_bit(clear_bit(a1, pin_or_unset(pins.x1)), pin_or_unset(pins.x2))
        } else {
            a1
        };
        let a3 = match rom_type {
            RomType::Rom2332 => clear_bit(a2, pin_or_unset(pins.cs2.spec_get(rom_type))),
            RomType::Rom2316 => clear_bit(
                clear_bit(a2, pin_or_unset(pins.cs2.spec_get(rom_type))),
                pin_or_unset(pins.cs3.spec_get(rom_type)),
            ),
            _ => a2,
        };
        a3 & 0x1fff
    }

    /// `address` with its chip select bits cleared, cut to 13 bits.
    pub fn mask_cs_selection_bits(&self, address: usize, rom_type: &RomType, hw: HwConfig) -> (r:
        usize)
        requires
            hw.x_pins_in_range(),
            Self::mask_ok(*rom_type, hw),
        ensures
            r == Self::spec_mask_cs_selection_bits(address, *rom_type, hw),
    {
        let mut masked_address = clear_pin(address, hw.pin_cs1(rom_type));
        if hw.supports_multi_rom_sets() {
            let x1 = hw.pin_x1();
            let x2 = hw.pin_x2();
            masked_address = clear_pin(masked_address, x1);
            masked_address = clear_pin(masked_address, x2);
        }
        match rom_type {
            RomType::Rom2332 => {
                masked_address = clear_pin(masked_address, hw.pin_cs2(rom_type));
            },
            RomType::Rom2316 => {
                masked_address = clear_pin(masked_address, hw.pin_cs2(rom_type));
                masked_address = clear_pin(masked_address, hw.pin_cs3(rom_type));
            },
            _ => {},
        }
        masked_address & 0x1fff
    }
}

/// Whether bit `i` of byte `b` is set.
pub open spec fn byte_bit(b: u8, i: int) -> bool {
    b & (1u8 << (i as u8)) != 0
}

proof fn lemma_or_bit_u8(x: u8, m: u8, k: u8)
    requires
        m < 8,
        k < 8,
    ensures
        ((x | (1u8 << m)) & (1u8 << k) != 0) == ((x & (1u8 << k) != 0) || k == m),
{
    assert(((x | (1u8 << m)) & (1u8 << k) != 0) == ((x & (1u8 << k) != 0) || k == m))
        by (bit_vector)
        requires
            m < 8,
            k < 8,
    ;
}

proof fn lemma_zero_bit_u8(k: u8)
    requires
        k < 8,
    ensures
        0u8 & (1u8 << k) == 0,
{
    assert(0u8 & (1u8 << k) == 0) by (bit_vector);
}

/// Bit `k` of a transformed byte is set exactly when some bit `i` among
/// the first `n` of the byte is set and moves to `k`.
pub proof fn law_transform_byte_bits(byte: u8, map: Seq<usize>, n: int, k: int)
    requires
        data_map_fits(map),
        0 <= n <= 8,
        0 <= k < 8,
    ensures
        byte_bit(spec_transform_byte(byte, map, n), k) <==> exists|i: int|
            0 <= i < n && map[i] == k && #[trigger] byte_bit(byte, i),
    decreases n,
{
    if n <= 0 {
        lemma_zero_bit_u8(k as u8);
    } else {
        law_transform_byte_bits(byte, map, n - 1, k);
        let prev = spec_transform_byte(byte, map, n - 1);
        let m = map[n - 1];
        assert(m < 8);
        if byte & (1u8 << (n - 1) as u8) != 0 {
            lemma_or_bit_u8(prev, m as u8, k as u8);
            assert(byte_bit(byte, n - 1));
            if m == k {
                assert(0 <= n - 1 < n && map[n - 1] == k && byte_bit(byte, n - 1));
            }
        } else {
            assert(!byte_bit(byte, n - 1));
        }
        if exists|i: int| 0 <= i < n && map[i] == k && #[trigger] byte_bit(byte, i) {
            let i = choose|i: int| 0 <= i < n && map[i] == k && #[trigger] byte_bit(byte, i);
            if i < n - 1 {
                assert(exists|i2: int| 0 <= i2 < n - 1 && map[i2] == k && #[trigger] byte_bit(byte, i2));
            }
        }
    }
}

proof fn lemma_byte_eq_from_bits(x: u8, y: u8)
    requires
        forall|k: int| 0 <= k < 8 ==> byte_bit(x, k) == byte_bit(y, k),
    ensures
        x == y,
{
    assert(byte_bit(x, 0) == byte_bit(y, 0));
    assert(byte_bit(x, 1) == byte_bit(y, 1));
    assert(byte_bit(x, 2) == byte_bit(y, 2));
    assert(byte_bit(x, 3) == byte_bit(y, 3));
    assert(byte_bit(x, 4) == byte_bit(y, 4));
    assert(byte_bit(x, 5) == byte_bit(y, 5));
    assert(byte_bit(x, 6) == byte_bit(y, 6));
    assert(byte_bit(x, 7) == byte_bit(y, 7));
    assert(x == y) by (bit_vector)
        requires
            (x & (1u8 << 0u8) != 0) == (y & (1u8 << 0u8) != 0),
            (x & (1u8 << 1u8) != 0) == (y & (1u8 << 1u8) != 0),
            (x & (1u8 << 2u8) != 0) == (y & (1u8 << 2u8) != 0),
            (x & (1u8 << 3u8) != 0) == (y & (1u8 << 3u8) != 0),
            (x & (1u8 << 4u8) != 0) == (y & (1u8 << 4u8) != 0),
            (x & (1u8 << 5u8) != 0) == (y & (1u8 << 5u8) != 0),
            (x & (1u8 << 6u8) != 0) == (y & (1u8 << 6u8) != 0),
            (x & (1u8 << 7u8) != 0) == (y & (1u8 << 7u8) != 0),
    ;
}

/// Moving a byte's bits with a data map and then with its inverse gives
/// the byte back: the data line wiring loses nothing.
pub proof fn law_transform_byte_round_trip(byte: u8, map: Seq<usize>, inv: Seq<usize>)
    requires
        data_map_fits(map),
        data_map_fits(inv),
        forall|i: int| 0 <= i < 8 ==> inv[#[trigger] map[i] as int] == i,
    ensures
        spec_transform_byte(spec_transform_byte(byte, map, 8), inv, 8) == byte,
{
    let t = spec_transform_byte(byte, map, 8);
    let r = spec_transform_byte(t, inv, 8);
    assert forall|k: int| 0 <= k < 8 implies byte_bit(r, k) == byte_bit(byte, k) by {
        law_transform_byte_bits(t, inv, 8, k);
        if byte_bit(byte, k) {
            let j = map[k] as int;
            assert(inv[j] == k);
            law_transform_byte_bits(byte, map, 8, j);
            assert(byte_bit(t, j));
            assert(0 <= j < 8 && inv[j] == k && byte_bit(t, j));
        }
        if byte_bit(r, k) {
            let j = choose|j: int| 0 <= j < 8 && inv[j] == k && #[trigger] byte_bit(t, j);
            law_transform_byte_bits(byte, map, 8, j);
            let i = choose|i: int| 0 <= i < 8 && map[i] == j && #[trigger] byte_bit(byte, i);
            assert(inv[map[i] as int] == i);
        }
    }
    lemma_byte_eq_from_bits(r, byte);
}

/// The byte served at a physical address, with its bits put back through
/// the inverse of the data map, is the image byte at the logical address.
pub proof fn law_get_byte_recovers_image(
    image: RomImage,
    address: usize,
    addr_map: Seq<Option<usize>>,
    data_map: Seq<usize>,
    inv: Seq<usize>,
)
    requires
        data_map_fits(data_map),
        data_map_fits(inv),
        forall|i: int| 0 <= i < 8 ==> inv[#[trigger] data_map[i] as int] == i,
    ensures
        spec_transform_byte(image.spec_get_byte(address, addr_map, data_map), inv, 8)
            == image.data@[spec_transform_address(address, addr_map, addr_map.len() as int) as int],
{
    law_transform_byte_round_trip(
        image.data@[spec_transform_address(address, addr_map, addr_map.len() as int) as int],
        data_map,
        inv,
    );
}

proof fn lemma_or_bit_usize(x: usize, m: usize, k: usize)
    requires
        m < usize::BITS,
        k < usize::BITS,
    ensures
        ((x | (1usize << m)) & (1usize << k) != 0) == ((x & (1usize << k) != 0) || k == m),
{
    assert(((x | (1usize << m)) & (1usize << k) != 0) == ((x & (1usize << k) != 0) || k == m))
        by (bit_vector)
        requires
            m < usize::BITS,
            k < usize::BITS,
    ;
}

proof fn lemma_zero_bit_usize(k: usize)
    requires
        k < usize::BITS,
    ensures
        0usize & (1usize << k) == 0,
{
    assert(0usize & (1usize << k) == 0) by (bit_vector);
}

/// Bit `b` of the logical address is set exactly when some physical pin
/// `p` among the first `n`, wired to address line `b`, is set.
pub proof fn law_transform_address_bits(address: usize, map: Seq<Option<usize>>, n: int, b: usize)
    requires
        addr_map_fits(map),
        0 <= n <= map.len(),
        b < usize::BITS,
    ensures
        bit_set(spec_transform_address(address, map, n), b) <==> exists|p: int|
            0 <= p < n && map[p] == Some(b) && #[trigger] bit_set(address, p as usize),
    decreases n,
{
    if n <= 0 {
        lemma_zero_bit_usize(b);
    } else {
        law_transform_address_bits(address, map, n - 1, b);
        let prev = spec_transform_address(address, map, n - 1);
        match map[n - 1] {
            Some(m) => {
                assert(m < usize::BITS);
                if bit_set(address, (n - 1) as usize) {
                    lemma_or_bit_usize(prev, m, b);
                    if m == b {
                        assert(0 <= n - 1 < n && map[n - 1] == Some(b) && bit_set(
                            address,
                            (n - 1) as usize,
                        ));
                    }
                }
            },
            None => {},
        }
        if exists|p: int| 0 <= p < n && map[p] == Some(b) && #[trigger] bit_set(address, p as usize) {
            let p = choose|p: int|
                0 <= p < n && map[p] == Some(b) && #[trigger] bit_set(address, p as usize);
            if p < n - 1 {
                assert(exists|p2: int|
                    0 <= p2 < n - 1 && map[p2] == Some(b) && #[trigger] bit_set(address, p2 as usize));
            }
        }
    }
}

/// A ROM file that is accepted becomes an image of exactly the ROM's size
/// that begins with the file's bytes.
pub proof fn law_sized_image_fits_rom(data: Seq<u8>, rom_type: RomType, size_handling: SizeHandling)
    requires
        spec_sized_image(data, rom_type.spec_size_bytes(), size_handling) is Ok,
    ensures
        ({
            let img = spec_sized_image(data, rom_type.spec_size_bytes(), size_handling)->Ok_0;
            &&& img.len() == rom_type.spec_size_bytes()
            &&& forall|i: int| 0 <= i < data.len() ==> #[trigger] img[i] == data[i]
        }),
{
    let img = spec_sized_image(data, rom_type.spec_size_bytes(), size_handling)->Ok_0;
    if data.len() < rom_type.spec_size_bytes() && size_handling == SizeHandling::Duplicate {
        assert forall|i: int| 0 <= i < data.len() implies #[trigger] img[i] == data[i] by {
            assert(i % (data.len() as int) == i) by (nonlinear_arith)
                requires
                    0 <= i < data.len(),
            ;
        }
    }
}

/// Duplication repeats the whole file: an accepted duplicated image starts
/// with the file, and every byte equals the byte one file-length earlier,
/// all the way to the end of the ROM.  Padding keeps the file and fills the
/// rest with 0xAA.
pub proof fn law_sized_image_repeats_or_pads(data: Seq<u8>, rom_type: RomType, size_handling: SizeHandling)
    requires
        spec_sized_image(data, rom_type.spec_size_bytes(), size_handling) is Ok,
        data.len() < rom_type.spec_size_bytes(),
        !(data.len() == 0 && size_handling == SizeHandling::Duplicate),
    ensures
        ({
            let img = spec_sized_image(data, rom_type.spec_size_bytes(), size_handling)->Ok_0;
            &&& size_handling == SizeHandling::Duplicate ==> {
                &&& img.len() == rom_type.spec_size_bytes()
                &&& img.len() % data.len() == 0
                &&& img.subrange(0, data.len() as int) == data
                &&& forall|i: int|
                    data.len() <= i < img.len() ==> #[trigger] img[i] == img[i - data.len()]
            }
            &&& size_handling == SizeHandling::Pad ==> {
                &&& img.len() == rom_type.spec_size_bytes()
                &&& img.subrange(0, data.len() as int) == data
                &&& forall|i: int| data.len() <= i < img.len() ==> #[trigger] img[i] == PAD_BYTE
            }
        }),
{
    let img = spec_sized_image(data, rom_type.spec_size_bytes(), size_handling)->Ok_0;
    law_sized_image_fits_rom(data, rom_type, size_handling);
    if size_handling == SizeHandling::Duplicate {
        let n = data.len() as int;
        assert forall|i: int| n <= i < img.len() implies #[trigger] img[i] == img[i - n] by {
            assert((i - n) % n == i % n) by (nonlinear_arith)
                requires
                    n > 0,
                    i >= n,
            {
                vstd::arithmetic::div_mod::lemma_mod_sub_multiples_vanish(i, n);
            }
        }
        assert(img.subrange(0, n) =~= data);
    } else if size_handling == SizeHandling::Pad {
        assert(img.subrange(0, data.len() as int) =~= data);
    }
}

/// Which files are refused, and why: a file larger than the ROM is too
/// large; one of exactly the ROM's size is kept as is, or refused when
/// duplication or padding was asked for; a smaller one is too small unless
/// duplication or padding was asked for, and duplication needs its length
/// to divide the ROM's size.  Every accepted image has the ROM's size.
pub proof fn law_sized_image_outcome(data: Seq<u8>, rom_type: RomType, size_handling: SizeHandling)
    requires
        !(data.len() == 0 && size_handling == SizeHandling::Duplicate),
    ensures
        ({
            let expected = rom_type.spec_size_bytes();
            let r = spec_sized_image(data, expected, size_handling);
            &&& data.len() > expected ==> r == Err::<Seq<u8>, RomSizeError>(
                RomSizeError::TooLarge { expected, actual: data.len() as usize },
            )
            &&& (data.len() == expected && size_handling == SizeHandling::NoChange) ==> r == Ok::<
                Seq<u8>,
                RomSizeError,
            >(data)
            &&& (data.len() == expected && size_handling != SizeHandling::NoChange) ==> r == Err::<
                Seq<u8>,
                RomSizeError,
            >(RomSizeError::AlreadyCorrectSize { expected })
            &&& (data.len() < expected && size_handling == SizeHandling::NoChange) ==> r == Err::<
                Seq<u8>,
                RomSizeError,
            >(RomSizeError::TooSmall { expected, actual: data.len() as usize })
            &&& (data.len() < expected && size_handling == SizeHandling::Duplicate) ==> (r is Err
                <==> (expected as int) % (data.len() as int) != 0)
            &&& (data.len() < expected && size_handling == SizeHandling::Duplicate && (
            expected as int) % (data.len() as int) != 0) ==> r == Err::<Seq<u8>, RomSizeError>(
                RomSizeError::NotExactDivisor { actual: data.len() as usize, expected },
            )
            &&& (data.len() < expected && size_handling == SizeHandling::Pad) ==> r is Ok
            &&& r matches Ok(img) ==> img.len() == expected
        }),
{
    if spec_sized_image(data, rom_type.spec_size_bytes(), size_handling) is Ok {
        law_sized_image_fits_rom(data, rom_type, size_handling);
    }
}

proof fn lemma_first_answering_answers(set: RomSet, address: usize, hw: HwConfig, j: int, i: int)
    requires
        set.first_answering(address, hw, j) == Some(i),
    ensures
        0 <= j <= i < set.roms@.len(),
        set.rom_answers(i, address, hw),
    decreases set.roms@.len() - j,
{
    if !set.rom_answers(j, address, hw) {
        lemma_first_answering_answers(set, address, hw, j + 1, i);
    }
}

proof fn lemma_answering_rom_found(set: RomSet, address: usize, hw: HwConfig, j: int, i: int)
    requires
        0 <= j <= i < set.roms@.len(),
        set.rom_answers(i, address, hw),
    ensures
        set.first_answering(address, hw, j) matches Some(k) && j <= k <= i,
    decreases i - j,
{
    if !set.rom_answers(j, address, hw) {
        lemma_answering_rom_found(set, address, hw, j + 1, i);
    }
}

/// Whether ROM `i` of a multi-ROM set is selected at `address`, read off the
/// pins: its own select pin is active, exactly one of CS1, X1 and X2 is
/// active (in the sense of its CS1), and each CS2 or CS3 line it is
/// configured with, active low or high alike, has its address bit clear.
pub open spec fn rom_selected_by_pins(set: RomSet, i: int, address: usize, hw: HwConfig) -> bool {
    let rom = set.roms@[i];
    let t = rom.config.rom_type;
    let high = rom.config.cs_config.cs1 == CsLogic::ActiveHigh;
    let cs1 = pin_active(high, address, crate::hardware::pin_or_unset(hw.mcu.pins.cs1.spec_get(t)));
    let x1 = pin_active(high, address, crate::hardware::pin_or_unset(hw.mcu.pins.x1));
    let x2 = pin_active(high, address, crate::hardware::pin_or_unset(hw.mcu.pins.x2));
    &&& pin_active(high, address, hw.spec_cs_pin_for_rom_in_set(t, i as usize))
    &&& (if cs1 { 1int } else { 0 }) + (if x1 { 1int } else { 0 }) + (if x2 { 1int } else { 0 }) == 1
    &&& (rom.config.cs_config.cs2 matches Some(l) && l != CsLogic::Ignore) ==> !bit_set(
        address,
        crate::hardware::pin_or_unset(hw.mcu.pins.cs2.spec_get(t)) as usize,
    )
    &&& (rom.config.cs_config.cs3 matches Some(l) && l != CsLogic::Ignore) ==> !bit_set(
        address,
        crate::hardware::pin_or_unset(hw.mcu.pins.cs3.spec_get(t)) as usize,
    )
}

/// In a multi-ROM set, a ROM selected by the pins, or one before it that
/// is, serves the byte; and when no ROM is selected the byte is 0xAA
/// through the data lines.
pub proof fn law_multi_rom_selected_rom_serves(set: RomSet, address: usize, hw: HwConfig, i: int)
    requires
        !set.single_mode(),
        0 <= i < set.roms@.len(),
        rom_selected_by_pins(set, i, address, hw),
    ensures
        set.first_answering(address, hw, 0) matches Some(k) && k <= i && set.spec_get_byte(
            address,
            hw,
        ) == set.rom_byte(k, address, hw) && rom_selected_by_pins(set, k, address, hw),
{
    lemma_answering_rom_found(set, address, hw, 0, i);
    let k = set.first_answering(address, hw, 0)->Some_0;
    lemma_first_answering_answers(set, address, hw, 0, k);
}

/// In a multi-ROM set where no ROM is selected by the pins, the byte served
/// is 0xAA through the data lines.
pub proof fn law_multi_rom_none_selected_pads(set: RomSet, address: usize, hw: HwConfig)
    requires
        !set.single_mode(),
        forall|i: int| 0 <= i < set.roms@.len() ==> !rom_selected_by_pins(set, i, address, hw),
    ensures
        set.spec_get_byte(address, hw) == spec_transform_byte(PAD_BYTE, hw.pin_maps.data_view(), 8),
{
    if set.first_answering(address, hw, 0) is Some {
        let k = set.first_answering(address, hw, 0)->Some_0;
        lemma_first_answering_answers(set, address, hw, 0, k);
        assert(!rom_selected_by_pins(set, k, address, hw));
    }
}

/// In a multi-ROM set, the ROM whose byte is served has its own select pin
/// active, and every CS2 or CS3 line it is configured with (active low or
/// high alike) has its address bit clear: a ROM whose configured CS2 or CS3
/// bit is set never serves the byte.
pub proof fn law_multi_rom_served_rom_is_selected(set: RomSet, address: usize, hw: HwConfig, i: int)
    requires
        !set.single_mode(),
        set.first_answering(address, hw, 0) == Some(i),
    ensures
        0 <= i < set.roms@.len(),
        set.spec_get_byte(address, hw) == set.rom_byte(i, address, hw),
        rom_selected_by_pins(set, i, address, hw),
        ({
            let rom = set.roms@[i];
            let t = rom.config.rom_type;
            let high = rom.config.cs_config.cs1 == CsLogic::ActiveHigh;
            &&& pin_active(high, address, hw.spec_cs_pin_for_rom_in_set(t, i as usize))
            &&& (rom.config.cs_config.cs2 matches Some(l) && l != CsLogic::Ignore) ==> !bit_set(
                address,
                crate::hardware::pin_or_unset(hw.mcu.pins.cs2.spec_get(t)) as usize,
            )
            &&& (rom.config.cs_config.cs3 matches Some(l) && l != CsLogic::Ignore) ==> !bit_set(
                address,
                crate::hardware::pin_or_unset(hw.mcu.pins.cs3.spec_get(t)) as usize,
            )
        }),
{
    lemma_first_answering_answers(set, address, hw, 0, i);
}

} // verus!
