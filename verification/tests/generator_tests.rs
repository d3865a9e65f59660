use sdrr::config::{Config, CsConfig, RomConfig, RomInSet, SizeHandling};
use sdrr::hardware::{HwConfig, Mcu, McuPins, McuPorts, Port, Rom, RomPinMap, RomPins};
use sdrr::preprocessor::{RomImage, RomSet, RomSizeError};
use sdrr::sdrr_types::{CsLogic, McuFamily, McuVariant, RomType, ServeAlg};

fn rom_map(pin: u8) -> RomPinMap {
    RomPinMap { rom2316: Some(pin), rom2332: Some(pin), rom2364: Some(pin), rom23128: None }
}

fn stm_mcu(x_pins: bool, status: u8) -> Mcu {
    Mcu {
        family: McuFamily::Stm32F4,
        ports: McuPorts {
            data_port: Port::A,
            addr_port: Port::C,
            cs_port: Port::C,
            sel_port: Port::B,
            status_port: Port::B,
        },
        pins: McuPins {
            data: vec![0, 1, 2, 3, 4, 5, 6, 7],
            addr: vec![0, 1, 2, 3, 4, 5, 6, 7, 8, 9, 10, 11, 12],
            cs1: rom_map(13),
            cs2: RomPinMap { rom2316: Some(12), rom2332: Some(12), rom2364: None, rom23128: None },
            cs3: RomPinMap { rom2316: Some(11), rom2332: None, rom2364: None, rom23128: None },
            x1: if x_pins { Some(14) } else { None },
            x2: if x_pins { Some(15) } else { None },
            ce: RomPinMap::new(),
            oe: RomPinMap::new(),
            x_jumper_pull: 1,
            sel: vec![0, 1, 2, 3],
            sel_jumper_pull: 1,
            status,
        },
        usb: None,
    }
}

fn board(x_pins: bool) -> HwConfig {
    HwConfig::new("board".to_string(), Rom { pins: RomPins { quantity: 24 } }, stm_mcu(x_pins, 15), "board")
        .unwrap()
}

fn cs_low() -> CsConfig {
    CsConfig::new(CsLogic::ActiveLow, None, None)
}

fn rom(rom_type: RomType, cs: CsConfig, set: Option<usize>, bank: Option<usize>) -> RomConfig {
    RomConfig {
        file: "rom.bin".to_string(),
        original_source: String::new(),
        extract: None,
        licence: None,
        rom_type,
        cs_config: cs,
        size_handling: SizeHandling::NoChange,
        set,
        bank,
    }
}

fn config(roms: Vec<RomConfig>) -> Config {
    Config {
        roms,
        mcu_variant: McuVariant::F411RE,
        output_dir: "out".to_string(),
        swd: true,
        count_rom_access: false,
        mco: false,
        mco2: false,
        boot_logging: false,
        main_loop_logging: false,
        main_loop_one_shot: false,
        debug_logging: false,
        overwrite: false,
        hse: false,
        hw: board(true),
        freq: 100,
        status_led: false,
        overclock: false,
        bootloader: false,
        preload_to_ram: false,
        auto_yes: false,
        serve_alg: ServeAlg::Default,
    }
}

fn image(len: usize, seed: u8) -> RomImage {
    RomImage { data: (0..len).map(|i| (i as u8).wrapping_add(seed)).collect() }
}

fn validate(c: &mut Config) -> Result<(), String> {
    c.validate(None)
}

// --- image sizing ---

#[test]
fn from_data_exact_size() {
    let img = RomImage::from_data(vec![1u8; 8192], &RomType::Rom2364, &SizeHandling::NoChange).unwrap();
    assert_eq!(img.data.len(), 8192);
}

#[test]
fn from_data_duplicates_and_pads() {
    let img = RomImage::from_data(vec![1, 2, 3, 4], &RomType::Rom2316, &SizeHandling::Duplicate).unwrap();
    assert_eq!(img.data.len(), 2048);
    assert_eq!(&img.data[0..6], &[1, 2, 3, 4, 1, 2]);
    let img = RomImage::from_data(vec![9, 8], &RomType::Rom2316, &SizeHandling::Pad).unwrap();
    assert_eq!(img.data.len(), 2048);
    assert_eq!(&img.data[0..4], &[9, 8, 0xAA, 0xAA]);
}

#[test]
fn from_data_errors() {
    assert_eq!(
        RomImage::from_data(vec![0; 2048], &RomType::Rom2316, &SizeHandling::Pad).unwrap_err(),
        RomSizeError::AlreadyCorrectSize { expected: 2048 }
    );
    assert_eq!(
        RomImage::from_data(vec![0; 100], &RomType::Rom2316, &SizeHandling::NoChange).unwrap_err(),
        RomSizeError::TooSmall { expected: 2048, actual: 100 }
    );
    assert_eq!(
        RomImage::from_data(vec![0; 100], &RomType::Rom2316, &SizeHandling::Duplicate).unwrap_err(),
        RomSizeError::NotExactDivisor { actual: 100, expected: 2048 }
    );
    assert_eq!(
        RomImage::from_data(vec![0; 4096], &RomType::Rom2316, &SizeHandling::NoChange).unwrap_err(),
        RomSizeError::TooLarge { expected: 2048, actual: 4096 }
    );
}

// --- bit rearrangement ---

#[test]
fn transform_byte_moves_bits() {
    let map = [0usize, 1, 2, 7, 6, 5, 4, 3];
    assert_eq!(RomImage::transform_byte(0x80, &map), 0x08);
    assert_eq!(RomImage::transform_byte(0x08, &map), 0x80);
    assert_eq!(RomImage::transform_byte(0x07, &map), 0x07);
    assert_eq!(RomImage::transform_byte(0x10, &map), 0x40);
}

#[test]
fn transform_byte_round_trips_through_inverse() {
    let map = [3usize, 0, 7, 1, 6, 2, 5, 4];
    let mut inv = [0usize; 8];
    for (i, &m) in map.iter().enumerate() {
        inv[m] = i;
    }
    for b in 0..=255u8 {
        let t = RomImage::transform_byte(b, &map);
        assert_eq!(RomImage::transform_byte(t, &inv), b);
    }
}

#[test]
fn transform_address_moves_bits() {
    let img = image(8, 0);
    let map = vec![Some(2usize), None, Some(0), Some(1)];
    assert_eq!(img.transform_address(0b0001, &map), 0b100);
    assert_eq!(img.transform_address(0b0010, &map), 0);
    assert_eq!(img.transform_address(0b1100, &map), 0b011);
}

#[test]
fn image_get_byte_uses_both_maps() {
    let img = image(8, 0);
    let addr_map = vec![Some(2usize), None, Some(0), Some(1)];
    let data_map = [7usize, 6, 5, 4, 3, 2, 1, 0];
    // physical 0b0101 -> logical 0b101 = 5 -> byte 5 with its bits reversed = 0xA0
    assert_eq!(img.get_byte(0b0101, &addr_map, &data_map), 0xA0);
    // physical 0b1000 -> logical 0b010 = 2 -> 0x40
    assert_eq!(img.get_byte(0b1000, &addr_map, &data_map), 0x40);
}

// --- serving a set ---

fn single_set(hw: &HwConfig) -> RomSet {
    let _ = hw;
    RomSet {
        id: 0,
        roms: vec![RomInSet { config: rom(RomType::Rom2364, cs_low(), None, None), image: image(8192, 0), original_index: 0 }],
        is_banked: false,
    }
}

#[test]
fn single_rom_set_serves_image() {
    let hw = board(true);
    let set = single_set(&hw);
    assert_eq!(set.get_byte(5, &hw), 5);
    assert_eq!(set.get_byte(0x2005, &hw), 5);
    assert_eq!(set.get_byte(0x0123, &hw), 0x23);
}

#[test]
fn banked_set_selects_by_x_pins() {
    let hw = board(true);
    let set = RomSet {
        id: 0,
        roms: vec![
            RomInSet { config: rom(RomType::Rom2364, cs_low(), Some(0), Some(0)), image: image(8192, 0), original_index: 0 },
            RomInSet { config: rom(RomType::Rom2364, cs_low(), Some(0), Some(1)), image: image(8192, 100), original_index: 1 },
        ],
        is_banked: true,
    };
    assert_eq!(set.get_byte(0x0003, &hw), 3);
    assert_eq!(set.get_byte(0x4003, &hw), 103);
    assert_eq!(set.get_byte(0x8003, &hw), 3);
    assert_eq!(set.get_byte(0xC003, &hw), 103);
}

#[test]
fn multi_rom_set_selects_by_chip_select() {
    let hw = board(true);
    let set = RomSet {
        id: 0,
        roms: vec![
            RomInSet { config: rom(RomType::Rom2364, cs_low(), Some(0), None), image: image(8192, 0), original_index: 0 },
            RomInSet { config: rom(RomType::Rom2364, cs_low(), Some(0), None), image: image(8192, 100), original_index: 1 },
        ],
        is_banked: false,
    };
    // ROM 0: CS1 (pin 13) low, X1/X2 high.
    assert_eq!(set.get_byte(0xC005, &hw), 5);
    // ROM 1: X1 (pin 14) low, CS1/X2 high.
    assert_eq!(set.get_byte(0xA007, &hw), 107);
    // Nothing selected: the pad byte.
    assert_eq!(set.get_byte(0xE000, &hw), 0xAA);
    // Two selects active at once: the pad byte.
    assert_eq!(set.get_byte(0x8000, &hw), 0xAA);
}

#[test]
fn cs_requirements_follow_senses() {
    let hw = board(true);
    let set = single_set(&hw);
    let r = RomInSet {
        config: rom(RomType::Rom2332, CsConfig::new(CsLogic::ActiveLow, Some(CsLogic::ActiveLow), None), None, None),
        image: image(4096, 0),
        original_index: 0,
    };
    assert!(set.check_rom_cs_requirements(&r, 0x0000, &hw));
    assert!(!set.check_rom_cs_requirements(&r, 1 << 12, &hw));
}

#[test]
fn mask_cs_selection_bits_clears_selects() {
    let hw = board(true);
    let set = single_set(&hw);
    assert_eq!(set.mask_cs_selection_bits(0xFFFF, &RomType::Rom2364, hw.clone()), 0x1FFF);
    assert_eq!(set.mask_cs_selection_bits(0xFFFF, &RomType::Rom2332, hw.clone()), 0x0FFF);
    assert_eq!(set.mask_cs_selection_bits(0xFFFF, &RomType::Rom2316, hw.clone()), 0x07FF);
}

// --- chip selects ---

#[test]
fn cs_config_validation_messages() {
    assert!(cs_low().validate(&RomType::Rom2364).is_ok());
    assert_eq!(
        CsConfig::new(CsLogic::Ignore, None, None).validate(&RomType::Rom2364).unwrap_err(),
        "CS1 cannot be set to 'ignore' - it must be active high or low"
    );
    assert_eq!(
        CsConfig::new(CsLogic::ActiveLow, Some(CsLogic::ActiveHigh), None).validate(&RomType::Rom2364).unwrap_err(),
        "ROM type 2364 requires 1 CS line(s)"
    );
    assert_eq!(
        CsConfig::new(CsLogic::ActiveLow, Some(CsLogic::ActiveHigh), Some(CsLogic::ActiveLow))
            .validate(&RomType::Rom2332)
            .unwrap_err(),
        "ROM type 2332 does not support CS3"
    );
    assert_eq!(
        cs_low().validate(&RomType::Rom2332).unwrap_err(),
        "ROM type 2332 requires 2 CS line(s)"
    );
    assert_eq!(
        CsConfig::new(CsLogic::ActiveLow, Some(CsLogic::ActiveLow), None).validate(&RomType::Rom2316).unwrap_err(),
        "ROM type 2316 requires 3 CS line(s)"
    );
    assert!(CsConfig::new(CsLogic::ActiveHigh, Some(CsLogic::ActiveLow), Some(CsLogic::Ignore))
        .validate(&RomType::Rom2316)
        .is_ok());
}

// --- configuration checks ---

#[test]
fn validate_accepts_plain_config() {
    let mut c = config(vec![rom(RomType::Rom2364, cs_low(), None, None)]);
    assert_eq!(validate(&mut c), Ok(()));
}

#[test]
fn validate_head_messages() {
    let mut c = config(vec![]);
    assert_eq!(validate(&mut c).unwrap_err(), "At least one ROM image must be provided");

    let mut c = config(vec![rom(RomType::Rom2364, CsConfig::new(CsLogic::Ignore, None, None), None, None)]);
    assert_eq!(validate(&mut c).unwrap_err(), "CS1 cannot be set to 'ignore' - it must be active high or low");

    let mut c = config(vec![rom(RomType::Rom2364, cs_low(), None, None)]);
    assert_eq!(
        c.validate(Some("out/roms.h".to_string())).unwrap_err(),
        "Output file 'out/roms.h' already exists. Use --overwrite to overwrite."
    );
    c.overwrite = true;
    assert_eq!(c.validate(Some("out/roms.h".to_string())), Ok(()));

    let mut c = config(vec![rom(RomType::Rom2364, cs_low(), None, None)]);
    c.status_led = true;
    c.hw = HwConfig::new("b".to_string(), Rom { pins: RomPins { quantity: 24 } }, stm_mcu(true, 255), "b").unwrap();
    assert_eq!(
        validate(&mut c).unwrap_err(),
        "Status LED enabled but no status LED pin configured for selected hardware"
    );

    let mut c = config(vec![rom(RomType::Rom2364, cs_low(), None, None)]);
    c.mcu_variant = McuVariant::Rp2350;
    assert_eq!(validate(&mut c).unwrap_err(), "STM32 variant rp2350 does not match hardware family F4");
}

#[test]
fn validate_frequency_message() {
    let mut c = config(vec![rom(RomType::Rom2364, cs_low(), None, None)]);
    c.freq = 300;
    assert_eq!(
        validate(&mut c).unwrap_err(),
        "Frequency 300MHz is not valid for variant stm32f411re. Valid range: 16-100MHz"
    );
}

#[test]
fn validate_leaves_config_unchanged() {
    let mut c = config(vec![rom(RomType::Rom2364, cs_low(), Some(0), None)]);
    let before = format!("{:?}", c.roms);
    let _ = validate(&mut c);
    assert_eq!(format!("{:?}", c.roms), before);
}

#[test]
fn validate_set_numbering() {
    let mut c = config(vec![rom(RomType::Rom2364, cs_low(), Some(0), None), rom(RomType::Rom2364, cs_low(), None, None)]);
    assert_eq!(validate(&mut c).unwrap_err(), "When using sets, all ROMs must specify a set number");
    let mut c = config(vec![rom(RomType::Rom2364, cs_low(), Some(1), None)]);
    assert_eq!(
        validate(&mut c).unwrap_err(),
        "ROM sets must be numbered sequentially starting from 0. Missing set 0"
    );
    let mut c = config(vec![rom(RomType::Rom2364, cs_low(), Some(0), None), rom(RomType::Rom2364, cs_low(), Some(2), None)]);
    assert_eq!(
        validate(&mut c).unwrap_err(),
        "ROM sets must be numbered sequentially starting from 0. Missing set 1"
    );
    let mut c = config(vec![rom(RomType::Rom2364, cs_low(), Some(1), None), rom(RomType::Rom2364, cs_low(), Some(0), None)]);
    assert_eq!(validate(&mut c), Ok(()));
}

#[test]
fn validate_banked_sets() {
    let banked = |bank| rom(RomType::Rom2364, cs_low(), Some(0), Some(bank));
    let mut c = config(vec![banked(0), banked(1)]);
    assert_eq!(validate(&mut c), Ok(()));

    let mut c = config(vec![banked(0), banked(1)]);
    c.hw = board(false);
    assert_eq!(
        validate(&mut c).unwrap_err(),
        "Bank switched sets of ROMs are only supported on hardware revision F onwards"
    );

    let mut c = config(vec![banked(0), banked(1)]);
    c.mcu_variant = McuVariant::F401RB;
    c.freq = 84;
    assert_eq!(
        validate(&mut c).unwrap_err(),
        "Set 0: banked ROMs are not supported on STM32 variant stm32f401rb due to lack of RAM and/or flash"
    );

    let mut c = config(vec![banked(0), rom(RomType::Rom2364, cs_low(), Some(0), None)]);
    assert_eq!(
        validate(&mut c).unwrap_err(),
        "Set 0: when using banks, all ROMs in the set must specify a bank number"
    );

    let mut c = config(vec![banked(0), banked(1), banked(2), banked(3), banked(0)]);
    assert_eq!(validate(&mut c).unwrap_err(), "Set 0: banked sets can contain maximum 4 ROMs, found 5");

    let mut c = config(vec![banked(0), banked(2)]);
    assert_eq!(
        validate(&mut c).unwrap_err(),
        "Set 0: bank numbers must be sequential starting from 0. Missing bank 1"
    );

    let mut c = config(vec![banked(0), rom(RomType::Rom2332, CsConfig::new(CsLogic::ActiveLow, Some(CsLogic::ActiveLow), None), Some(0), Some(1))]);
    assert_eq!(
        validate(&mut c).unwrap_err(),
        "Set 0: all ROMs in a banked set must have the same type. Found 2364 and 2332"
    );

    let mut c = config(vec![banked(0), rom(RomType::Rom2364, CsConfig::new(CsLogic::ActiveHigh, None, None), Some(0), Some(1))]);
    assert_eq!(
        validate(&mut c).unwrap_err(),
        "Set 0: all ROMs in a banked set must have the same CS configuration"
    );
}

#[test]
fn validate_multi_rom_sets() {
    let multi = || rom(RomType::Rom2364, cs_low(), Some(0), None);
    let mut c = config(vec![multi(), multi(), multi()]);
    assert_eq!(validate(&mut c), Ok(()));

    let mut c = config(vec![multi(), multi(), multi(), multi()]);
    assert_eq!(validate(&mut c).unwrap_err(), "Set 0: multi-ROM sets can contain maximum 3 ROMs, found 4");

    let mut c = config(vec![multi()]);
    c.hw = board(false);
    assert_eq!(
        validate(&mut c).unwrap_err(),
        "Multi-ROM sets of ROMs are only supported on hardware revision F onwards"
    );

    let mut c = config(vec![multi(), multi()]);
    c.mcu_variant = McuVariant::F401RB;
    c.freq = 84;
    assert_eq!(
        validate(&mut c).unwrap_err(),
        "Set 0: multi-set ROMs are not supported on STM32 variant stm32f401rb due to lack of RAM and/or flash"
    );
}

// --- grouping into sets ---

#[test]
fn create_rom_sets_without_sets() {
    let c = config(vec![rom(RomType::Rom2364, cs_low(), None, None), rom(RomType::Rom2316, cs_low(), None, None)]);
    let sets = c.create_rom_sets(&[image(8192, 0), image(2048, 1)]).unwrap();
    assert_eq!(sets.len(), 2);
    for (i, s) in sets.iter().enumerate() {
        assert_eq!(s.id, i);
        assert!(!s.is_banked);
        assert_eq!(s.roms.len(), 1);
        assert_eq!(s.roms[0].original_index, i);
    }
    assert_eq!(sets[1].roms[0].image.data[0], 1);
    assert_eq!(sets[1].roms[0].config.rom_type, RomType::Rom2316);
}

#[test]
fn create_rom_sets_pairs_only_as_far_as_images_go() {
    let c = config(vec![rom(RomType::Rom2364, cs_low(), None, None), rom(RomType::Rom2364, cs_low(), None, None)]);
    let sets = c.create_rom_sets(&[image(8192, 0)]).unwrap();
    assert_eq!(sets.len(), 1);
}

#[test]
fn create_rom_sets_groups_and_orders_banks() {
    let c = config(vec![
        rom(RomType::Rom2364, cs_low(), Some(1), Some(1)),
        rom(RomType::Rom2364, cs_low(), Some(0), None),
        rom(RomType::Rom2364, cs_low(), Some(1), Some(0)),
        rom(RomType::Rom2364, cs_low(), Some(0), None),
        rom(RomType::Rom2364, cs_low(), Some(1), Some(1)),
    ]);
    let images: Vec<RomImage> = (0..5).map(|i| image(8192, i as u8)).collect();
    let sets = c.create_rom_sets(&images).unwrap();
    assert_eq!(sets.len(), 2);
    assert_eq!(sets[0].id, 0);
    assert!(!sets[0].is_banked);
    let idx0: Vec<usize> = sets[0].roms.iter().map(|r| r.original_index).collect();
    assert_eq!(idx0, vec![1, 3]);
    assert_eq!(sets[1].id, 1);
    assert!(sets[1].is_banked);
    let idx1: Vec<usize> = sets[1].roms.iter().map(|r| r.original_index).collect();
    assert_eq!(idx1, vec![2, 0, 4]);
    assert_eq!(sets[1].roms[0].image.data[0], 2);
    // Every ROM is in exactly one set, once.
    let mut seen: Vec<usize> = sets.iter().flat_map(|s| s.roms.iter().map(|r| r.original_index)).collect();
    seen.sort();
    assert_eq!(seen, vec![0, 1, 2, 3, 4]);
}
