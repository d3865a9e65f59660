use sdrr::sdrr_types::{CsLogic, McuFamily, McuProcessor, McuVariant, RomType, ServeAlg};

#[test]
fn rom_type_names_round_trip() {
    for t in [RomType::Rom2316, RomType::Rom2332, RomType::Rom2364, RomType::Rom23128] {
        assert_eq!(RomType::try_from_str(t.name()), Some(t));
        assert_eq!(RomType::from_lowercase(t.name()), Some(t));
        assert_eq!(t.size_bytes(), 1usize << t.num_addr_lines());
    }
    assert_eq!(RomType::try_from_str("2716"), None);
    assert_eq!(RomType::Rom2332.cs_lines_count(), 2);
    assert_eq!(RomType::Rom2316.cs_lines_count(), 3);
    assert_eq!(RomType::Rom2364.c_enum(), "ROM_TYPE_2364");
}

#[test]
fn family_and_processor_facts() {
    assert_eq!(McuFamily::try_from_str("F4"), Some(McuFamily::Stm32F4));
    assert_eq!(McuFamily::try_from_str("RP2350"), Some(McuFamily::Rp2350));
    assert_eq!(McuFamily::try_from_str("f7"), None);
    assert_eq!(McuFamily::Stm32F4.to_string(), "F4");
    assert_eq!(McuFamily::Stm32F4.max_valid_addr_pin(), 13);
    assert_eq!(McuFamily::Rp2350.max_valid_data_pin(), 23);
    assert!(McuFamily::Stm32F4.valid_pin_num(15));
    assert!(!McuFamily::Stm32F4.valid_pin_num(16));
    assert_eq!(McuFamily::Stm32F4.valid_x1_pins(), vec![14]);
    assert_eq!(McuFamily::Stm32F4.valid_x2_pins(), vec![15]);
    assert_eq!(McuFamily::Rp2350.valid_x1_pins().len(), 16);
    assert_eq!(McuProcessor::F401BC.vco_min_mhz(), 192);
    assert_eq!(McuProcessor::F411.vco_max_mhz(true), 1000);
    assert_eq!(McuProcessor::F411.max_sysclk_mhz(), 100);
}

#[test]
fn stm32_pll_for_100mhz() {
    let p = McuProcessor::F411;
    assert_eq!(p.calculate_pll_hsi(100, false), Some((8, 100, 2, 4)));
    assert_eq!(
        p.generate_pll_defines(100, false).unwrap(),
        "//   HSI=16MHz\n//   VCO_input=2MHz\n//   fVCO=200MHz\n//   SYSCLK=100MHz\n//   USB=50MHz\n#define PLL_M    8\n#define PLL_N    100\n#define PLL_P    0b00  // div 2\n#define PLL_Q    4"
    );
}

#[test]
fn stm32_pll_reaches_target_exactly() {
    for (p, f) in [(McuProcessor::F401BC, 84u32), (McuProcessor::F405, 168), (McuProcessor::F446, 180), (McuProcessor::F411, 48)] {
        let (m, n, pdiv, _q) = p.calculate_stm32_pll_hsi(f, false).unwrap();
        let vco = (16 / m as u32) * n as u32;
        assert_eq!(vco, f * pdiv as u32);
        assert!(vco >= p.vco_min_mhz() && vco <= p.vco_max_mhz(false));
    }
    assert_eq!(McuProcessor::F401BC.calculate_stm32_pll_hsi(84, false), Some((8, 168, 4, 7)));
}

#[test]
fn pll_refuses_above_rated_clock() {
    assert_eq!(McuProcessor::F411.calculate_pll_hsi(120, false), None);
    assert!(McuProcessor::F411.calculate_pll_hsi(120, true).is_some());
    assert!(!McuVariant::F411RE.is_frequency_valid(120, false));
    assert!(McuVariant::F411RE.is_frequency_valid(100, false));
    assert_eq!(McuVariant::F411RE.generate_pll_defines(120, false), None);
}

#[test]
fn rp2350_pll_for_150mhz() {
    let p = McuProcessor::Rp2350;
    assert_eq!(p.calculate_rp2350_pll_12mhz(150, false), Some((1, 75, 6, 1)));
    assert_eq!(
        p.generate_pll_defines(150, false).unwrap(),
        "//   CLK_REF=12MHz\n//   VCO_input=12MHz\n//   fVCO=900MHz\n//   SYSCLK=150MHz\n#define PLL_SYS_REFDIV    1\n#define PLL_SYS_FBDIV     75\n#define PLL_SYS_POSTDIV1  6\n#define PLL_SYS_POSTDIV2  1"
    );
    let (_r, fb, pd1, pd2) = p.calculate_rp2350_pll_12mhz(133, false).unwrap();
    assert_eq!(12 * fb as u32, 133 * pd1 as u32 * pd2 as u32);
}

#[test]
fn variant_facts() {
    let v = McuVariant::try_from_str("F411RE").unwrap();
    assert_eq!(v, McuVariant::F411RE);
    assert_eq!(v.family(), McuFamily::Stm32F4);
    assert_eq!(v.processor(), McuProcessor::F411);
    assert_eq!(v.makefile_var(), "stm32f411re");
    assert_eq!(v.debug_name(), "F411RE");
    assert!(v.supports_usb_dfu());
    assert!(v.supports_banked_roms());
    assert!(!McuVariant::F401RB.supports_multi_rom_sets());
    assert_eq!(McuVariant::Rp2350.family(), McuFamily::Rp2350);
    assert!(!McuVariant::Rp2350.supports_usb_dfu());
    assert_eq!(McuVariant::try_from_str("f999"), None);
    assert_eq!(v.flash_storage_bytes(), v.flash_storage_kb() * 1024);
}

#[test]
fn serve_alg_and_cs_logic_names() {
    assert_eq!(ServeAlg::try_from_str("A"), Some(ServeAlg::TwoCsOneAddr));
    assert_eq!(ServeAlg::try_from_str("two_cs_one_addr"), Some(ServeAlg::TwoCsOneAddr));
    assert_eq!(ServeAlg::try_from_str("default"), Some(ServeAlg::Default));
    assert_eq!(ServeAlg::try_from_str("b"), Some(ServeAlg::AddrOnCs));
    assert_eq!(ServeAlg::try_from_str("c"), None);
    assert_eq!(CsLogic::try_from_str("0"), Some(CsLogic::ActiveLow));
    assert_eq!(CsLogic::try_from_str("1"), Some(CsLogic::ActiveHigh));
    assert_eq!(CsLogic::try_from_str("IGNORE"), Some(CsLogic::Ignore));
    assert_eq!(CsLogic::try_from_str("2"), None);
}

#[test]
fn overclocking_reaches_400mhz() {
    for p in [McuProcessor::F401BC, McuProcessor::F405, McuProcessor::F411, McuProcessor::F446] {
        assert!(p.calculate_stm32_pll_hsi(400, true).is_some());
        assert_eq!(p.calculate_stm32_pll_hsi(400, false), None);
    }
    assert!(McuVariant::F446RE.is_frequency_valid(300, true));
}

#[test]
fn small_ram_parts_serve_single_roms_only() {
    for v in [McuVariant::F401RB, McuVariant::F401RC] {
        assert_eq!(v.ram_kb(), 64);
        assert!(!v.supports_banked_roms());
        assert!(!v.supports_multi_rom_sets());
    }
    assert!(McuVariant::F405RG.supports_banked_roms());
}

#[test]
fn every_stm32_clock_from_50mhz_is_reachable() {
    for p in [McuProcessor::F401BC, McuProcessor::F401DE, McuProcessor::F405, McuProcessor::F411, McuProcessor::F446] {
        for f in 50..=p.max_sysclk_mhz() {
            assert!(p.calculate_stm32_pll_hsi(f, false).is_some(), "{:?} {}", p, f);
        }
    }
    // Below 50 MHz some parts cannot be clocked: the F401's VCO needs 192 MHz.
    assert_eq!(McuProcessor::F401BC.calculate_stm32_pll_hsi(16, false), None);
}
