use sdrr::hardware::{
    check_config_file_name, finish_config_list, normalize_name, validate_config, ConfigListError,
    HwConfig, HwConfigError, Mcu, McuPins, McuPorts, McuUsb, PinRole, Port, Rom, RomPinMap, RomPins,
};
use sdrr::sdrr_types::{McuFamily, RomType};

fn rom_map(pin: u8) -> RomPinMap {
    RomPinMap { rom2316: Some(pin), rom2332: Some(pin), rom2364: Some(pin), rom23128: None }
}

fn stm_pins() -> McuPins {
    McuPins {
        data: vec![0, 1, 2, 3, 4, 5, 6, 7],
        addr: vec![0, 1, 2, 3, 4, 5, 6, 7, 8, 9, 10, 11, 12],
        cs1: rom_map(13),
        cs2: RomPinMap { rom2316: Some(12), rom2332: Some(12), rom2364: None, rom23128: None },
        cs3: RomPinMap { rom2316: Some(11), rom2332: None, rom2364: None, rom23128: None },
        x1: Some(14),
        x2: Some(15),
        ce: RomPinMap::new(),
        oe: RomPinMap::new(),
        x_jumper_pull: 1,
        sel: vec![0, 1, 2, 3],
        sel_jumper_pull: 1,
        status: 15,
    }
}

fn stm_mcu() -> Mcu {
    Mcu {
        family: McuFamily::Stm32F4,
        ports: McuPorts {
            data_port: Port::A,
            addr_port: Port::C,
            cs_port: Port::C,
            sel_port: Port::B,
            status_port: Port::B,
        },
        pins: stm_pins(),
        usb: None,
    }
}

fn rom24() -> Rom {
    Rom { pins: RomPins { quantity: 24 } }
}

fn build(mcu: Mcu) -> Result<HwConfig, HwConfigError> {
    HwConfig::new("test board".to_string(), rom24(), mcu, "Test_Board")
}

#[test]
fn test_normalize_name() {
    assert_eq!(normalize_name("23-D"), "23-d");
    assert_eq!(normalize_name("23_D"), "23-d");
    assert_eq!(normalize_name("28_A"), "28-a");
    assert_eq!(normalize_name("28-A"), "28-a");
}

#[test]
fn normalized_names_have_no_underscore() {
    for name in ["A_B_C", "fire_24_D", "__", "x"] {
        assert!(!normalize_name(name).contains('_'));
    }
}

#[test]
fn valid_board_builds_with_maps() {
    let hw = build(stm_mcu()).expect("valid board");
    assert_eq!(hw.name, "test-board");
    assert_eq!(hw.description, "test board");
    assert!(validate_config(&hw).is_ok());
    let addr = hw.get_phys_pin_to_addr_map(13);
    assert_eq!(addr.len(), 14);
    for p in 0..13 {
        assert_eq!(addr[p], Some(p));
    }
    assert_eq!(addr[13], None);
    let addr11 = hw.get_phys_pin_to_addr_map(11);
    assert_eq!(addr11[10], Some(10));
    assert_eq!(addr11[11], None);
    assert_eq!(addr11[12], None);
    assert_eq!(hw.get_phys_pin_to_data_map(), [0, 1, 2, 3, 4, 5, 6, 7]);
}

#[test]
fn data_map_follows_wiring() {
    let mut mcu = stm_mcu();
    mcu.pins.data = vec![7, 6, 5, 4, 3, 2, 1, 0];
    let hw = build(mcu).expect("valid board");
    assert_eq!(hw.get_phys_pin_to_data_map(), [7, 6, 5, 4, 3, 2, 1, 0]);
}

#[test]
fn getters_report_wiring() {
    let hw = build(stm_mcu()).unwrap();
    assert_eq!(hw.port_data(), Port::A);
    assert_eq!(hw.port_addr(), Port::C);
    assert_eq!(hw.port_cs(), Port::C);
    assert_eq!(hw.port_sel(), Port::B);
    assert_eq!(hw.port_status(), Port::B);
    assert_eq!(hw.pin_status(), 15);
    assert_eq!(hw.pin_cs1(&RomType::Rom2364), 13);
    assert_eq!(hw.pin_cs2(&RomType::Rom2332), 12);
    assert_eq!(hw.pin_cs2(&RomType::Rom2364), 255);
    assert_eq!(hw.pin_cs3(&RomType::Rom2316), 11);
    assert_eq!(hw.pin_x1(), 14);
    assert_eq!(hw.pin_x2(), 15);
    assert_eq!(hw.pin_ce(&RomType::Rom2364), 255);
    assert_eq!(hw.pin_oe(&RomType::Rom2364), 255);
    assert_eq!(hw.pin_sel(2), 2);
    assert_eq!(hw.pin_sel(9), 255);
    assert_eq!(hw.sel_jumper_pull(), 1);
    assert_eq!(hw.x_jumper_pull(), 1);
    assert_eq!(hw.cs_pin_for_rom_in_set(&RomType::Rom2364, 0), 13);
    assert_eq!(hw.cs_pin_for_rom_in_set(&RomType::Rom2364, 1), 14);
    assert_eq!(hw.cs_pin_for_rom_in_set(&RomType::Rom2364, 2), 15);
    assert_eq!(hw.cs_pin_for_rom_in_set(&RomType::Rom2364, 3), 255);
    assert!(hw.supports_multi_rom_sets());
    assert!(hw.supports_banked_roms());
    assert!(!hw.has_usb());
}

#[test]
fn usb_and_x_pins_optional() {
    let mut mcu = stm_mcu();
    mcu.pins.x1 = None;
    mcu.pins.x2 = None;
    mcu.usb = Some(McuUsb { present: true });
    let hw = build(mcu).unwrap();
    assert!(!hw.supports_multi_rom_sets());
    assert!(hw.has_usb());
}

#[test]
fn error_data_pin_count() {
    let mut mcu = stm_mcu();
    mcu.pins.data = vec![0, 1, 2];
    assert!(matches!(build(mcu), Err(HwConfigError::DataPinCount { found: 3 })));
}

#[test]
fn error_invalid_pin_number() {
    let mut mcu = stm_mcu();
    mcu.pins.addr[3] = 40;
    assert!(matches!(
        build(mcu),
        Err(HwConfigError::InvalidPinNumber { role: PinRole::Addr, rom_type: None, pin: 40 })
    ));
}

#[test]
fn error_duplicate_pin() {
    let mut mcu = stm_mcu();
    mcu.pins.data[7] = 6;
    assert!(matches!(
        build(mcu),
        Err(HwConfigError::DuplicatePin { role: PinRole::Data, pin: 6 })
    ));
}

#[test]
fn error_too_many_pins() {
    let mut mcu = stm_mcu();
    mcu.pins.sel = vec![0, 1, 2, 3, 4, 5, 6, 7];
    assert!(matches!(
        build(mcu),
        Err(HwConfigError::TooManyPins { role: PinRole::Sel, max: 7 })
    ));
}

#[test]
fn error_invalid_pin_value() {
    let mut mcu = stm_mcu();
    mcu.pins.data = vec![0, 1, 2, 3, 4, 5, 6, 8];
    assert!(matches!(
        build(mcu),
        Err(HwConfigError::InvalidPinValue { role: PinRole::Data, pin: 8, max: 7 })
    ));
}

#[test]
fn error_unsupported_rom_pins() {
    let r = HwConfig::new(String::new(), Rom { pins: RomPins { quantity: 32 } }, stm_mcu(), "x");
    assert!(matches!(r, Err(HwConfigError::UnsupportedRomPins { quantity: 32 })));
}

#[test]
fn error_invalid_rom_type_pin() {
    let mut mcu = stm_mcu();
    mcu.pins.cs1 = RomPinMap { rom2316: None, rom2332: None, rom2364: Some(20), rom23128: None };
    assert!(matches!(
        build(mcu),
        Err(HwConfigError::InvalidPinNumber {
            role: PinRole::Cs1,
            rom_type: Some(RomType::Rom2364),
            pin: 20
        })
    ));
}

#[test]
fn error_wrong_ports() {
    let mut mcu = stm_mcu();
    mcu.ports.data_port = Port::B;
    assert!(matches!(
        build(mcu),
        Err(HwConfigError::WrongDataPort { expected: Port::A, found: Port::B })
    ));
    let mut mcu = stm_mcu();
    mcu.ports.addr_port = Port::A;
    assert!(matches!(
        build(mcu),
        Err(HwConfigError::WrongAddrPort { expected: Port::C, found: Port::A })
    ));
    let mut mcu = stm_mcu();
    mcu.ports.cs_port = Port::D;
    assert!(matches!(
        build(mcu),
        Err(HwConfigError::WrongCsPort { expected: Port::C, found: Port::D })
    ));
    let mut mcu = stm_mcu();
    mcu.ports.sel_port = Port::C;
    assert!(matches!(
        build(mcu),
        Err(HwConfigError::WrongSelPort { expected: Port::B, found: Port::C })
    ));
}

#[test]
fn error_sel_jumper_pull() {
    let mut mcu = stm_mcu();
    mcu.pins.sel_jumper_pull = 2;
    assert!(matches!(build(mcu), Err(HwConfigError::InvalidSelJumperPull)));
}

#[test]
fn error_invalid_x_pin() {
    let mut mcu = stm_mcu();
    mcu.pins.x1 = Some(13);
    assert!(matches!(
        build(mcu),
        Err(HwConfigError::InvalidXPin { role: PinRole::X1, pin: 13 })
    ));
}

#[test]
fn error_x_pins_unpaired() {
    let mut mcu = stm_mcu();
    mcu.pins.x2 = None;
    assert!(matches!(build(mcu), Err(HwConfigError::XPinsUnpaired)));
}

#[test]
fn error_pin_conflict() {
    let mut mcu = stm_mcu();
    mcu.pins.status = 2;
    match build(mcu) {
        Err(HwConfigError::PinConflict { port, pin, roles }) => {
            assert_eq!(port, Port::B);
            assert_eq!(pin, 2);
            assert_eq!(roles, vec![PinRole::Sel, PinRole::Status]);
        }
        other => panic!("unexpected {:?}", other.map(|c| c.name)),
    }
}

#[test]
fn cs_pins_may_share_address_pins() {
    let mut mcu = stm_mcu();
    mcu.pins.cs2 = rom_map(5);
    assert!(build(mcu).is_ok());
}

#[test]
fn rom_pin_map_entries() {
    let entries = vec![("2364".to_string(), 13u8), ("2332".to_string(), 12u8), ("2364".to_string(), 11u8)];
    let m = RomPinMap::from_entries(&entries).unwrap();
    assert_eq!(m.get(&RomType::Rom2364), Some(11));
    assert_eq!(m.get(&RomType::Rom2332), Some(12));
    assert_eq!(m.get(&RomType::Rom2316), None);
    assert_eq!(m.values(), vec![12, 11]);
    let bad = vec![("2716".to_string(), 1u8)];
    match RomPinMap::from_entries(&bad) {
        Err(HwConfigError::InvalidRomType { key }) => assert_eq!(key, "2716"),
        _ => panic!("expected an invalid ROM type"),
    }
    let mut m2 = RomPinMap::new();
    m2.insert(RomType::Rom23128, 4);
    assert_eq!(m2.get(&RomType::Rom23128), Some(4));
}

#[test]
fn port_names() {
    assert_eq!(Port::from_str("a"), Some(Port::A));
    assert_eq!(Port::from_str("0"), Some(Port::Zero));
    assert_eq!(Port::from_str("None"), Some(Port::PortNone));
    assert_eq!(Port::from_str("E"), None);
    assert_eq!(Port::A.to_string(), "PORT_A");
    assert_eq!(Port::PortNone.to_string(), "PORT_NONE");
    assert_eq!(Port::Zero.to_string(), "PORT_0");
}

#[test]
fn cs_roles() {
    assert!(PinRole::Cs1.is_cs());
    assert!(PinRole::Oe.is_cs());
    assert!(!PinRole::Addr.is_cs());
    assert!(!PinRole::X1.is_cs());
}

#[test]
fn config_file_names_checked() {
    let seen = vec!["fire-24-a".to_string(), "ice-24-d".to_string()];
    assert!(check_config_file_name("ice-24-e", &seen).is_ok());
    match check_config_file_name("ice_24_e", &seen) {
        Err(ConfigListError::NotNormalized { name }) => assert_eq!(name, "ice_24_e"),
        _ => panic!("expected a name not in normal form"),
    }
    match check_config_file_name("Ice-24-E", &seen) {
        Err(ConfigListError::NotNormalized { name }) => assert_eq!(name, "Ice-24-E"),
        _ => panic!("expected a name not in normal form"),
    }
    match check_config_file_name("ice-24-d", &seen) {
        Err(ConfigListError::Duplicate { name, first }) => {
            assert_eq!(name, "ice-24-d");
            assert_eq!(first, 1);
        }
        _ => panic!("expected a duplicate"),
    }
}

#[test]
fn config_list_sorted_by_name() {
    assert!(matches!(finish_config_list(vec![]), Err(ConfigListError::Empty)));
    let list = finish_config_list(vec![
        ("ice-24-d".to_string(), "Ice D".to_string()),
        ("fire-24-a".to_string(), "Fire A".to_string()),
        ("ice-24-b".to_string(), "Ice B".to_string()),
    ])
    .unwrap();
    let names: Vec<&str> = list.iter().map(|p| p.0.as_str()).collect();
    assert_eq!(names, vec!["fire-24-a", "ice-24-b", "ice-24-d"]);
    assert_eq!(list[0].1, "Fire A");
}
