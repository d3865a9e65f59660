use sdrr::meta::{
    firmware_overrides_len, serialize_firmware_overrides, serialize_serve_config,
    update_chip_set_ptr, write_header, FireConfig, FireServeMode, FirmwareConfig, IceConfig,
    LedConfig, MetaError, ServeAlgParams, SwdConfig,
};
use sdrr::net::FirmwareVersion;

fn empty_overrides() -> FirmwareConfig {
    FirmwareConfig { ice: None, fire: None, led: None, swd: None, serve_alg_params: None }
}

fn full_overrides() -> FirmwareConfig {
    FirmwareConfig {
        ice: Some(IceConfig { cpu_freq: Some(0x0190), overclock: Some(true) }),
        fire: Some(FireConfig {
            cpu_freq: Some(0x012C),
            overclock: Some(false),
            vreg: Some(7),
            serve_mode: Some(FireServeMode::Pio),
        }),
        led: Some(LedConfig { enabled: true }),
        swd: Some(SwdConfig { swd_enabled: false }),
        serve_alg_params: Some(ServeAlgParams { params: vec![1, 2, 3] }),
    }
}

#[test]
fn overrides_layout_all_set() {
    let mut buf = vec![0x55u8; 70];
    assert_eq!(serialize_firmware_overrides(&full_overrides(), &mut buf).unwrap(), 64);
    assert_eq!(buf[0], 0xFF);
    assert_eq!(&buf[1..8], &[0; 7]);
    assert_eq!(&buf[8..10], &[0x90, 0x01]);
    assert_eq!(&buf[10..12], &[0x2C, 0x01]);
    assert_eq!(buf[12], 7);
    assert_eq!(&buf[13..16], &[0xFF; 3]);
    // Ice overclock (1), LED (4), PIO (16)
    assert_eq!(buf[16], 0x15);
    assert_eq!(&buf[17..24], &[0; 7]);
    assert!(buf[24..64].iter().all(|&b| b == 0xFF));
    assert_eq!(&buf[64..], &[0x55; 6]);
}

#[test]
fn overrides_layout_none_set() {
    let mut buf = vec![0u8; 64];
    serialize_firmware_overrides(&empty_overrides(), &mut buf).unwrap();
    assert_eq!(buf[0], 0);
    assert_eq!(&buf[8..13], &[0xFF; 5]);
    assert_eq!(buf[16], 0);
}

#[test]
fn overrides_refuse_short_buffer() {
    let mut buf = vec![0u8; 63];
    match serialize_firmware_overrides(&full_overrides(), &mut buf) {
        Err(MetaError::BufferTooSmall { expected, actual, .. }) => {
            assert_eq!((expected, actual), (64, 63));
        }
        other => panic!("unexpected {:?}", other),
    }
    assert_eq!(buf, vec![0u8; 63]);
}

#[test]
fn serve_config_layout() {
    let mut buf = vec![0u8; 64];
    assert_eq!(serialize_serve_config(&ServeAlgParams { params: vec![9, 8, 7] }, &mut buf).unwrap(), 64);
    assert_eq!(&buf[0..4], &[9, 8, 7, 0xFF]);
    let long: Vec<u8> = (0..100).map(|i| i as u8).collect();
    serialize_serve_config(&ServeAlgParams { params: long }, &mut buf).unwrap();
    assert_eq!(buf[63], 63);
    assert!(matches!(
        serialize_serve_config(&ServeAlgParams { params: vec![] }, &mut [0u8; 10]),
        Err(MetaError::BufferTooSmall { expected: 64, actual: 10, .. })
    ));
}

#[test]
fn header_layout_and_pointer() {
    let mut buf = vec![0u8; 300];
    assert_eq!(write_header(3, &mut buf).unwrap(), 256);
    assert_eq!(&buf[0..16], b"ONEROM_METADATA\0");
    assert_eq!(&buf[16..20], &[1, 0, 0, 0]);
    assert_eq!(buf[20], 3);
    assert_eq!(&buf[21..24], &[0, 0, 0]);
    assert_eq!(&buf[24..28], &[0xFF; 4]);
    assert!(buf[28..256].iter().all(|&b| b == 0xFF));
    assert_eq!(buf[256], 0);
    update_chip_set_ptr(&mut buf, 0x0800_C123).unwrap();
    assert_eq!(&buf[24..28], &[0x23, 0xC1, 0x00, 0x08]);
    assert_eq!(u32::from_le_bytes([buf[24], buf[25], buf[26], buf[27]]), 0x0800_C123);
    assert!(matches!(write_header(1, &mut [0u8; 255]), Err(MetaError::BufferTooSmall { expected: 256, .. })));
    assert!(matches!(update_chip_set_ptr(&mut [0u8; 27], 1), Err(MetaError::BufferTooSmall { expected: 28, .. })));
    let mut small = vec![0u8; 256];
    write_header(300, &mut small).unwrap();
    assert_eq!(small[20], 44);
}

#[test]
fn overrides_length() {
    let sets = vec![Some(full_overrides()), None, Some(empty_overrides())];
    assert_eq!(firmware_overrides_len(&FirmwareVersion::new(0, 6, 0, 0), &sets), 192);
    assert_eq!(firmware_overrides_len(&FirmwareVersion::new(0, 5, 9, 9), &sets), 0);
    assert_eq!(firmware_overrides_len(&FirmwareVersion::new(1, 0, 0, 0), &[]), 0);
}
