use std::io::Write;

use sdrr::net::{extract_rom_file, Board, Error, FirmwareVersion, Mcu, Release, Releases};

fn releases() -> Releases {
    let boards = vec![
        Board {
            name: "ice-24-d".to_string(),
            path: None,
            mcus: vec![Mcu::new("f411re".to_string(), None), Mcu::new("f401rc".to_string(), Some("f401".to_string()))],
        },
        Board { name: "fire-24-a".to_string(), path: Some("fire/24a".to_string()), mcus: vec![Mcu::new("rp2350".to_string(), None)] },
    ];
    Releases::new(
        "0.5.1".to_string(),
        vec![
            Release { version: "0.5.0".to_string(), path: None, notes: None, boards: boards.clone() },
            Release { version: "0.5.1".to_string(), path: Some("v0.5.1".to_string()), notes: Some("fixes".to_string()), boards },
        ],
    )
}

#[test]
fn manifest_url_and_versions() {
    assert_eq!(Releases::manifest_url(), "https://images.onerom.org/releases.json");
    assert_eq!(Releases::version_str(&FirmwareVersion::new(0, 5, 1, 7)), "0.5.1");
    let r = releases();
    assert_eq!(r.latest(), "0.5.1");
    assert_eq!(r.releases().len(), 2);
    assert_eq!(r.releases_str(), "0.5.0, 0.5.1");
    assert_eq!(Releases::new("x".to_string(), vec![]).releases_str(), "");
}

#[test]
fn release_lookup() {
    let r = releases();
    assert_eq!(r.release(&FirmwareVersion::new(0, 5, 0, 0)).unwrap().version, "0.5.0");
    assert!(r.release(&FirmwareVersion::new(0, 4, 0, 0)).is_none());
    let v = FirmwareVersion::new(1, 2, 3, 4);
    assert_eq!((v.major(), v.minor(), v.patch(), v.build()), (1, 2, 3, 4));
}

#[test]
fn firmware_paths_and_urls() {
    let r = releases();
    let rel = r.release(&FirmwareVersion::new(0, 5, 0, 0)).unwrap();
    assert_eq!(rel.path("ICE-24-D", "F411RE").unwrap(), "0.5.0/ice-24-d/f411re");
    assert_eq!(rel.board("ice-24-d").unwrap().path("F401RC").unwrap(), "ice-24-d/f401");
    assert_eq!(rel.board("Ice-24-D").map(|b| b.name.clone()), None);
    assert_eq!(
        r.firmware_url(&FirmwareVersion::new(0, 5, 1, 0), "Fire-24-A", "RP2350").unwrap(),
        "https://images.onerom.org/v0.5.1/fire/24a/rp2350/firmware.bin"
    );
    assert_eq!(r.firmware_url(&FirmwareVersion::new(0, 6, 0, 0), "ice-24-d", "f411re"), Err(Error::ReleaseNotFound));
    assert_eq!(r.firmware_url(&FirmwareVersion::new(0, 5, 1, 0), "ice-24-x", "f411re"), Err(Error::ReleaseNotFound));
    assert_eq!(r.firmware_url(&FirmwareVersion::new(0, 5, 1, 0), "ice-24-d", "f446re"), Err(Error::ReleaseNotFound));
    let m = Mcu::new("f411re".to_string(), None);
    assert_eq!(m.name(), "f411re");
    assert_eq!(m.path(), "f411re");
}

fn zip_with(name: &str, contents: &[u8]) -> Vec<u8> {
    let mut buf = std::io::Cursor::new(Vec::new());
    {
        let mut w = zip::ZipWriter::new(&mut buf);
        let opts = zip::write::SimpleFileOptions::default().compression_method(zip::CompressionMethod::Stored);
        w.start_file(name, opts).unwrap();
        w.write_all(contents).unwrap();
        w.finish().unwrap();
    }
    buf.into_inner()
}

#[test]
fn extract_plain_download() {
    assert_eq!(extract_rom_file(vec![1, 2, 3], None), Ok(vec![1, 2, 3]));
}

#[test]
fn extract_from_zip() {
    let z = zip_with("kernal.bin", &[9, 8, 7, 6]);
    assert_eq!(extract_rom_file(z.clone(), Some("kernal.bin".to_string())), Ok(vec![9, 8, 7, 6]));
    assert_eq!(extract_rom_file(z, Some("basic.bin".to_string())), Err(Error::Zip));
    assert_eq!(extract_rom_file(vec![1, 2, 3], Some("kernal.bin".to_string())), Err(Error::Zip));
}

#[test]
fn extract_corrupted_file_is_a_read_error() {
    let mut z = zip_with("kernal.bin", &[0xA5, 0x5A, 0xC3, 0x3C]);
    let at = z.windows(4).position(|w| w == [0xA5, 0x5A, 0xC3, 0x3C]).unwrap();
    z[at] = 0x00;
    assert_eq!(extract_rom_file(z, Some("kernal.bin".to_string())), Err(Error::Read));
}
