use sdrr::net::FirmwareVersion;
use sdrr::sdrr_types::McuVariant;
use sdrr::studio::{AnalyseState, DetectState, Device, DeviceAction, DeviceEvent, DeviceType};
use sdrr::builder::{metadata_version, FileData, METADATA_VERSION};
use sdrr::builder::FIRMWARE_SIZE;
use sdrr::meta::MAX_METADATA_LEN;
use sdrr::studio::{config_name, Client, Configs, Images, Link, SourceTab, StudioTab};
use sdrr::text::str_lex_le;

fn configs() -> Configs {
    Configs::new(
        1,
        vec![
            "third-party/zeta.json".to_string(),
            "user/sub/alpha.v2.json".to_string(),
            "beta".to_string(),
            "x/Beta.json".to_string(),
        ],
    )
}

#[test]
fn config_names_are_sorted_stems() {
    let c = configs();
    assert_eq!(c.version, 1);
    assert_eq!(c.names(), &vec!["Beta".to_string(), "alpha".to_string(), "beta".to_string(), "zeta".to_string()]);
    assert_eq!(c.names_str(), "Beta, alpha, beta, zeta");
    assert_eq!(c.to_string(), "Configs(4)");
}

#[test]
fn config_paths_and_urls() {
    let c = configs();
    assert_eq!(c.path("alpha"), Some("user/sub/alpha.v2.json".to_string()));
    assert_eq!(c.path("gamma"), None);
    assert_eq!(c.config_url("zeta"), Some("https://images.onerom.org/third-party/zeta.json".to_string()));
    assert_eq!(c.config_url("nope"), None);
    assert_eq!(Configs::manifest_url(), "https://images.onerom.org/configs.json");
}

#[test]
fn config_name_cuts_path_and_extension() {
    assert_eq!(config_name("a/b/c.d.e"), "c");
    assert_eq!(config_name("plain"), "plain");
    assert_eq!(config_name("dir/"), "");
    assert_eq!(config_name(".hidden"), "");
}

#[test]
fn lexicographic_order() {
    assert!(str_lex_le("abc", "abd"));
    assert!(str_lex_le("ab", "abc"));
    assert!(!str_lex_le("abc", "ab"));
    assert!(str_lex_le("B", "a"));
    assert!(str_lex_le("", ""));
}

#[test]
fn image_layout() {
    let img = Images::new(vec![1, 2, 3], vec![4, 5], vec![6, 7, 8, 9]);
    assert_eq!(Images::max_firmware_len(), 48 * 1024);
    assert_eq!(Images::max_metadata_len(), 16 * 1024);
    assert_eq!(Images::firmware_offset(), 0);
    assert_eq!(Images::metadata_offset(), FIRMWARE_SIZE);
    assert_eq!(Images::roms_offset(), FIRMWARE_SIZE + MAX_METADATA_LEN);
    assert_eq!(img.firmware_skinny(), &[1, 2, 3]);
    assert_eq!(img.metadata_skinny(), &[4, 5]);
    assert_eq!(img.roms(), &[6, 7, 8, 9]);
    assert_eq!((img.firmware_len(), img.metadata_len(), img.roms_len()), (3, 2, 4));
    let fw = img.firmware_full();
    assert_eq!(fw.len(), FIRMWARE_SIZE);
    assert_eq!(&fw[0..4], &[1, 2, 3, 0xFF]);
    let md = img.metadata_full();
    assert_eq!(md.len(), MAX_METADATA_LEN);
    assert_eq!(&md[0..3], &[4, 5, 0xFF]);
    let full = img.full_image();
    assert_eq!(full.len(), img.full_image_len());
    assert_eq!(full.len(), FIRMWARE_SIZE + MAX_METADATA_LEN + 4);
    assert_eq!(full[2], 3);
    assert_eq!(full[FIRMWARE_SIZE - 1], 0xFF);
    assert_eq!(full[FIRMWARE_SIZE + 1], 5);
    assert_eq!(full[FIRMWARE_SIZE + 2], 0xFF);
    assert_eq!(&full[Images::roms_offset()..], &[6, 7, 8, 9]);
    assert_eq!(img.to_string(), "Images(3/2/4");
}

#[test]
fn tabs_links_and_names() {
    assert_eq!(StudioTab::default(), StudioTab::Analyse);
    assert_eq!(StudioTab::Analyse.name(), "Analyse");
    assert_eq!(StudioTab::Create.name(), "Create");
    assert_eq!(StudioTab::Log.to_string(), "Log");
    assert_eq!(SourceTab::default(), SourceTab::File);
    assert_eq!(SourceTab::Device.to_string(), "Device");
    assert_eq!(Client::Create.to_string(), "Create");
    assert_eq!(Link::OneRom.url(), "https://onerom.org");
    assert_eq!(Link::LinuxUdev.url(), "https://onerom.org/web/#linux");
    assert_eq!(Link::WinUsb.url(), "https://onerom.org/web/#windows");
    assert_eq!(Link::Zadig.url(), "https://zadig.akeo.ie/");
    let _ = sdrr::studio::Style::new();
}

#[test]
fn builder_inputs() {
    assert_eq!(metadata_version(), "1");
    assert_eq!(METADATA_VERSION, 1);
    let f = FileData { id: 3, data: vec![1, 2] };
    assert_eq!(f.clone().id, 3);
}

#[test]
fn detection_steps_and_texts() {
    let s = DetectState::default();
    assert_eq!(s, DetectState::Ice);
    assert_eq!(s.sample_mcu(), Some(McuVariant::F411RE));
    assert_eq!(s.chip_id(), Some("STM32F411RETx".to_string()));
    assert_eq!(s.next(), DetectState::Fire);
    assert_eq!(s.next().chip_id(), Some("RP235X".to_string()));
    assert_eq!(s.next().next(), DetectState::Done);
    assert!(s.next().next().is_done());
    assert_eq!(DetectState::Done.sample_mcu(), None);
    let r = DetectState::Reread(McuVariant::F446RE, FirmwareVersion::new(0, 5, 0, 0));
    assert_eq!(r.sample_mcu(), Some(McuVariant::F446RE));
    assert_eq!(r.next(), DetectState::Done);
    assert_eq!(r.to_string(), "Reread");
    assert!(AnalyseState::default().is_idle());
    assert!(!AnalyseState::default().is_busy());
    assert!(AnalyseState::Loading.is_busy());
    assert_eq!(AnalyseState::Idle.content(), "No firmware analysed");
    assert_eq!(AnalyseState::Detecting(DetectState::Fire).content(), "Trying to detect One ROM Fire ...");
    assert_eq!(AnalyseState::Detecting(DetectState::Ice).to_string(), "Detecting (Ice)");
    assert_eq!(AnalyseState::Flashing.content(), "Flashing firmware...");
}

#[test]
fn device_detects_only_while_idle() {
    let mut d = Device::new();
    assert!(d.is_idle());
    assert!(!d.is_busy());
    assert_eq!(d.update(DeviceEvent::DetectProbes), DeviceAction::ListProbes);
    assert_eq!(d.update(DeviceEvent::DetectUsbDevices), DeviceAction::ListUsbDevices);
    assert_eq!(d.update(DeviceEvent::FlashFirmware(Client::Create)), DeviceAction::Flash(Client::Create));
    assert!(d.is_busy());
    assert_eq!(d.update(DeviceEvent::DetectProbes), DeviceAction::Nothing);
    assert_eq!(d.update(DeviceEvent::DetectUsbDevices), DeviceAction::Nothing);
    assert_eq!(d.update(DeviceEvent::ProbesDetected(vec![4])), DeviceAction::Nothing);
    assert!(d.is_busy());
    assert_eq!(
        d.update(DeviceEvent::FlashFirmwareResult(Client::Create, false)),
        DeviceAction::ReportFlash(Client::Create, false)
    );
    assert!(d.is_idle());
}

#[test]
fn device_reads_for_analyse_only() {
    let mut d = Device::new();
    assert_eq!(d.update(DeviceEvent::ReadDevice(Client::Create)), DeviceAction::InternalError);
    assert!(d.is_idle());
    assert_eq!(d.update(DeviceEvent::ReadDevice(Client::Analyse)), DeviceAction::Read(Client::Analyse));
    assert!(d.is_busy());
    assert_eq!(d.update(DeviceEvent::DeviceData(Client::Analyse)), DeviceAction::ReportData(Client::Analyse));
    assert!(d.is_idle());
    assert_eq!(d.update(DeviceEvent::ReadDevice(Client::Analyse)), DeviceAction::Read(Client::Analyse));
    assert_eq!(
        d.update(DeviceEvent::ReadFailed(Client::Analyse)),
        DeviceAction::ReportReadFailed(Client::Analyse)
    );
    assert!(d.is_idle());
}

#[test]
fn device_reselects_attached_devices() {
    let mut d = Device::new();
    assert!(d.selected().is_none());
    // The first probe seen is picked, and becomes the device.
    d.update(DeviceEvent::ProbesDetected(vec![7, 8]));
    assert_eq!(d.selected(), DeviceType::DebugProbe(7));
    // A selected probe that stays attached stays selected.
    d.update(DeviceEvent::SelectProbe(8));
    d.update(DeviceEvent::ProbesDetected(vec![9, 8]));
    assert_eq!(d.selected(), DeviceType::DebugProbe(7));
    // The selected probe leaves with none to replace it: the device goes.
    d.update(DeviceEvent::ProbesDetected(vec![]));
    assert!(d.selected().is_none());
    // A USB device is preferred when the selection is empty.
    d.update(DeviceEvent::ProbesDetected(vec![3]));
    assert_eq!(d.selected(), DeviceType::DebugProbe(3));
    d.update(DeviceEvent::SelectDevice(DeviceType::Nothing));
    d.update(DeviceEvent::UsbDevicesDetected(vec![21, 22]));
    assert_eq!(d.selected(), DeviceType::Usb(21));
    // The selected USB device leaves: the next attached one is picked, but
    // the device already selected is kept.
    d.update(DeviceEvent::UsbDevicesDetected(vec![22]));
    assert_eq!(d.selected(), DeviceType::Usb(21));
    d.update(DeviceEvent::UsbDevicesDetected(vec![]));
    assert_eq!(d.selected(), DeviceType::DebugProbe(3));
    d.update(DeviceEvent::SelectUsbDevice(30));
    d.update(DeviceEvent::SelectDevice(DeviceType::Usb(30)));
    assert_eq!(d.selected(), DeviceType::Usb(30));
}
