use lift::rom_data::{
    check_extension, check_title, handle_nacp, load_kind, matches_extension, rom_type_for_extension, ControlEntryAction,
    ControlError, ControlFinish, ControlScan, ExtensionError, NacpErrors, RomType, TitleInfo,
};
use lift::rom_data::default_name_and_version;
use lift::rom_info::{is_nca_entry, InfoFileAction, InfoFilesError, InfoFilesScan};
use lift::roms::formats::nacp::{Nacp, Title, TitleLanguage};
use lift::ui::{check_keys_path, finder_action, last_index_of_text, sizes_fit, total_size, EventLoop, FinderAction, KeysPathError, UiStep};
use lift::usb::protocol::UsbOperation;

fn nacp_with(names: &[(usize, &[u8])], version: &[u8]) -> Nacp {
    let mut titles = Vec::new();
    for i in 0..16 {
        let mut raw_name = vec![0u8; 0x200];
        for (k, n) in names {
            if *k == i {
                raw_name[..n.len()].copy_from_slice(n);
            }
        }
        titles.push(Title { raw_name, raw_publisher: vec![0u8; 0x100] });
    }
    let mut raw_version = vec![0u8; 0x10];
    raw_version[..version.len()].copy_from_slice(version);
    Nacp { titles, raw_version }
}

#[test]
fn extensions_are_the_last_dot_part() {
    assert!(matches_extension("game.nsp".to_string(), "nsp"));
    assert!(matches_extension("a.b.nca".to_string(), "nca"));
    assert!(!matches_extension("a.nca.bak".to_string(), "nca"));
    assert!(matches_extension("nca".to_string(), "nca"));
    assert!(!matches_extension("game.".to_string(), "nsp"));
    assert!(matches_extension("game.".to_string(), ""));
}

#[test]
fn rom_kinds_by_extension() {
    assert_eq!(rom_type_for_extension("nsp"), Some(RomType::Nsp));
    assert_eq!(rom_type_for_extension("xci"), Some(RomType::Xci));
    assert_eq!(rom_type_for_extension("zip"), None);
    assert_eq!(check_extension(None), Err(ExtensionError::NoExtension));
    assert_eq!(check_extension(Some("NSP")), Err(ExtensionError::InvalidExt));
    assert_eq!(check_extension(Some("xci")), Ok(RomType::Xci));
    assert_eq!(load_kind("nsp"), RomType::Nsp);
    assert_eq!(load_kind("xci"), RomType::Xci);
}

#[test]
fn the_shown_title_is_in_the_chosen_language_if_present() {
    let n = nacp_with(&[(0, b"First"), (2, b"Japanese")], b"1.0");
    let (t, v) = handle_nacp(&n, TitleLanguage::Japanese).unwrap();
    assert_eq!((t.as_str(), v.as_str()), ("Japanese", "1.0"));
    let (t, _) = handle_nacp(&n, TitleLanguage::French).unwrap();
    assert_eq!(t, "First");
    assert!(check_title(&n.titles[0]));
    assert!(!check_title(&n.titles[1]));
    let empty = Nacp { titles: vec![], raw_version: vec![] };
    assert!(matches!(handle_nacp(&empty, TitleLanguage::French), Err(NacpErrors::NoSuitableLanguage)));
    let bad = nacp_with(&[(0, b"\xff")], b"1");
    assert!(matches!(handle_nacp(&bad, TitleLanguage::AmericanEnglish), Err(NacpErrors::Decoding(_))));
}

#[test]
fn control_scan_reads_nacp_and_the_language_icon() {
    let mut s = ControlScan::new(TitleLanguage::French);
    assert_eq!(s.entry(0, "icon_AmericanEnglish.dat"), ControlEntryAction::Skip);
    assert_eq!(s.entry(1, "control.nacp"), ControlEntryAction::ReadNacp);
    s.nacp_read(&nacp_with(&[(3, b"Jeu")], b"2.0")).unwrap();
    assert_eq!(s.entry(2, "icon_French.dat"), ControlEntryAction::ReadIcon);
    s.icon_read();
    assert_eq!(s.entry(3, "icon_French.dat"), ControlEntryAction::Skip);
    assert_eq!(s.entry(4, "readme.txt"), ControlEntryAction::Skip);
    assert_eq!(s.icon_entries, vec![0, 2, 3]);
    assert_eq!(s.res.as_ref().unwrap().0, "Jeu");
    assert_eq!(s.finish(), Ok(ControlFinish::Done));
}

#[test]
fn control_scan_falls_back_to_the_first_icon() {
    let mut s = ControlScan::new(TitleLanguage::German);
    assert_eq!(s.finish(), Err(ControlError::NoNacp));
    assert_eq!(s.entry(5, "icon_Japanese.dat"), ControlEntryAction::Skip);
    assert_eq!(s.entry(6, "control.nacp"), ControlEntryAction::ReadNacp);
    s.nacp_read(&nacp_with(&[(0, b"Game")], b"1")).unwrap();
    assert_eq!(s.finish(), Ok(ControlFinish::ReadFallbackIcon(5)));
}

#[test]
fn title_info_keeps_the_title_when_the_version_fails() {
    let mut t = TitleInfo::new();
    t.handle_nacp(&nacp_with(&[(0, b"Name")], b"3.1"), TitleLanguage::AmericanEnglish).unwrap();
    assert_eq!(t.title.as_deref(), Some("Name"));
    assert_eq!(t.version.as_deref(), Some("3.1"));
    let mut t = TitleInfo::new();
    assert!(t.handle_nacp(&nacp_with(&[(0, b"N")], b"\xff"), TitleLanguage::AmericanEnglish).is_err());
    assert_eq!(t.title.as_deref(), Some("N"));
    assert_eq!(t.version, None);
}

#[test]
fn upload_totals_and_row_lookup() {
    assert_eq!(total_size(&vec![]), 0);
    assert_eq!(total_size(&vec![10, 20, -5]), 25);
    let rows = vec!["/a/x.nsp".to_string(), "/b/y.xci".to_string(), "/a/x.nsp".to_string()];
    assert_eq!(last_index_of_text(&rows, "/a/x.nsp"), Some(2));
    assert_eq!(last_index_of_text(&rows, "/b/y.xci"), Some(1));
    assert_eq!(last_index_of_text(&rows, "/c"), None);
}

#[test]
fn transfer_reports_drive_the_page() {
    let mut l = EventLoop::new(true);
    assert_eq!(l.on_message(Some(UsbOperation::Wait)), UiStep::Waiting);
    assert!(!l.with_timeout);
    assert_eq!(l.on_message(Some(UsbOperation::File("a".to_string(), 4))), UiStep::Progress("a".to_string(), 4));
    assert!(l.with_timeout);
    assert_eq!(l.on_message(Some(UsbOperation::Wait)), UiStep::Waiting);
    assert!(l.with_timeout);
    assert_eq!(l.on_message(Some(UsbOperation::Exit)), UiStep::Finished);
    assert_eq!(l.on_message(None), UiStep::Closed);
    let mut usb = EventLoop::new(false);
    usb.on_message(Some(UsbOperation::File("a".to_string(), 1)));
    assert!(!usb.with_timeout);
}

#[test]
fn finder_and_keys_path_decisions() {
    assert_eq!(finder_action("usb"), FinderAction::Start);
    assert_eq!(finder_action("net"), FinderAction::Stop);
    assert_eq!(check_keys_path(false, true, Some("keys")), Err(KeysPathError::Missing));
    assert_eq!(check_keys_path(true, false, Some("keys")), Err(KeysPathError::NotAFile));
    assert_eq!(check_keys_path(true, true, Some("txt")), Err(KeysPathError::BadExtension));
    assert_eq!(check_keys_path(true, true, None), Err(KeysPathError::BadExtension));
    assert_eq!(check_keys_path(true, true, Some("keys")), Ok(()));
}

#[test]
fn default_title_is_the_file_name() {
    let (n, v) = default_name_and_version("game.nsp");
    assert_eq!((n.as_str(), v.as_str()), ("game.nsp", "0.0.0"));
}

#[test]
fn content_archives_are_named_after_their_first_dot() {
    assert!(is_nca_entry("0123.nca"));
    assert!(is_nca_entry("abc.nca.tik"));
    assert!(!is_nca_entry("abc.cnmt.nca"));
    assert!(!is_nca_entry("ticket.tik"));
}

#[test]
fn info_scan_reads_the_first_icon_and_control_data() {
    let mut s = InfoFilesScan::new();
    assert_eq!(s.control_file(b"icon_French.dat".to_vec()).unwrap(), InfoFileAction::ReadTexture);
    s.texture_read();
    assert_eq!(s.control_file(b"icon_German.dat".to_vec()).unwrap(), InfoFileAction::Skip);
    assert_eq!(s.control_file(b"control.nacp".to_vec()).unwrap(), InfoFileAction::ReadNacp);
    s.nacp_read();
    assert_eq!(s.control_file(b"control.nacp".to_vec()).unwrap(), InfoFileAction::Skip);
    assert!(matches!(s.control_file(b"README".to_vec()), Err(InfoFilesError::NoExtension(n)) if n == "README"));
    assert!(matches!(s.control_file(vec![0xff, b'.', b'a']), Err(InfoFilesError::DecodingError(_))));
    assert!(!s.done());
    s.meta_read();
    assert!(s.done());
    assert!(s.finish().is_ok());
    assert!(matches!(InfoFilesScan::new().finish(), Err(InfoFilesError::NacpNotFound)));
}

#[test]
fn upload_sizes_that_overflow_are_told_apart() {
    assert!(sizes_fit(&vec![]));
    assert!(sizes_fit(&vec![1, 2, 3]));
    assert!(sizes_fit(&vec![i64::MAX, -1, 1]));
    assert!(!sizes_fit(&vec![i64::MAX, 1, -1]));
    assert!(!sizes_fit(&vec![i64::MIN, -1]));
}
