use lift::bytes::{read_u16_le, read_u32_be, read_u32_le, read_u64_le, le_bytes, BinError};
use lift::roms::crypto::get_tweak;
use lift::roms::formats::nacp::{strip, Nacp, Title, TitleLanguage};
use lift::roms::formats::nca::Nca;
use lift::roms::formats::xci::{CardSize, Xci, XciErrors, XciHeader};
use lift::roms::fs::fs::{media_to_bytes, FsEntry, FsHeader, FsType, HashData, HashType, EncryptionType, MetadataHashType};
use lift::roms::fs::hfs::HashPartitionFsHeader;
use lift::roms::fs::pfs::{PFSEntry, PFSHeader, PartitionFs, PartitionFsErrors, PartitionFsHeader};
use lift::roms::fs::romfs::{RomFs, RomFsDirectoryEntry, RomFsErrors, RomFsFileEntry, RomFsHeader};
use lift::roms::keyring::{keyring_is_readable, Keyring};
use lift::roms::readers::{FileRegion, ReadRequest, RegionError};

fn le32(v: u32) -> Vec<u8> {
    v.to_le_bytes().to_vec()
}

fn le64(v: u64) -> Vec<u8> {
    v.to_le_bytes().to_vec()
}

fn pfs0_image(entries: &[(u64, u64, u32)], strings: &[u8]) -> Vec<u8> {
    let mut v = b"PFS0".to_vec();
    v.extend(le32(entries.len() as u32));
    v.extend(le32(strings.len() as u32));
    v.extend([0u8; 4]);
    for (o, s, n) in entries {
        v.extend(le64(*o));
        v.extend(le64(*s));
        v.extend(le32(*n));
        v.extend([0u8; 4]);
    }
    v.extend_from_slice(strings);
    v
}

#[test]
fn integers_read_in_their_byte_order() {
    let b = [0x01u8, 0x02, 0x03, 0x04, 0x05, 0x06, 0x07, 0x08];
    assert_eq!(read_u16_le(&b, 0), 0x0201);
    assert_eq!(read_u32_le(&b, 0), 0x04030201);
    assert_eq!(read_u32_be(&b, 0), 0x01020304);
    assert_eq!(read_u64_le(&b, 0), 0x0807060504030201);
    assert_eq!(le_bytes(0x11223344, 4), vec![0x44, 0x33, 0x22, 0x11]);
    assert_eq!(le_bytes(0x0102, 8), vec![2, 1, 0, 0, 0, 0, 0, 0]);
}

#[test]
fn tweak_is_the_sector_in_big_endian() {
    let t = get_tweak(0x0102);
    let mut expected = [0u8; 16];
    expected[14] = 1;
    expected[15] = 2;
    assert_eq!(t, expected);
    assert_eq!(get_tweak(u128::MAX), [0xFFu8; 16]);
    assert_eq!(u128::from_be_bytes(get_tweak(123456789)), 123456789);
}

#[test]
fn media_units_are_0x200_bytes() {
    assert_eq!(media_to_bytes(0), 0);
    assert_eq!(media_to_bytes(3), 0x600);
    let mut b = le32(2);
    b.extend(le32(5));
    b.extend([0u8; 8]);
    let e = FsEntry::parse(&b, 0).unwrap();
    assert_eq!(e.start_offset, 0x400);
    assert_eq!(e.end_offset, 0xA00);
    assert_eq!(FsEntry::parse(&b[..7], 0).unwrap_err(), BinError::UnexpectedEof);
}

#[test]
fn pfs0_header_lists_entries_and_names() {
    let img = pfs0_image(&[(0, 10, 0), (10, 20, 6)], b"a.nca\0b.tik\0");
    let h = PartitionFsHeader::parse(&img).unwrap();
    assert_eq!(h.entry_count, 2);
    assert_eq!(h.string_table_size, 12);
    assert_eq!(h.entry_table, vec![
        PFSEntry { offset: 0, size: 10, string_offset: 0 },
        PFSEntry { offset: 10, size: 20, string_offset: 6 },
    ]);
    assert_eq!(h.raw_data_pos, 0x10 + 2 * 0x18 + 12);
    assert_eq!(h.raw_data_pos(), h.raw_data_pos);
    assert_eq!(h.get_name_for_entry(&h.entry_table[0]).unwrap(), "a.nca");
    assert_eq!(h.get_name_for_entry(&h.entry_table[1]).unwrap(), "b.tik");
}

#[test]
fn pfs0_names_need_a_terminator_and_utf8() {
    let img = pfs0_image(&[(0, 1, 0), (0, 1, 3)], b"ab\0\xff\xfe\0cd");
    let h = PartitionFsHeader::parse(&img).unwrap();
    assert!(matches!(h.get_name_for_entry(&h.entry_table[1]), Err(PartitionFsErrors::DecodingError(_))));
    let e = PFSEntry { offset: 0, size: 0, string_offset: 6 };
    assert!(matches!(h.get_name_for_entry(&e), Err(PartitionFsErrors::NullTerminatorError)));
}

#[test]
fn pfs0_header_errors() {
    assert_eq!(PartitionFsHeader::parse(b"PF").unwrap_err(), BinError::UnexpectedEof);
    assert_eq!(PartitionFsHeader::parse(b"HFS0\0\0\0\0\0\0\0\0").unwrap_err(), BinError::BadMagic);
    let img = pfs0_image(&[(0, 1, 0)], b"x\0");
    assert_eq!(PartitionFsHeader::parse(&img[..img.len() - 1]).unwrap_err(), BinError::UnexpectedEof);
    let empty = pfs0_image(&[], b"");
    assert_eq!(empty.len(), 16);
    assert_eq!(PartitionFsHeader::parse(&empty[..12]).unwrap().entry_count, 0);
}

#[test]
fn partition_entries_open_past_the_header() {
    let img = pfs0_image(&[(5, 7, 0)], b"f\0");
    let pfs = PartitionFs::new_default_header(&img).unwrap();
    let region = pfs.open_entry(&pfs.header.entry_table[0]);
    assert_eq!(region, FileRegion { offset: 5 + 0x10 + 0x18 + 2, size: 7, pos: 0 });
}

#[test]
fn hfs0_header_reads_long_entries() {
    let mut v = b"HFS0".to_vec();
    v.extend(le32(1));
    v.extend(le32(7));
    v.extend([0u8; 4]);
    v.extend(le64(0x100));
    v.extend(le64(0x200));
    v.extend(le32(0));
    v.extend([0u8; 0x18]);
    v.extend_from_slice(b"secure\0");
    let h = HashPartitionFsHeader::parse(&v).unwrap();
    assert_eq!(h.entry_count, 1);
    assert_eq!(h.entry_table[0].offset, 0x100);
    assert_eq!(h.entry_table[0].size, 0x200);
    assert_eq!(h.string_table, b"secure\0".to_vec());
    assert_eq!(h.raw_data_pos(), 0x18 + 7 + 0x10);
    assert_eq!(HashPartitionFsHeader::parse(&v[..v.len() - 1]).unwrap_err(), BinError::UnexpectedEof);
}

fn xci_image(magic: &[u8; 4], card: u8) -> Vec<u8> {
    let mut v = vec![0u8; 0x140];
    v[0x100..0x104].copy_from_slice(magic);
    v[0x10C] = 3;
    v[0x10D] = card;
    v[0x10E] = 9;
    v[0x130..0x138].copy_from_slice(&le64(0xF000));
    v[0x138..0x140].copy_from_slice(&le64(0x200));
    v
}

#[test]
fn xci_header_is_read_from_its_offsets() {
    let x = Xci::new(&xci_image(b"HEAD", 0xF8)).unwrap();
    assert_eq!(x.header.magic, b"HEAD".to_vec());
    assert_eq!(x.header.title_key_dec_index, 3);
    assert_eq!(x.header.rom_size, CardSize::_2GB);
    assert_eq!(x.header.version, 9);
    assert_eq!(x.header.hfs_header_offset, 0xF000);
    assert_eq!(x.header.hfs_header_size, 0x200);
}

#[test]
fn xci_errors() {
    assert!(matches!(Xci::new(&xci_image(b"HEAX", 0xF8)), Err(XciErrors::InvalidMagic(m)) if m == b"HEAX".to_vec()));
    assert!(matches!(Xci::new(&xci_image(b"HEAD", 0x12)), Err(XciErrors::CorruptXci(BinError::NoVariantMatch))));
    assert!(matches!(Xci::new(&xci_image(b"HEAD", 0xE2)[..0x13F]), Err(XciErrors::CorruptXci(BinError::UnexpectedEof))));
    assert!(matches!(XciHeader::parse(&[0u8; 0x10]), Err(BinError::UnexpectedEof)));
    let mut x = Xci::new(&xci_image(b"HEAD", 0xE0)).unwrap();
    x.open_partition("secure".to_string());
    assert_eq!(x.header.rom_size, CardSize::_8GB);
}

fn nacp_image() -> Vec<u8> {
    let mut v = vec![0u8; 0x3070];
    v[0..5].copy_from_slice(b"Hello");
    v[0x200..0x204].copy_from_slice(b"Corp");
    v[0x300 * 2..0x300 * 2 + 6].copy_from_slice(&"ハロー".as_bytes()[..6]);
    v[0x3060..0x3065].copy_from_slice(b"1.2.3");
    v
}

#[test]
fn nacp_titles_and_version() {
    let n = Nacp::parse(&nacp_image()).unwrap();
    assert_eq!(n.titles.len(), 16);
    assert_eq!(n.titles[0].name().unwrap(), "Hello");
    assert_eq!(n.titles[0].publisher().unwrap(), "Corp");
    assert_eq!(n.titles[2].name().unwrap(), "ハロ");
    assert_eq!(n.titles[1].name().unwrap(), "");
    assert_eq!(n.version().unwrap(), "1.2.3");
    assert_eq!(Nacp::parse(&vec![0u8; 0x306F]).unwrap_err(), BinError::UnexpectedEof);
}

#[test]
fn stripped_fields_lose_their_zero_bytes() {
    let mut b = vec![0u8, b'a', 0, b'b', 0];
    strip(&mut b);
    assert_eq!(b, b"ab".to_vec());
    let t = Title { raw_name: vec![b'x', 0, b'y'], raw_publisher: vec![0xff, 0] };
    assert_eq!(t.name().unwrap(), "xy");
    assert!(t.publisher().is_err());
}

#[test]
fn languages_and_their_positions() {
    assert_eq!(TitleLanguage::try_from(0), Ok(TitleLanguage::AmericanEnglish));
    assert_eq!(TitleLanguage::try_from(15), Ok(TitleLanguage::BrazilianPortuguese));
    assert_eq!(TitleLanguage::try_from(16), Err(()));
    assert_eq!(TitleLanguage::try_from(-1), Err(()));
    assert_eq!(TitleLanguage::Japanese.index(), 2);
    assert_eq!(TitleLanguage::Japanese.name(), "Japanese");
    for i in 0..16 {
        assert_eq!(TitleLanguage::try_from(i).unwrap().index(), i as usize);
    }
}

#[test]
fn fs_header_with_a_sha256_tree() {
    let mut v = vec![0u8; 0x148];
    v[0..2].copy_from_slice(&[2, 0]);
    v[2] = 1;
    v[3] = 2;
    v[4] = 3;
    v[5] = 0;
    v[8..40].copy_from_slice(&[7u8; 32]);
    v[40..44].copy_from_slice(&le32(0x4000));
    v[44..48].copy_from_slice(&le32(2));
    v[52..60].copy_from_slice(&le64(0));
    v[60..68].copy_from_slice(&le64(0x100));
    v[68..76].copy_from_slice(&le64(0x100));
    v[76..84].copy_from_slice(&le64(0x900));
    v[84..92].copy_from_slice(&le64(0xAB));
    v[0x140..0x148].copy_from_slice(&le64(0x1234));
    let h = FsHeader::parse(&v).unwrap();
    assert_eq!(h.version, 2);
    assert_eq!(h.fs_type, FsType::PartitionFs);
    assert_eq!(h.hash_type, HashType::HierarchicalSha256Hash);
    assert_eq!(h.encryption_type, EncryptionType::AesCtr);
    assert_eq!(h.meta_hash_type, MetadataHashType::Unhashed);
    match &h.hash_data {
        HashData::HierarchicalSha256(d) => {
            assert_eq!(d.master_hash, vec![7u8; 32]);
            assert_eq!(d.block_size, 0x4000);
            assert_eq!(d.layer_count, 2);
            assert_eq!(d.layer_regions[1].offset, 0x100);
            assert_eq!(d.layer_regions[1].size, 0x900);
        }
        _ => panic!("expected a sha256 tree"),
    }
    assert_eq!(h.meta_hash_data_info.table_offset, 0xAB);
    assert_eq!(h.ctr, 0x1234);
    v[2] = 9;
    assert_eq!(FsHeader::parse(&v).unwrap_err(), BinError::NoVariantMatch);
    assert_eq!(FsHeader::parse(&v[..2]).unwrap_err(), BinError::UnexpectedEof);
}

#[test]
fn fs_header_with_an_integrity_tree() {
    let mut v = vec![0u8; 0x148];
    v[2] = 0;
    v[3] = 3;
    v[4] = 1;
    v[5] = 1;
    v[8..12].copy_from_slice(b"IVFC");
    v[12..16].copy_from_slice(&le32(0x20000));
    v[16..20].copy_from_slice(&le32(0x20));
    v[20..24].copy_from_slice(&le32(7));
    v[24..32].copy_from_slice(&le64(0x55));
    v[256..264].copy_from_slice(&le64(0x77));
    let h = FsHeader::parse(&v).unwrap();
    assert_eq!(h.fs_type, FsType::RomFS);
    assert_eq!(h.hash_type, HashType::HierarchicalIntegrityHash);
    assert_eq!(h.encryption_type, EncryptionType::Unencrypted);
    assert_eq!(h.meta_hash_type, MetadataHashType::HierarchicalIntegrity);
    match &h.hash_data {
        HashData::HierarchicalIntegrity(i) => {
            assert_eq!(i.version, 0x20000);
            assert_eq!(i.master_hash_size, 0x20);
            assert_eq!(i.info_level_hash.max_layers, 7);
            assert_eq!(i.info_level_hash.levels.len(), 6);
            assert_eq!(i.info_level_hash.levels[0].logical_offset, 0x55);
        }
        _ => panic!("expected an integrity tree"),
    }
    assert_eq!(h.meta_hash_data_info.table_offset, 0x77);
}

fn romfs_header_bytes() -> Vec<u8> {
    let mut v = le64(80);
    for i in 1..10u64 {
        v.extend(le64(i * 0x10));
    }
    v
}

fn file_entry(sibling: u32, offset: u64, size: u64, name: &[u8]) -> Vec<u8> {
    let mut v = le32(0);
    v.extend(le32(sibling));
    v.extend(le64(offset));
    v.extend(le64(size));
    v.extend(le32(0));
    v.extend(le32(name.len() as u32));
    v.extend_from_slice(name);
    v
}

#[test]
fn romfs_header_fields() {
    let h = RomFsHeader::parse(&romfs_header_bytes()).unwrap();
    assert_eq!(h.header_size, 80);
    assert_eq!(h.file_meta_table_offset, 0x70);
    assert_eq!(h.data_offset, 0x90);
    let mut bad = romfs_header_bytes();
    bad[0] = 81;
    assert_eq!(RomFsHeader::parse(&bad).unwrap_err(), BinError::AssertFail);
    assert_eq!(RomFsHeader::parse(&romfs_header_bytes()[..79]).unwrap_err(), BinError::UnexpectedEof);
}

#[test]
fn romfs_files_follow_their_siblings() {
    let h = RomFsHeader::parse(&romfs_header_bytes()).unwrap();
    let second_at = file_entry(0, 0x10, 4, b"control.nacp").len() as u32;
    let mut table = Vec::new();
    table.extend(file_entry(second_at, 0x10, 4, b"control.nacp"));
    table.extend(file_entry(0xFFFF_FFFF, 0x20, 8, b"icon_AmericanEnglish.dat"));
    let fs = RomFs::new(h, &table).unwrap();
    assert_eq!(fs.files.len(), 2);
    assert_eq!(fs.get_name_for_entry(&fs.files[0]).unwrap(), "control.nacp");
    assert_eq!(fs.get_name_for_entry(&fs.files[1]).unwrap(), "icon_AmericanEnglish.dat");
    assert_eq!(fs.get_file(&fs.files[1]), FileRegion { offset: 0x90 + 0x20, size: 8, pos: 0 });
    let cut = &table[..table.len() - 3];
    assert!(matches!(RomFs::new(h, cut), Err(RomFsErrors::CorruptRomFs(BinError::UnexpectedEof))));
}

#[test]
fn romfs_entries_parse_at_an_offset() {
    let mut table = vec![0u8; 3];
    table.extend(file_entry(7, 1, 2, b"ab"));
    let f = RomFsFileEntry::parse(&table, 3).unwrap();
    assert_eq!((f.sibling, f.offset, f.size, f.name_size), (7, 1, 2, 2));
    assert_eq!(f.name, b"ab".to_vec());
    let mut d = le32(1);
    for x in [2u32, 3, 4, 5, 1] {
        d.extend(le32(x));
    }
    d.push(b'z');
    let dir = RomFsDirectoryEntry::parse(&d, 0).unwrap();
    assert_eq!((dir.parent, dir.sibling, dir.child, dir.file, dir.hash), (1, 2, 3, 4, 5));
    assert_eq!(dir.name, b"z".to_vec());
    assert!(RomFsDirectoryEntry::parse(&d[..24], 0).is_err());
}

#[test]
fn regions_keep_reads_inside() {
    let mut r = FileRegion::new(100, 10);
    let q = r.plan_read(4).unwrap();
    assert_eq!(q, ReadRequest { position: 100, len: 4 });
    r.advance(q.len);
    let q = r.plan_read(64).unwrap();
    assert_eq!(q, ReadRequest { position: 104, len: 6 });
    r.advance(q.len);
    assert_eq!(r.plan_read(64), None);
    assert_eq!(r.plan_read_at(9, 64), Ok(ReadRequest { position: 109, len: 1 }));
    assert_eq!(r.plan_read_at(10, 64), Err(RegionError::OutOfBounds));
}

#[test]
fn keyring_keeps_key_area_and_header_keys() {
    let mut k = Keyring::new();
    let text = b"header_key=ABCD\nkey_area_key_application_00=11\nkey_area_key_ocean_00=22\nkey_area_key_system_00=33\nkey_area_key_application_01=44\nother=55";
    k.parse(text).unwrap();
    assert_eq!(k.header_key, "ABCD");
    assert_eq!(k.key_area_application, vec!["11".to_string(), "44".to_string()]);
    assert_eq!(k.key_area_ocean, vec!["22".to_string()]);
    assert_eq!(k.key_area_system, vec!["33".to_string()]);
}

#[test]
fn keyring_stops_at_a_line_that_is_not_utf8() {
    let mut k = Keyring::new();
    let text = b"key_area_key_ocean_00=aa\n\xff=1\nheader_key=b";
    assert!(k.parse(text).is_err());
    assert_eq!(k.key_area_ocean, vec!["aa".to_string()]);
    assert_eq!(k.header_key, "");
}

#[test]
fn content_archives_keep_their_keyring() {
    let mut k = Keyring::new();
    k.parse(b"header_key=00").unwrap();
    let nca = Nca::new(k.clone());
    assert_eq!(nca.keyring.header_key, "00");
}

#[test]
fn keyrings_are_readable_when_every_read_line_has_a_value() {
    assert!(keyring_is_readable(b"header_key=00\nkey_area_key_ocean_00=11"));
    assert!(!keyring_is_readable(b"header_key=00\n"));
    assert!(!keyring_is_readable(b"header_key=00\nnovalue\nx=1"));
    assert!(keyring_is_readable(b"header_key=00\n\xff\nnovalue"));
    assert!(!keyring_is_readable(b""));
}
